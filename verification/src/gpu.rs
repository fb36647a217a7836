//! Decisions of a GPU compute job: which kernel source and storage buffers it
//! uses, how large its buffers are, how many
//! workgroups it dispatches, what the dimensions buffer holds, and what the
//! job yields once the device answers. The device work itself (adapter,
//! device, pipelines, submission, read-back) is carried out by the caller,
//! which feeds each outcome back to `gpu_step`.

use vstd::prelude::*;

verus! {

/// The compute kernels the tool can run.
#[derive(Clone, Copy, Debug, PartialEq, Eq, Structural)]
pub enum GpuKernel {
    /// Inverts every byte of an RGB buffer.
    Negative,
    /// Replaces every RGB pixel by its BT.601 luma in all three channels.
    Grayscale,
    /// Sobel edge detection on a single-channel image.
    Sobel,
}

/// A job: the kernel, the input length in bytes and the image dimensions
/// (the dimensions matter to the Sobel kernel only).
#[derive(Clone, Copy, Debug)]
pub struct GpuJob {
    pub kernel: GpuKernel,
    pub input_len: usize,
    pub width: u32,
    pub height: u32,
}

/// What the caller sets up once the device is ready.
pub struct DispatchPlan {
    /// Size in bytes of the buffer the kernel writes and of the read-back buffer.
    pub buffer_size: u64,
    /// Workgroup counts in x, y and z.
    pub workgroups: (u32, u32, u32),
    /// Contents of the dimensions buffer (`[width, height]` as 32-bit words);
    /// empty for kernels that take no dimensions.
    pub dimensions: Vec<u8>,
}

/// Where a job stands.
#[derive(Clone, Copy, Debug, PartialEq, Eq, Structural)]
pub enum GpuStage {
    AwaitingAdapter,
    AwaitingDevice,
    AwaitingReadback,
    Finished,
}

/// What the device side reports.
pub enum GpuEvent {
    /// Whether an adapter was found.
    Adapter(bool),
    /// Whether the device could be opened.
    Device(bool),
    /// The mapped read-back bytes, or `None` when mapping failed.
    Readback(Option<Vec<u8>>),
}

/// What the caller does next.
pub enum GpuAction {
    /// Open a device on the adapter.
    RequestDevice,
    /// Build the buffers and pipeline, dispatch and read back.
    Dispatch(DispatchPlan),
    /// Stop; the job yields this result (`None`: the GPU could not be used).
    Finish(Option<Vec<u8>>),
}

/// WGSL source of the negative kernel: each invocation inverts one 32-bit
/// word of the buffer, i.e. every byte `x` becomes `255 - x`.
pub const NEGATIVE_SHADER: &'static str = r#"
    @group(0) @binding(0) var<storage, read_write> pixels: array<u32>;
    @compute @workgroup_size(64)
    fn main(@builtin(global_invocation_id) id: vec3<u32>) {
        let idx = id.x;
        if (idx >= arrayLength(&pixels)) { return; }
        pixels[idx] = pixels[idx] ^ 0xFFFFFFFFu;
    }
"#;

/// WGSL source of the grayscale kernel: the buffer holds packed RGB pixels;
/// each invocation owns three 32-bit words (four whole pixels) and writes the
/// BT.601 luma of each pixel into its three channels.
pub const GRAYSCALE_SHADER: &'static str = r#"
    @group(0) @binding(0) var<storage, read_write> pixels: array<u32>;

    fn read_byte(words: ptr<function, array<u32, 3>>, b: u32) -> u32 {
        return ((*words)[b / 4u] >> ((b % 4u) * 8u)) & 0xFFu;
    }

    fn write_byte(words: ptr<function, array<u32, 3>>, b: u32, v: u32) {
        let shift = (b % 4u) * 8u;
        (*words)[b / 4u] = ((*words)[b / 4u] & ~(0xFFu << shift)) | (v << shift);
    }

    @compute @workgroup_size(64)
    fn main(@builtin(global_invocation_id) id: vec3<u32>) {
        let count = arrayLength(&pixels);
        let first = id.x * 3u;
        if (first >= count) { return; }

        var words = array<u32, 3>(0u, 0u, 0u);
        for (var k = 0u; k < 3u; k = k + 1u) {
            if (first + k < count) { words[k] = pixels[first + k]; }
        }

        for (var p = 0u; p < 4u; p = p + 1u) {
            let base = p * 3u;
            if (first * 4u + base + 2u >= count * 4u) { break; }
            let r = f32(read_byte(&words, base));
            let g = f32(read_byte(&words, base + 1u));
            let b = f32(read_byte(&words, base + 2u));
            let gray = u32(r * 0.299 + g * 0.587 + b * 0.114);
            write_byte(&words, base, gray);
            write_byte(&words, base + 1u, gray);
            write_byte(&words, base + 2u, gray);
        }

        for (var k = 0u; k < 3u; k = k + 1u) {
            if (first + k < count) { pixels[first + k] = words[k]; }
        }
    }
"#;

/// WGSL source of the Sobel kernel: each invocation computes the clamped
/// gradient magnitude of one interior byte of the luma image and merges it
/// into its output word with an atomic OR, so that no invocation overwrites
/// another's byte.
pub const SOBEL_SHADER: &'static str = r#"
    @group(0) @binding(0) var<storage, read> input_pixels: array<u32>;
    @group(0) @binding(1) var<storage, read_write> output_pixels: array<atomic<u32>>;
    @group(0) @binding(2) var<storage, read> dimensions: vec2<u32>;

    fn get_pixel(x: u32, y: u32, w: u32, h: u32) -> f32 {
        if (x >= w || y >= h) { return 0.0; }
        let pixel_idx = (y * w + x) / 4u;
        let byte_idx = (y * w + x) % 4u;
        let packed = input_pixels[pixel_idx];
        return f32((packed >> (byte_idx * 8u)) & 0xFFu);
    }

    @compute @workgroup_size(16, 16)
    fn main(@builtin(global_invocation_id) id: vec3<u32>) {
        let w = dimensions.x;
        let h = dimensions.y;
        let x = id.x;
        let y = id.y;

        if (x >= w || y >= h) { return; }
        let out_idx = y * w + x;

        if (x == 0u || x == w - 1u || y == 0u || y == h - 1u) {
            return;
        }

        let gx = -1.0 * get_pixel(x - 1u, y - 1u, w, h) + 1.0 * get_pixel(x + 1u, y - 1u, w, h)
                 -2.0 * get_pixel(x - 1u, y, w, h)      + 2.0 * get_pixel(x + 1u, y, w, h)
                 -1.0 * get_pixel(x - 1u, y + 1u, w, h) + 1.0 * get_pixel(x + 1u, y + 1u, w, h);

        let gy = -1.0 * get_pixel(x - 1u, y - 1u, w, h) - 2.0 * get_pixel(x, y - 1u, w, h) - 1.0 * get_pixel(x + 1u, y - 1u, w, h)
                 +1.0 * get_pixel(x - 1u, y + 1u, w, h) + 2.0 * get_pixel(x, y + 1u, w, h) + 1.0 * get_pixel(x + 1u, y + 1u, w, h);

        let magnitude = u32(sqrt(gx * gx + gy * gy));
        let edge = clamp(magnitude, 0u, 255u);

        let p_idx = out_idx / 4u;
        let b_idx = out_idx % 4u;

        atomicOr(&output_pixels[p_idx], edge << (b_idx * 8u));
    }
"#;

/// Where a buffer's initial contents come from.
#[derive(Clone, Copy, Debug, PartialEq, Eq, Structural)]
pub enum BufferSource {
    /// The job's input bytes.
    Input,
    /// `buffer_size` zero bytes.
    Zeroed,
    /// The plan's dimensions bytes.
    Dimensions,
}

/// One storage buffer of a kernel's bind group.
#[derive(Clone, Copy, Debug, PartialEq, Eq, Structural)]
pub struct BufferBinding {
    /// Binding index in group 0.
    pub binding: u32,
    /// Initial contents.
    pub source: BufferSource,
    /// The kernel may write the buffer (a read-write storage binding).
    pub writable: bool,
    /// The buffer may be copied from (it is read back).
    pub copy_src: bool,
    /// The buffer may be copied into.
    pub copy_dst: bool,
}

/// The WGSL source and debug label of each kernel.
pub open spec fn spec_shader(kernel: GpuKernel) -> (Seq<char>, Seq<char>) {
    match kernel {
        GpuKernel::Negative => (NEGATIVE_SHADER@, "Negatív Shader"@),
        GpuKernel::Grayscale => (GRAYSCALE_SHADER@, "Szürke Shader"@),
        GpuKernel::Sobel => (SOBEL_SHADER@, "Sobel Shader"@),
    }
}

/// The WGSL source of `kernel` and its debug label.
pub fn shader(kernel: GpuKernel) -> (s: (&'static str, &'static str))
    ensures
        (s.0@, s.1@) == spec_shader(kernel),
{
    match kernel {
        GpuKernel::Negative => (NEGATIVE_SHADER, "Negatív Shader"),
        GpuKernel::Grayscale => (GRAYSCALE_SHADER, "Szürke Shader"),
        GpuKernel::Sobel => (SOBEL_SHADER, "Sobel Shader"),
    }
}

/// The bind group of each kernel, by binding index: the per-word kernels
/// work in place on one read-write copy of the input; Sobel reads the input
/// and the dimensions and writes a zeroed output buffer.
pub open spec fn spec_bindings(kernel: GpuKernel) -> Seq<BufferBinding> {
    match kernel {
        GpuKernel::Sobel => seq![
            BufferBinding { binding: 0, source: BufferSource::Input, writable: false, copy_src: false, copy_dst: false },
            BufferBinding { binding: 1, source: BufferSource::Zeroed, writable: true, copy_src: true, copy_dst: false },
            BufferBinding { binding: 2, source: BufferSource::Dimensions, writable: false, copy_src: false, copy_dst: false },
        ],
        _ => seq![
            BufferBinding { binding: 0, source: BufferSource::Input, writable: true, copy_src: true, copy_dst: true },
        ],
    }
}

/// The storage buffers of `kernel`, in binding order.
pub fn bindings(kernel: GpuKernel) -> (b: Vec<BufferBinding>)
    ensures
        b@ == spec_bindings(kernel),
{
    let b = match kernel {
        GpuKernel::Sobel => vec![
            BufferBinding { binding: 0, source: BufferSource::Input, writable: false, copy_src: false, copy_dst: false },
            BufferBinding { binding: 1, source: BufferSource::Zeroed, writable: true, copy_src: true, copy_dst: false },
            BufferBinding { binding: 2, source: BufferSource::Dimensions, writable: false, copy_src: false, copy_dst: false },
        ],
        _ => vec![
            BufferBinding { binding: 0, source: BufferSource::Input, writable: true, copy_src: true, copy_dst: true },
        ],
    };
    proof {
        assert(b@ =~= spec_bindings(kernel));
    }
    b
}

/// Index, in `bindings(kernel)`, of the buffer that is copied back after the
/// dispatch.
pub open spec fn spec_readback_binding(kernel: GpuKernel) -> int {
    match kernel {
        GpuKernel::Sobel => 1,
        _ => 0,
    }
}

/// Index, in `bindings(kernel)`, of the buffer that is copied back after the
/// dispatch; it is the one buffer that may be copied from.
pub fn readback_binding(kernel: GpuKernel) -> (i: usize)
    ensures
        i == spec_readback_binding(kernel),
        spec_bindings(kernel)[i as int].copy_src,
        forall|j: int| 0 <= j < spec_bindings(kernel).len() && j != i ==> !(#[trigger] spec_bindings(kernel)[j]).copy_src,
{
    match kernel {
        GpuKernel::Sobel => 1,
        _ => 0,
    }
}

/// Byte `k` (0 = least significant) of `v`.
pub open spec fn byte_of(v: u32, k: int) -> u8 {
    let place: int = if k == 0 {
        1
    } else if k == 1 {
        0x100
    } else if k == 2 {
        0x10000
    } else {
        0x1000000
    };
    ((v as int / place) % 256) as u8
}

/// The four bytes of `v` in memory order, little- or big-endian.
pub open spec fn word_bytes(v: u32, little: bool) -> Seq<u8> {
    if little {
        seq![byte_of(v, 0), byte_of(v, 1), byte_of(v, 2), byte_of(v, 3)]
    } else {
        seq![byte_of(v, 3), byte_of(v, 2), byte_of(v, 1), byte_of(v, 0)]
    }
}

/// The in-memory bytes of a sequence of words in one byte order.
pub open spec fn words_in_memory(words: Seq<u32>, little: bool) -> Seq<u8> {
    words.map_values(|v: u32| word_bytes(v, little)).flatten()
}

/// `bytemuck::cast_slice` from `u32` words to bytes, copied out. The bytes
/// are the words' memory image: four per word, in the machine's byte order
/// (little- or big-endian; which one is a property of the machine and is not
/// stated further). The cast never fails from `u32` to `u8`.
#[verifier::external_body]
fn words_as_bytes(words: &[u32]) -> (bytes: Vec<u8>)
    ensures
        bytes@ == words_in_memory(words@, true) || bytes@ == words_in_memory(words@, false),
{
    bytemuck::cast_slice::<u32, u8>(words).to_vec()
}

/// Size in bytes of the buffer the kernel writes: the input length, rounded
/// up to whole 32-bit words for the Sobel kernel.
pub open spec fn spec_buffer_size(job: GpuJob) -> int {
    match job.kernel {
        GpuKernel::Sobel => ((job.input_len + 3) / 4) * 4,
        _ => job.input_len as int,
    }
}

/// Workgroup counts: one 64-wide group per 64 input bytes plus one for the
/// per-word kernels (the count truncated to 32 bits); one 16x16 group per
/// 16x16 tile plus one in each direction for Sobel.
pub open spec fn spec_workgroups(job: GpuJob) -> (u32, u32, u32) {
    match job.kernel {
        GpuKernel::Sobel => ((job.width / 16 + 1) as u32, (job.height / 16 + 1) as u32, 1u32),
        _ => (((job.input_len as u64) / 64 + 1) as u32, 1u32, 1u32),
    }
}

/// What a successful read-back yields: the first `input_len` bytes for
/// Sobel (whose buffer was rounded up), the whole read-back otherwise.
pub open spec fn spec_delivered(job: GpuJob, mapped: Seq<u8>) -> Seq<u8> {
    match job.kernel {
        GpuKernel::Sobel => mapped.take(job.input_len as int),
        _ => mapped,
    }
}

/// The jobs whose plan can be computed: the Sobel buffer size must fit in a `usize`.
pub open spec fn job_is_valid(job: GpuJob) -> bool {
    job.kernel is Sobel ==> job.input_len + 3 <= usize::MAX
}

/// The event is the one the stage waits for; for Sobel a read-back holds at
/// least `input_len` bytes.
pub open spec fn event_fits(job: GpuJob, stage: GpuStage, event: GpuEvent) -> bool {
    match stage {
        GpuStage::AwaitingAdapter => event is Adapter,
        GpuStage::AwaitingDevice => event is Device,
        GpuStage::AwaitingReadback => match event {
            GpuEvent::Readback(Some(bytes)) => job.kernel is Sobel ==> bytes@.len() >= job.input_len,
            GpuEvent::Readback(None) => true,
            _ => false,
        },
        GpuStage::Finished => false,
    }
}

/// What a successful read-back delivers: the per-word kernels (negative,
/// grayscale) hand on every byte read back, unchanged; Sobel hands on the
/// first `input_len` bytes. A read-back of the planned buffer size therefore
/// always yields exactly `input_len` bytes, and the planned size is the input
/// length, for Sobel rounded up to the next multiple of 4.
pub proof fn lemma_readback_delivered(job: GpuJob, m: Seq<u8>)
    ensures
        !(job.kernel is Sobel) ==> spec_buffer_size(job) == job.input_len,
        !(job.kernel is Sobel) ==> spec_delivered(job, m).len() == m.len(),
        !(job.kernel is Sobel) ==> forall|i: int| 0 <= i < m.len() ==> #[trigger] spec_delivered(job, m)[i] == m[i],
        job.kernel is Sobel ==> job.input_len <= spec_buffer_size(job) < job.input_len + 4,
        job.kernel is Sobel ==> spec_buffer_size(job) % 4 == 0,
        job.kernel is Sobel && m.len() >= job.input_len ==> spec_delivered(job, m).len() == job.input_len,
        job.kernel is Sobel && m.len() >= job.input_len ==> forall|i: int|
            0 <= i < job.input_len ==> #[trigger] spec_delivered(job, m)[i] == m[i],
        m.len() == spec_buffer_size(job) ==> spec_delivered(job, m).len() == job.input_len,
{
}

/// The dispatch plan of a job.
pub fn dispatch_plan(job: &GpuJob) -> (plan: DispatchPlan)
    requires
        job_is_valid(*job),
    ensures
        plan.buffer_size == spec_buffer_size(*job),
        plan.workgroups == spec_workgroups(*job),
        job.kernel is Sobel ==> (plan.dimensions@ == words_in_memory(seq![job.width, job.height], true)
            || plan.dimensions@ == words_in_memory(seq![job.width, job.height], false)),
        !(job.kernel is Sobel) ==> plan.dimensions@.len() == 0,
{
    match job.kernel {
        GpuKernel::Sobel => {
            let words: u64 = ((job.input_len + 3) / 4) as u64;
            let dims: Vec<u32> = vec![job.width, job.height];
            let dimensions = words_as_bytes(dims.as_slice());
            proof {
                assert(dims@ =~= seq![job.width, job.height]);
            }
            DispatchPlan {
                buffer_size: words * 4,
                workgroups: (job.width / 16 + 1, job.height / 16 + 1, 1),
                dimensions,
            }
        },
        _ => {
            let size = job.input_len as u64;
            DispatchPlan {
                buffer_size: size,
                workgroups: ((size / 64 + 1) as u32, 1, 1),
                dimensions: Vec::new(),
            }
        },
    }
}

/// Advances a job by one device outcome: a missing adapter, a device that
/// cannot be opened or a failed read-back ends the job with no result; an
/// adapter leads to a device request; a device leads to the dispatch of
/// `dispatch_plan(job)`; a read-back ends the job with the delivered bytes.
pub fn gpu_step(job: &GpuJob, stage: GpuStage, event: GpuEvent) -> (next: (GpuStage, GpuAction))
    requires
        job_is_valid(*job),
        event_fits(*job, stage, event),
    ensures
        match (stage, event) {
            (GpuStage::AwaitingAdapter, GpuEvent::Adapter(true)) => next.0 == GpuStage::AwaitingDevice
                && next.1 is RequestDevice,
            (GpuStage::AwaitingDevice, GpuEvent::Device(true)) => {
                &&& next.0 == GpuStage::AwaitingReadback
                &&& next.1 matches GpuAction::Dispatch(plan)
                &&& plan.buffer_size == spec_buffer_size(*job)
                &&& plan.workgroups == spec_workgroups(*job)
                &&& job.kernel is Sobel ==> (plan.dimensions@ == words_in_memory(seq![job.width, job.height], true)
                    || plan.dimensions@ == words_in_memory(seq![job.width, job.height], false))
                &&& !(job.kernel is Sobel) ==> plan.dimensions@.len() == 0
            },
            (GpuStage::AwaitingReadback, GpuEvent::Readback(Some(bytes))) => {
                &&& next.0 == GpuStage::Finished
                &&& next.1 matches GpuAction::Finish(Some(out))
                &&& out@ == spec_delivered(*job, bytes@)
            },
            _ => {
                &&& next.0 == GpuStage::Finished
                &&& next.1 matches GpuAction::Finish(None)
            },
        },
{
    match event {
        GpuEvent::Adapter(found) => {
            if found {
                (GpuStage::AwaitingDevice, GpuAction::RequestDevice)
            } else {
                (GpuStage::Finished, GpuAction::Finish(None))
            }
        },
        GpuEvent::Device(ready) => {
            if ready {
                (GpuStage::AwaitingReadback, GpuAction::Dispatch(dispatch_plan(job)))
            } else {
                (GpuStage::Finished, GpuAction::Finish(None))
            }
        },
        GpuEvent::Readback(None) => (GpuStage::Finished, GpuAction::Finish(None)),
        GpuEvent::Readback(Some(bytes)) => {
            let out = match job.kernel {
                GpuKernel::Sobel => {
                    let mut out: Vec<u8> = Vec::new();
                    let mut i: usize = 0;
                    while i < job.input_len
                        invariant
                            i <= job.input_len <= bytes@.len(),
                            out@ == bytes@.take(i as int),
                        decreases job.input_len - i,
                    {
                        out.push(bytes[i]);
                        proof {
                            assert(bytes@.take(i + 1) =~= bytes@.take(i as int).push(bytes@[i as int]));
                        }
                        i += 1;
                    }
                    out
                },
                _ => bytes,
            };
            (GpuStage::Finished, GpuAction::Finish(Some(out)))
        },
    }
}

} // verus!
