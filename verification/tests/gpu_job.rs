use kepfeldolgozo::gpu::{
    bindings, dispatch_plan, gpu_step, readback_binding, shader, BufferSource, GpuAction, GpuEvent, GpuJob,
    GpuKernel, GpuStage, GRAYSCALE_SHADER, NEGATIVE_SHADER, SOBEL_SHADER,
};

fn job(kernel: GpuKernel, input_len: usize, width: u32, height: u32) -> GpuJob {
    GpuJob { kernel, input_len, width, height }
}

#[test]
fn missing_adapter_ends_without_result() {
    let j = job(GpuKernel::Negative, 12, 2, 2);
    let (stage, action) = gpu_step(&j, GpuStage::AwaitingAdapter, GpuEvent::Adapter(false));
    assert_eq!(stage, GpuStage::Finished);
    assert!(matches!(action, GpuAction::Finish(None)));
}

#[test]
fn adapter_leads_to_device_request() {
    let j = job(GpuKernel::Grayscale, 12, 2, 2);
    let (stage, action) = gpu_step(&j, GpuStage::AwaitingAdapter, GpuEvent::Adapter(true));
    assert_eq!(stage, GpuStage::AwaitingDevice);
    assert!(matches!(action, GpuAction::RequestDevice));
}

#[test]
fn device_failure_ends_without_result() {
    let j = job(GpuKernel::Sobel, 12, 4, 3);
    let (stage, action) = gpu_step(&j, GpuStage::AwaitingDevice, GpuEvent::Device(false));
    assert_eq!(stage, GpuStage::Finished);
    assert!(matches!(action, GpuAction::Finish(None)));
}

#[test]
fn per_word_kernel_plan() {
    let j = job(GpuKernel::Negative, 129, 43, 1);
    let (stage, action) = gpu_step(&j, GpuStage::AwaitingDevice, GpuEvent::Device(true));
    assert_eq!(stage, GpuStage::AwaitingReadback);
    match action {
        GpuAction::Dispatch(plan) => {
            assert_eq!(plan.buffer_size, 129);
            assert_eq!(plan.workgroups, (3, 1, 1));
            assert!(plan.dimensions.is_empty());
        }
        _ => panic!("expected a dispatch"),
    }
}

#[test]
fn per_word_workgroup_count_truncates_to_32_bits() {
    let len: u64 = 64 * (1u64 << 32);
    if let Ok(len) = usize::try_from(len) {
        let plan = dispatch_plan(&job(GpuKernel::Grayscale, len, 1, 1));
        assert_eq!(plan.workgroups, (1, 1, 1));
    }
}

#[test]
fn sobel_plan_rounds_to_words_and_encodes_dimensions() {
    let plan = dispatch_plan(&job(GpuKernel::Sobel, 10, 5, 2));
    assert_eq!(plan.buffer_size, 12);
    assert_eq!(plan.workgroups, (1, 1, 1));
    let mut expected = Vec::new();
    expected.extend_from_slice(&5u32.to_ne_bytes());
    expected.extend_from_slice(&2u32.to_ne_bytes());
    assert_eq!(plan.dimensions, expected);

    let plan = dispatch_plan(&job(GpuKernel::Sobel, 1920 * 1080, 1920, 1080));
    assert_eq!(plan.buffer_size, 1920 * 1080);
    assert_eq!(plan.workgroups, (121, 68, 1));
    assert_eq!(plan.dimensions.len(), 8);
    assert_eq!(&plan.dimensions[0..4], &1920u32.to_ne_bytes());
    assert_eq!(&plan.dimensions[4..8], &1080u32.to_ne_bytes());
}

#[test]
fn sobel_readback_is_cut_to_input_length() {
    let j = job(GpuKernel::Sobel, 10, 5, 2);
    let mapped: Vec<u8> = (1..=12).collect();
    let (stage, action) = gpu_step(&j, GpuStage::AwaitingReadback, GpuEvent::Readback(Some(mapped)));
    assert_eq!(stage, GpuStage::Finished);
    match action {
        GpuAction::Finish(Some(out)) => assert_eq!(out, (1..=10).collect::<Vec<u8>>()),
        _ => panic!("expected a result"),
    }
}

#[test]
fn per_word_readback_is_delivered_whole() {
    let j = job(GpuKernel::Negative, 6, 2, 1);
    let mapped = vec![9u8, 8, 7, 6, 5, 4];
    let (_, action) = gpu_step(&j, GpuStage::AwaitingReadback, GpuEvent::Readback(Some(mapped.clone())));
    match action {
        GpuAction::Finish(Some(out)) => assert_eq!(out, mapped),
        _ => panic!("expected a result"),
    }
}

#[test]
fn failed_readback_ends_without_result() {
    let j = job(GpuKernel::Grayscale, 6, 2, 1);
    let (stage, action) = gpu_step(&j, GpuStage::AwaitingReadback, GpuEvent::Readback(None));
    assert_eq!(stage, GpuStage::Finished);
    assert!(matches!(action, GpuAction::Finish(None)));
}

#[test]
fn kernel_shaders_and_labels() {
    assert_eq!(shader(GpuKernel::Negative), (NEGATIVE_SHADER, "Negatív Shader"));
    assert_eq!(shader(GpuKernel::Grayscale), (GRAYSCALE_SHADER, "Szürke Shader"));
    assert_eq!(shader(GpuKernel::Sobel), (SOBEL_SHADER, "Sobel Shader"));
    assert!(NEGATIVE_SHADER.contains("0xFFFFFFFFu"));
    assert!(SOBEL_SHADER.contains("atomicOr"));
    assert!(SOBEL_SHADER.contains("@workgroup_size(16, 16)"));
    assert!(GRAYSCALE_SHADER.contains("@workgroup_size(64)"));
}

#[test]
fn kernel_bindings_and_readback() {
    let per_word = bindings(GpuKernel::Negative);
    assert_eq!(per_word.len(), 1);
    assert_eq!(per_word[0].source, BufferSource::Input);
    assert!(per_word[0].writable && per_word[0].copy_src && per_word[0].copy_dst);
    assert_eq!(readback_binding(GpuKernel::Grayscale), 0);

    let sobel = bindings(GpuKernel::Sobel);
    let sources: Vec<BufferSource> = sobel.iter().map(|b| b.source).collect();
    assert_eq!(sources, vec![BufferSource::Input, BufferSource::Zeroed, BufferSource::Dimensions]);
    assert_eq!(sobel.iter().map(|b| b.binding).collect::<Vec<u32>>(), vec![0, 1, 2]);
    assert_eq!(sobel.iter().map(|b| b.writable).collect::<Vec<bool>>(), vec![false, true, false]);
    assert_eq!(readback_binding(GpuKernel::Sobel), 1);
    assert!(sobel[1].copy_src);
}

fn validate_wgsl(source: &str) {
    let module = wgpu::naga::front::wgsl::parse_str(source).expect("the kernel parses");
    let mut validator = wgpu::naga::valid::Validator::new(
        wgpu::naga::valid::ValidationFlags::all(),
        wgpu::naga::valid::Capabilities::empty(),
    );
    validator.validate(&module).expect("the kernel validates");
    assert!(module.entry_points.iter().any(|e| e.name == "main"));
}

#[test]
fn kernel_sources_are_valid_wgsl() {
    validate_wgsl(shader(GpuKernel::Negative).0);
    validate_wgsl(shader(GpuKernel::Grayscale).0);
    validate_wgsl(shader(GpuKernel::Sobel).0);
}
