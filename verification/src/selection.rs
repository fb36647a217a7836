//! Which filters a run applies, on which devices, and which result is saved.

use vstd::prelude::*;

verus! {

/// The filters the tool offers.
#[derive(Clone, Copy, Debug, PartialEq, Eq, Structural)]
pub enum Filter {
    Negative,
    Grayscale,
    Brightness,
    Sobel,
    Blur,
}

impl Filter {
    /// The command-line name of the filter.
    pub open spec fn spec_name(self) -> Seq<char> {
        match self {
            Filter::Negative => "negativ"@,
            Filter::Grayscale => "szurke"@,
            Filter::Brightness => "fenyero"@,
            Filter::Sobel => "sobel"@,
            Filter::Blur => "blur"@,
        }
    }

    /// The command-line name of the filter.
    pub fn name(&self) -> (s: &'static str)
        ensures
            s@ == self.spec_name(),
    {
        match self {
            Filter::Negative => "negativ",
            Filter::Grayscale => "szurke",
            Filter::Brightness => "fenyero",
            Filter::Sobel => "sobel",
            Filter::Blur => "blur",
        }
    }

    /// The file the filtered image is written to.
    pub open spec fn spec_output_file(self) -> Seq<char> {
        match self {
            Filter::Negative => "kimenet_negativ.jpg"@,
            Filter::Grayscale => "kimenet_szurke.jpg"@,
            Filter::Brightness => "kimenet_fenyero.jpg"@,
            Filter::Sobel => "kimenet_sobel.jpg"@,
            Filter::Blur => "kimenet_blur.jpg"@,
        }
    }

    /// The file the filtered image is written to.
    pub fn output_file(&self) -> (s: &'static str)
        ensures
            s@ == self.spec_output_file(),
    {
        match self {
            Filter::Negative => "kimenet_negativ.jpg",
            Filter::Grayscale => "kimenet_szurke.jpg",
            Filter::Brightness => "kimenet_fenyero.jpg",
            Filter::Sobel => "kimenet_sobel.jpg",
            Filter::Blur => "kimenet_blur.jpg",
        }
    }

    /// The filter has a GPU compute kernel.
    pub open spec fn spec_has_gpu_kernel(self) -> bool {
        self is Negative || self is Grayscale || self is Sobel
    }

    /// The filter has a GPU compute kernel (negative, grayscale and Sobel do).
    pub fn has_gpu_kernel(&self) -> (b: bool)
        ensures
            b == self.spec_has_gpu_kernel(),
    {
        match self {
            Filter::Negative | Filter::Grayscale | Filter::Sobel => true,
            Filter::Brightness | Filter::Blur => false,
        }
    }
}

/// `a` and `b` hold the same characters.
fn same_text(a: &str, b: &str) -> (r: bool)
    ensures
        r == (a@ == b@),
{
    a.to_owned() == b.to_owned()
}

/// The filter choice given on the command line selects `filter`: it names the
/// filter, or it is `all`.
pub open spec fn spec_is_selected(choice: Seq<char>, filter: Filter) -> bool {
    choice == filter.spec_name() || choice == "all"@
}

/// Whether the filter choice given on the command line selects `filter`.
pub fn is_selected(choice: &str, filter: Filter) -> (b: bool)
    ensures
        b == spec_is_selected(choice@, filter),
{
    same_text(choice, filter.name()) || same_text(choice, "all")
}

/// The run mode asks for the GPU: it is `gpu` or `all`.
pub open spec fn spec_gpu_requested(mode: Seq<char>) -> bool {
    mode == "gpu"@ || mode == "all"@
}

/// Whether `filter` also runs on the GPU in run mode `mode`.
pub fn runs_on_gpu(filter: Filter, mode: &str) -> (b: bool)
    ensures
        b == (filter.spec_has_gpu_kernel() && spec_gpu_requested(mode@)),
{
    filter.has_gpu_kernel() && (same_text(mode, "gpu") || same_text(mode, "all"))
}

/// The saved image is the GPU's: for negative and grayscale whenever the mode
/// is `gpu`, for Sobel only when, in addition, the GPU run was timed at more
/// than 0 ms (a failed run records no time); brightness and blur always save
/// the CPU result.
pub open spec fn spec_saves_gpu_result(filter: Filter, mode: Seq<char>, gpu_time_positive: bool) -> bool {
    match filter {
        Filter::Negative | Filter::Grayscale => mode == "gpu"@,
        Filter::Sobel => mode == "gpu"@ && gpu_time_positive,
        Filter::Brightness | Filter::Blur => false,
    }
}

/// Whether the image saved for `filter` is the GPU result (else the parallel
/// CPU result); `gpu_time_positive` tells whether the GPU run was timed at
/// more than 0 ms.
pub fn saves_gpu_result(filter: Filter, mode: &str, gpu_time_positive: bool) -> (b: bool)
    ensures
        b == spec_saves_gpu_result(filter, mode@, gpu_time_positive),
{
    match filter {
        Filter::Negative | Filter::Grayscale => same_text(mode, "gpu"),
        Filter::Sobel => same_text(mode, "gpu") && gpu_time_positive,
        Filter::Brightness | Filter::Blur => false,
    }
}

/// The choice `all` selects every filter, and a filter's own name selects
/// that filter and no other.
pub proof fn lemma_selection_names(f: Filter, g: Filter)
    ensures
        spec_is_selected("all"@, f),
        spec_is_selected(g.spec_name(), f) <==> f == g,
{
    reveal_strlit("all");
    reveal_strlit("negativ");
    reveal_strlit("szurke");
    reveal_strlit("fenyero");
    reveal_strlit("sobel");
    reveal_strlit("blur");
    assert(g.spec_name() != "all"@) by {
        assert(g.spec_name().len() != 3 || g.spec_name()[0] != 'a');
    }
    if f != g {
        assert(f.spec_name() != g.spec_name()) by {
            assert(f.spec_name().len() != g.spec_name().len() || f.spec_name()[0] != g.spec_name()[0]);
        }
    }
}

/// Only the run mode `gpu` saves a GPU image; for negative and grayscale the
/// choice does not depend on the GPU timing, for Sobel it needs a GPU run
/// timed above 0 ms, and brightness and blur never save a GPU image.
pub proof fn lemma_saved_result(f: Filter, mode: Seq<char>, t: bool, u: bool)
    ensures
        mode != "gpu"@ ==> !spec_saves_gpu_result(f, mode, t),
        (f is Negative || f is Grayscale) ==> (spec_saves_gpu_result(f, mode, t) <==> mode == "gpu"@),
        (f is Negative || f is Grayscale) ==> spec_saves_gpu_result(f, mode, t) == spec_saves_gpu_result(f, mode, u),
        f is Sobel ==> (spec_saves_gpu_result(f, mode, t) <==> mode == "gpu"@ && t),
        (f is Brightness || f is Blur) ==> !spec_saves_gpu_result(f, mode, t),
        spec_saves_gpu_result(f, mode, t) ==> f.spec_has_gpu_kernel() && spec_gpu_requested(mode),
{
}

} // verus!
