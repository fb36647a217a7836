use kepfeldolgozo::selection::{is_selected, runs_on_gpu, saves_gpu_result, Filter};

#[test]
fn filter_names_and_files() {
    assert_eq!(Filter::Negative.name(), "negativ");
    assert_eq!(Filter::Grayscale.name(), "szurke");
    assert_eq!(Filter::Brightness.name(), "fenyero");
    assert_eq!(Filter::Sobel.name(), "sobel");
    assert_eq!(Filter::Blur.name(), "blur");
    assert_eq!(Filter::Negative.output_file(), "kimenet_negativ.jpg");
    assert_eq!(Filter::Blur.output_file(), "kimenet_blur.jpg");
    assert_eq!(Filter::Sobel.output_file(), "kimenet_sobel.jpg");
}

#[test]
fn selection_by_name_or_all() {
    assert!(is_selected("all", Filter::Sobel));
    assert!(is_selected("all", Filter::Brightness));
    assert!(is_selected("negativ", Filter::Negative));
    assert!(!is_selected("negativ", Filter::Grayscale));
    assert!(!is_selected("sobel", Filter::Blur));
    assert!(!is_selected("", Filter::Blur));
    assert!(!is_selected("ALL", Filter::Blur));
}

#[test]
fn gpu_runs_only_for_kernels_in_gpu_modes() {
    assert!(runs_on_gpu(Filter::Sobel, "all"));
    assert!(runs_on_gpu(Filter::Negative, "gpu"));
    assert!(runs_on_gpu(Filter::Grayscale, "gpu"));
    assert!(!runs_on_gpu(Filter::Negative, "cpu"));
    assert!(!runs_on_gpu(Filter::Blur, "gpu"));
    assert!(!runs_on_gpu(Filter::Brightness, "all"));
}

#[test]
fn saved_result_choice() {
    assert!(saves_gpu_result(Filter::Negative, "gpu", false));
    assert!(saves_gpu_result(Filter::Grayscale, "gpu", true));
    assert!(!saves_gpu_result(Filter::Negative, "all", true));
    assert!(saves_gpu_result(Filter::Sobel, "gpu", true));
    assert!(!saves_gpu_result(Filter::Sobel, "gpu", false));
    assert!(!saves_gpu_result(Filter::Sobel, "all", true));
    assert!(!saves_gpu_result(Filter::Blur, "gpu", true));
    assert!(!saves_gpu_result(Filter::Brightness, "gpu", true));
}
