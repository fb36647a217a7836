# kepfeldolgozo

Image filters for a benchmark tool that compares sequential, multi-core and
GPU execution: negative, grayscale, brightness, Sobel edge detection and a
3x3 box blur.

- `src/` is the verified library (Verus): the filters on raw pixel buffers,
  their row-wise forms used for parallel execution, the choice of filters and
  of the saved result, and the decisions of a GPU compute job.
  - `pixels.rs`: per-channel filters (negative, brightness, grayscale layout)
  - `root.rs`: clamped integer square root used for edge intensities
  - `grid.rs`: row-major index lemmas
  - `sobel.rs`, `blur.rs`: neighbourhood filters
  - `selection.rs`: which filters run, on which device, which image is saved
  - `gpu.rs`: kernel sources, bind-group layout, buffer sizes, workgroup
    counts and outcomes of a GPU job
- `app/` is the command-line program: argument parsing, image files, timing,
  the CSV report, the thread pool and the GPU device work.
- `tests/` exercises the library on concrete images.
