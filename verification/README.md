# doclayout-detector

Document layout detection for rendered PDF pages with the PP-DocLayoutV3
model: render each page, run the network, decode the boxes into page
coordinates in reading order, and write an annotated PNG and a JSON file per
page.

## Layout

- `src/` is the library. It holds everything that decides something
  without floating-point arithmetic, each function with a proved contract:
  - `preprocess`, `pp_doclayout::detector`: page-buffer and model-input checks;
  - `pp_doclayout::types`, `pp_doclayout::postprocess`: shape validation,
    batching of single-page outputs and slicing of batched outputs into pages;
  - `pp_doclayout::ranking`, `pp_doclayout::model`: stable top-k selection of
    candidates by the IEEE 754 total order of their score bit patterns,
    reading-order ranks, the final reading order, host-side top-k and the
    order-logit mask;
  - `pp_doclayout::labels`, `pp_doclayout::config`: the label table and the
    checkpoint's architecture constants;
  - `pp_doclayout::weights`: checkpoint access through the `safetensors`
    crate;
  - `annotate`, `raster`: box outlines on RGBA canvases, BGRA bitmap
    conversion, one-based page ranges and PNG encoding through `png`;
  - `cli`: command-line value parsing, page batching and output file names;
  - `text`: decimal numbers and shapes written as `format!` writes them.
- `app/` is the program around the library: the command line, PDF rendering
  with `pdfium`, the `burn` network, the floating-point pre- and
  post-processing, file and JSON output, and the browser bindings.
- `tests/` runs the library on concrete values.
