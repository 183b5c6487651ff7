# sample

A window that shows a few display items, pans and zooms under touch, and
serves blob images as checkerboards.

- `src/touch.rs` — verified gesture recogniser: the active touches, the
  gesture they make (idle, pan, zoom) and the pan and zoom state. Positions
  and zoom factors are type parameters; the floating-point geometry that a
  step asks for is done by the caller.
- `src/blob.rs` — verified checkerboard rasteriser (A8 and RGBA8) and the
  store that holds each rendered image until it is resolved.
- `app/` — the program: window, event loop, display list, and the glue that
  feeds touch events and blob requests to the library.
- `tests/` — tests of the library on concrete values.
