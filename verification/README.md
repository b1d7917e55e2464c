# pixelplay

A small animation playground whose drawing and motion rules are verified
with Verus.

- `src/` — the verified library: a model of RGBA frame buffers
  (`canvas`), pixel, rectangle, image and glyph drawing (`draw`), the named
  colours and the rainbow (`color`), the software-drawn bouncing image
  (`dvd`), the motion of the GPU-drawn bouncing image (`dvd_bounce`),
  wireframe index buffers (`mesh`), font-atlas cells and text layout
  (`text`), the rotating cube's key controls (`cube`), materials, Bézier
  control points, star colours and instance ranges. Random positions come
  from `rand` through two small trusted wrappers in `utils`.
- `app/` — the window (winit), the pixel buffer (pixels), image loading
  (image), font rasterisation (font-kit) and the floating-point parts
  (drawables, Bézier evaluation, cube rotation, star motion).
- `tests/` — tests of the library.
