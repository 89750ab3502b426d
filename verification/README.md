# water_render

A terminal renderer for an animated water surface, with its core logic
verified by Verus.

- `src/ansi.rs` — the bytes of the crossterm commands the renderer uses
  (cursor move, foreground colour, print), as spec functions, and the
  trusted wrappers that append them to a buffer.
- `src/renderer.rs` — `Renderer`: a model of what every terminal cell shows,
  resizing, and `draw`, which repaints exactly the cells whose colour
  changed and proves the resulting byte stream.
- `src/input.rs` — what the event loop does with a key or resize event.
- `app/` — floating-point shading (camera, Fresnel, sky colours), terminal
  I/O and the event loop, built on the library.
