# rs_ddraw

A DirectDraw replacement (`ddraw.dll`) for old Windows games, split in two:

- `src/` is the library, verified with Verus: display modes and their
  enumeration, the surface descriptions handed out by `Lock` and
  `GetSurfaceDesc`, colour fills, blits and flips on surface memory, the
  settings parser, the PE import-table walk behind the API hooks, the
  window procedure's and the hotkeys' decisions, the render viewport
  layout, and the decisions of the GDI, OpenGL and Direct3D 9 presenters
  (including the 16/32-bit to A8R8G8B8 pixel conversion).
- `app/` is the DLL around it: the exported functions, the COM objects,
  the DIB sections, the hooks' patching, the window subclass, the renderer
  thread and every Windows call. It uses the `windows` crate.

`tests/` exercises the library on concrete values.
