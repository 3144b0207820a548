# Jinn Image Viewer

A fast, lightweight image viewer for folders of pictures, with thumbnails,
two-column reading, slide shows, EXIF details, configurable shortcuts and
themes, in Chinese and English.

## Layout

- `src/` is the viewer's logic as a library verified with Verus: natural
  ordering and stable sorting of files, the viewer state and its navigation,
  deletion and rotation rules, the texture and thumbnail caches with their
  memory budgets, GIF frame stepping, the EXIF parser and formatting, the
  image information panel, shortcut bindings and their conflicts, the saved
  settings, the interface languages and the themes. Every function carries a
  contract, and the laws that tie functions together (orders, round trips,
  undo) are stated as proof functions.
- `app/` is the window around the library: egui drawing, file dialogs, the
  recycle bin, file copies, the settings file, fonts, single-instance IPC and
  the floating-point geometry of zooming and fitting.
- `tests/` runs the library on concrete inputs.
