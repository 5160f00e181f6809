# animation_asset_manager

The verified core of a desktop manager for animation reference clips (GIF and video
assets, frame-by-frame viewing, annotations, exports to image sequences and video,
helper scripts for Maya and Blender, and import from Sakugabooru).

- `src/` is the library, checked by Verus: frame ranges and their clipping, frame
  file naming, the decoders' and encoders' plans (which decoder a format takes, the
  `ffmpeg` arguments of an export, the frame copies of an image sequence), the
  store's file layout, the DCC helper scripts, the reading of `ffprobe` answers and
  of Sakugabooru tags, and the text and path handling these rest on.
- `app/` is the Tauri program around it: the SQLite store, file and network I/O,
  running `ffmpeg`, the serialisable forms of the library's types, and the values
  that carry floating-point numbers or timestamps.
- `tests/` runs the library on concrete values.
