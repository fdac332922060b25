# mapmap_ui

The editing logic of the MapFlow user interface, verified with Verus.

`src/` holds the library. Every function there carries a contract that
Verus proves, but two: `search::to_lowercase`, which calls the standard
library's `str::to_lowercase` and is trusted to return the lowercase form
that `lowercase` names, and `picture::decode_rgba`, which calls the `image`
crate's decoder and is trusted to give a picture exactly when the bytes
decode (what `decodes` names), with four bytes per pixel.

- `graph`: parts, connections and the lookups and edits on them.
- `history`, `history_laws`: undo and redo of canvas edits, what they
  give back, and which canvas steps keep every cable between existing parts.
- `canvas`, `selection`, `search`, `canvas_laws`: the canvas state —
  deletion with undo, selection, copy and paste, playback toggling, MIDI
  learn, cables, context menus, node search — and what these operations keep.
- `preview`: which projector outputs and sources the inspector previews.
- `layout`: automatic layout, new parts, presets.
- `style`: colours, icons, names and sockets of the parts.
- `module_list`: the order of the module selector.
- `paths`, `property`: the file name shown for a path, and the property
  line shown under a node's title.
- `picture`: the mixer photo, the first candidate file that decodes.
- `midi`: the controller overlay: which elements a MIDI message drives,
  learn targets, filters and frames.
- `panels`: the cue, layer and mapping panels.

`app/` is the egui front end: windows, drawing, pointer and keyboard input,
icon and photo files, and the JSON description of a controller. `tests/`
runs the library on concrete values.
