# oxitone_preview

The verified core of the Oxitone project preview, written in Verus.

- `src/` is the library: the document protocol's data (`document_wire`), the
  close-after-save state machine (`close_state`), the preview's document
  readiness, site choice, message handling and request numbering
  (`document_ui`), the request queue and control step of the control thread (`backend`),
  snapshot and transport acceptance (`engine`), sounding-note tracking
  (`analysis`), automation target names (`automation_labels`), the numeric
  text field of the configuration editor (`configuration_edit`), mixer key
  navigation (`mixer_actions`) and the playlist's drag projection
  (`playlist_projection`). Every function there carries a contract that
  Verus proves. The public proof functions state further properties: some
  over single calls, and some over whole sequences of calls (the close state's
  save and completion, the request serial, the request queue's order and bound).
- `tests/` runs the library on concrete values.
- `app/` is the program around it: arguments, the control thread and its
  socket, JSON copies of the protocol types, and the floating-point editing
  arithmetic.
