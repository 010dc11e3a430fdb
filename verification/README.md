# ruffle_android

The verified core of the Android front end of the Ruffle Flash player.

- `src/text_input.rs`: the state machine that turns Android's full-buffer text
  input snapshots (text, selection, composing span, with UTF-16 offsets) into
  the incremental actions that the player's text fields take: commit, preedit,
  and runs of editing key presses. Each step has a specification function, and
  `handle` is proved to emit exactly what `handle_spec` describes.
- `src/editor.rs`: what those actions do to a text field, and the laws: the
  emitted actions take the field from the remembered state to the new snapshot;
  re-handling a snapshot repeats only the preedit; runs of one key come merged;
  the preedit cursor lies within the composed text.
- `src/encoding.rs`: UTF-8 and UTF-16 lengths of character sequences, the
  UTF-16 offset to character index conversion, and buffer helpers.
- `src/keycodes.rs`: Android key codes to the player's key descriptors.
- `src/context_menu.rs`: the line that describes a context menu item to Java.
- `src/custom_event.rs`: the events of the Android event loop.
- `app/`: the JNI calls into the activity, the UI backend, and the conversions
  to and from the types of `android-activity` and `ruffle_core`.
