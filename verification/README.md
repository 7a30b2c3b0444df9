# braille_suite

The applets of a multi-line braille display (games, readers, tools, the
launcher and the settings) and the rules of its speech and sound service, as a
library whose behaviour is stated in Verus contracts and proved.

## Layout

- `src/` — the verified library. Each applet's state machine takes keys, time
  in milliseconds and display sizes as plain values and returns what the host
  should do (effects to play or say, pins to set). Screens are computed as lists
  of pins with exact contracts; laws that span several calls are public proof
  functions named `law_*`.
  - `text`, `input`, `speech`: characters, decimal numerals, keys, languages.
  - `chunk`, `audio_service`: sentence chunking for speech, the service's
    configuration, track and task bookkeeping and error replies.
  - `tetris`, `tetris_draw`, `cross_memory`, `find_dot`, `tactile_game`,
    `tactile_test`, `tactile_draw`, `rhythm`: the games and their screens.
  - `memo`, `brf`, `launcher`, `settings`, `weather`, `clock`, `graph`, `demo`,
    `drawing_game`, `dot_drawing`, `audio_test`, `small_apps`: the other applets.
- `tests/` — tests of the library on concrete values.
- `app/` — the runtime around it: the service's `main` (HTTP, audio output,
  speech synthesis) and the applets' glue to the device SDK, including what is
  computed in floating point (curves, ratios, easing, note timing).
