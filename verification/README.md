# apple_frames

Frame pacing, hardware input, accessibility and Metal frame planning for windows on Apple
platforms, as pure decisions over plain values, verified with Verus.

## Layout

- `src/` is the verified library.
  - `presentation_pacing`, `frame_pacing`: when a window draws. `presentation_laws` states what
    holds of every run.
  - `hardware_keyboard`, `described`, `injection`: key presses, touches and gestures as UIKit
    reports them. `keyboard_laws` relates layout and keystrokes.
  - `instance_buffer`: the buffers a frame's data is packed into, with `instance_laws`.
  - `scene`, `surfaces`, `textures`, `render_commands`: what a frame draws and what it is drawn
    with.
  - `frame_model` says what a frame is, `frame_encoding` encodes one; `frame_laws` and
    `frame_memory_laws` state what holds of every frame.
  - `metal_renderer`: what a renderer remembers between frames. `readback`: pixels read back.
  - `a11y_tree`, `a11y`: accesskit trees as VoiceOver elements, with `a11y_laws`.
  - `text`, `time`: strings and clock readings.
- `app/` is the Apple side: it makes the Metal and UIKit objects, holds everything in floating
  point, and performs what the library decides.
- `tests/` runs the library.

## What is trusted

`char::to_lowercase` and `String::push` of the standard library, the getters of
`accesskit::Node`, and `from_raw`, `into_raw` and `dimensions` of `image::RgbaImage`. Each is
described where it is declared.
