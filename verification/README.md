# bettertouchscreen

Turns multi-touch input from a Linux touch screen into touchpad input on
Wayland: one finger moves the pointer, taps click, double-tap-and-hold drags;
two fingers scroll, and a two-finger tap right-clicks.

The crate is in two parts.

- `src/` is the library, verified with Verus. It holds the decisions:
  - `input::touch_input` — multi-touch slot tracking (evdev protocol B) into
    frames of touch points; which devices count as touch screens.
  - `gesture::engine` — routing each frame to the pointer or scroll handler.
  - `gesture::handlers::{pointer, scroll}` — tap, double-tap drag, warm-up and
    two-finger tap logic.
  - `output::{emitter, virtpad}` — the input events sent for scrolls, motion
    and clicks, and when the virtual touchpad presses or releases buttons.
  - `calibration` — swipe detection and the axis transform it implies.
  - `debug::overlay` — drawing touch circles into a pixel buffer.
  - `types`, `cli`, `config` — shared types and plain options.
- `app/` is the program around it: device access (evdev, uinput), the clock,
  configuration files, the Wayland overlay surface, logging, and the
  floating-point motion arithmetic (sensitivities, centroids, sub-unit
  accumulation).

Touch coordinates are the device's integer units throughout the library;
times are nanoseconds of a monotonic clock supplied by the caller.
