# ewm

The logic of a Wayland compositor whose window manager is Emacs, written in Verus.

Emacs declares per output which surfaces are shown where; the compositor keeps that layout, decides
who gets keys and the pointer, when an output is redrawn, and what Emacs is told. The library holds
these decisions as functions on a state (`ewm::Ewm`). Each function has a contract over the state
before and after. What has to happen outside is queued as an `effect::Effect`; the caller carries
the effects out in order.

## Layout

- `src/` is the verified library.
  - `ewm/`: the compositor's state. Outputs, layouts, windows, layer surfaces, focus, keys and
    pointer, session lock, idleness, screen casts, commands of Emacs, and the laws that span them.
  - `backend/`: display devices and virtual outputs: modes, connecting, frames and VBlanks.
  - `dbus/`: screen cast sessions and the display configuration as the session bus shows them.
  - `pipewire/`: a screen cast stream: format negotiation, buffers and pacing.
  - `redraw.rs`, `frame_clock.rs`, `gamma.rs`: redraw states, VBlank prediction, gamma tables.
  - `keys.rs`, `keysyms.rs`, `input.rs`, `module.rs`, `lisp.rs`: key interception, device settings,
    and what crosses the border to Emacs. Lookups of keysyms and the placing of popups are handed in
    by the caller, since they need C libraries.
  - `layout.rs`, `geometry.rs`, `outputs.rs`, `session.rs`, `time.rs`, `text.rs`, `tables.rs`:
    models and tools that the others use.
- `tests/` runs the library on concrete values.
- `app/` is the Emacs dynamic module around it: Wayland objects, the session bus, the input method
  relay, and what is computed in floating point. It drives virtual outputs.

Functions named `law_*` state properties of several functions together.
