# wl-zenwindow

Dims Wayland monitors with layer-shell overlays: every monitor but the one being
worked on is covered by a dark, translucent surface. When the focus moves, the
old monitor is dimmed and the new one clears.

## Layout

- `src/` is the library. It takes every decision (what each output looks like,
  which surface is painted how, which step of the event loop comes next) and is
  verified with Verus. It talks to nobody: events come in and actions go out as
  plain values. Cross-cutting properties are stated and proved in `src/laws/`.
- `app/` connects to the compositor, hands events to the library and performs
  its actions. It also offers the builder with floating-point numbers and
  `std::time::Duration`.
- `tests/` run the library on concrete values.

## Numbers

Opacities, brightnesses and progress are counted in parts of 10^15, times in
nanoseconds. Products are rounded to the nearest part; alpha bytes and gamma
entries are rounded as documented at their functions.

## Two engines

`app` and `dim` keep a dimming state per output, from which both opacity and
brightness follow. The direct engine (`state`, `surface`, `toplevel`,
`transition`, `handlers`) draws overlays straight from events.
