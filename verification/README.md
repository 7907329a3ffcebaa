# simple_wrapper

A layer-shell space that shows the windows and popups of one client, with its
decisions verified by Verus.

- `src/` is the library. `space` holds the state and follows the client's
  windows, `layer` its place on the desktop, `events` a turn of the event loop,
  `render` and `damage` the drawing of a frame, `popup` the popups, `client` the
  start of the client, `config` and `geometry` what they build on. `changes` has
  the laws that hold whatever happens to a space.
- `tests/` runs the library on concrete values.
- `app/` carries out what the library decides.
