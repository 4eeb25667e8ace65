# mandwm

A daemon for dwm and dmenu. The library in `src/` holds its logic with
Verus contracts:

- `error`: errors with a severity.
- `api`: the client-side bar state and the notice for a new primary string.
- `daemon`: the daemon's configuration, command line, bar and scripts.
- `segments`: how setting the primary string and appending change the bar.
- `command`: status scripts and how one run becomes bar text or a warning.
- `bar`: one cycle of the main loop, from script outputs to the root window text.
- `dmenu`, `ffi`: the dmenu manager's request parsing and the C interface.

`app/` is the program around it: X11 calls, dbus, processes, the tokio
main loop and the dmenu TCP server.
