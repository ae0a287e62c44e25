# jellysink

A headless Jellyfin cast target that plays in mpv: a Jellyfin remote (the web
client, a phone app) sees it as a device to cast to, and what it sends plays in
an mpv window.

## Layout

- `src/` is the library, verified with Verus. It holds the decisions and the
  data formats: the cast commands a session message carries, the play queue
  and the slice of it mpv holds, what a `PlaybackInfo` answer plays and how its
  streams map to mpv tracks, remembering a track choice across episodes, series
  expansion, reconnect pacing, the mpv IPC protocol, the request bodies and
  URLs sent to the server, the configuration keys, and the tray and MPRIS
  models. Every public function carries a contract; the `law_*` proof
  functions state what holds across calls.
- `app/` is the program around it: the command line, the files under the
  configuration directory, HTTP and WebSocket I/O, the mpv process, the tray
  icon and MPRIS on D-Bus, and the loop that carries out what the library
  decides.
- `tests/` runs the library on concrete values.

Outside calls are taken on trust behind small functions whose contracts say
what they return: URL parsing and rewriting (`reqwest::Url`: parse, and
setting the scheme, path and query of the session socket URL), the log
filter grammar (`tracing_subscriber`'s `Targets`), `Path::file_name`, and
the `Debug` quoting of a string; `String::push` is given its specification
too.
