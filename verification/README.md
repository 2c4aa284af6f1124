# zenoh_plugin_rest

The logic of zenoh's REST plugin, verified with Verus, together with the command-line logic
of the zenoh router daemon and the link-selection logic of zenoh's transports.

- `src/` is the verified library: port settings (`port`), encodings (`encoding`), property
  lists (`properties`), sample rendering in JSON and HTML (`sample`), request handling and
  responses (`http`), the daemon's command line (`router`), link selection and transmission
  counters (`transport`), decimal numbers (`number`) and character-sequence helpers (`text`).
  `outside` holds the calls into `serde_json`, `base64` and std's UTF-8 decoding.
- `app/` is the I/O around it: the tide HTTP server, the plugin's start-up and the daemon's
  clap command line. It reaches zenoh through the `ZenohSession` trait.
- `tests/` exercises the library on concrete values.

The zenoh crates themselves (`zenoh`, `zenoh-util`, `zenoh-router`, `zenoh-plugin-trait`) are
not dependencies: the zenoh session is reached through `ZenohSession`, and the property-list
format, the known encodings and the text of a value are written in `src/`. `git-version` is
not used, so the daemon's command line carries no version.
