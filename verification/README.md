# dioxus_sdk

Application utilities for Dioxus apps — translations, client storage,
channels, debouncing, geolocation, notifications, clipboard and theme — with
their logic verified by Verus.

- `src/` is the verified library. Every function there carries a contract
  that Verus proves: translation lookup with fallback languages and `{name}`
  parameters, the hex-over-zlib text form of stored values (and that it reads
  back what was written), string-keyed maps whose keys never repeat, the
  session store, the storage watcher's subscription table, debounce timing,
  listener states, geolocation access rules and the error texts.
- `app/` holds the hooks, I/O and platform calls around the library (Dioxus
  signals, files on disk, the file watcher, the clipboard, desktop
  notifications, timers) and the serde copies of the library's types.
- `tests/` runs the library on concrete values.

Calls into outside crates that the verified code makes (language identifier
parsing, zlib compression) go through a few small trusted wrappers in `src/`,
each with a doc comment saying what its contract assumes.
