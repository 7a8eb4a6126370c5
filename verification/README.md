# wlrix-settings-daemon

The wlRIX settings service: the one program that writes the wlRIX config files, behind
`com.wlrix.Settings` on the session bus. A client reads and writes settings by key
(`compositor.keyboard.layout`); the daemon checks the value against the schema, edits the TOML
file without disturbing anything else in it, has the owning program's parser approve the result,
installs it atomically, and tells the owner to reload.

## Layout

- `src/` -- the library, verified with Verus. Everything that decides something lives here:
  - `paths` -- which files exist, where they are, which one is in force.
  - `schema` -- every setting: type, range, choices, default, owner, reload behavior; the
    fan-out group; the annotated dump of the schema.
  - `edit` -- a TOML document modeled as a map of entries, edited through `toml_edit` so that
    comments, order and spacing survive; reading a file into a document; what the owner's
    `--check-config` answer means for a write.
  - `store` -- resolving and coercing requests, planning a batch (one write per file), the
    effective value and source of every setting, re-reading a file and what moved, recognizing
    the daemon's own writes, and the laws that tie these together.
  - `apply` -- what a change means for its owner: signal, restart, or next login.
  - `bus` -- what each method of the bus interface answers, and the error it answers with.
  - `watch` -- which files a burst of inotify events puts in doubt.
  - `cli` -- the command line, and the `--check` report.
- `app/` -- the program around the library: file and process I/O, the inotify loop, the bus
  connection and interface, logging.
- `tests/` -- tests of the library through its public interface.
