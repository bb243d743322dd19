# pakstak

A local container manager built on OCI images and Bubblewrap. This crate is
its library, verified with Verus, together with a command-line program.

- `src/` is the verified library: image references, content digests,
  registry authentication challenges, manifest and index handling, the
  storage layout, pruning, repair checks and the Bubblewrap arguments of a
  run. Every function there carries a contract that Verus proves; the calls
  into `ring` (digests), `http-auth` (challenge parsing) and std's
  `str::from_utf8` sit behind trusted wrappers whose contracts are
  documented next to them.
- `app/` is the program: command-line parsing, the HTTP client, file system
  access, locking and layer extraction. It hands plain values to the library
  and acts on what the library decides.
- `tests/` runs the library on concrete inputs.

Storage lives in `$PAKSTAK_STORAGE_PATH`, else `$XDG_DATA_HOME/pakstak`,
else `$HOME/.local/share/pakstak`.
