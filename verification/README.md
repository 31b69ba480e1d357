# hestia

The core of Hestia, a file catalogue that tags and hashes the files of a
library without moving them, written in Verus.

- `src/` is the verified library: paths and file types, content and identity
  hashes of files and folders, the synchronisation of a directory with the
  database (which operations, in which batches, and the proof that applying
  them reproduces the disk), the file watcher's decisions and watch list,
  libraries and their configuration, the thumbnail job queue, and the
  computations of the query commands (pages, duplicates, statistics).
- `tests/` exercises the library on concrete values.
- `app/` is the program around it: the command line, the TOML and SQLite
  files of a library, the directory walk, and the watcher's event loop.
