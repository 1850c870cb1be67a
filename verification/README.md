# koscleaner

The core of a cautious disk cleaner, verified with Verus.

- `src/` is the library. It never touches the disk: the program records what
  it observed of the file system in an `FsSnapshot`, and the library decides on
  those observations.
  - `pathname`: paths parsed into components as `std::path` parses them,
    for Unix paths and Windows paths with a drive (`C:`, `\\?\C:`) or none;
    network and device prefixes are not read (see the module's notes).
  - `platform`: where caches, data, trash and the audit log live on Linux,
    macOS and Windows, from the environment the program read.
  - `safety`: the check every deletion passes, and the root containment check.
  - `cleaners`: the roots each cleaner declares.
  - `scanner`: the dry run over a cleaner's roots.
  - `executor`: which requested paths may be removed, and the tally.
  - `audit`: the audit record and where the log goes.
  - `commands`: what the front end may ask for.
- `app/` is the program around it: reading the environment and the disk,
  removing files, appending to the audit log, and the desktop shell.
- `tests/` runs the library on small file systems described in the tests.
