# boltpm

A package manager for JavaScript projects: a command line tool that installs
packages from a self-hosted registry into a local cache, pins them in
`bolt.lock`, and runs plugin hooks around each install; and the registry
service itself.

- `src/` holds the logic, with contracts proved by Verus:
  - `strmap`: string-keyed maps with distinct keys and a `Map` view;
  - `text`: substring search, ASCII case folding, decimal rendering,
    lexicographic order;
  - `registry`: the registry index, its migration, publishing, yanking,
    deprecation, lookup and search;
  - `lock`: the pinned packages, removal of a package with everything it
    pulls in, the frozen-lockfile check, the choice of the newest version;
  - `install`: the install/update state machine (a failed hook run, registry
    request, download or extraction is followed by an `onError` run), the
    plugin context of a hook run, and the registry addresses;
  - `plugin`, `plugin_api`: plugin contexts, plugin files and hook runs;
  - `lockfile`: the workspace lockfile written by `boltpm lock`;
  - `gui`: the desktop interface's answers;
  - `laws`: properties relating several operations.
- `app/` is the program around it: argument parsing, files, HTTP, the
  dynamic loading of plugins and the registry's HTTP service
  (`boltpm registry`).
- `tests/` exercise the library on concrete values.
