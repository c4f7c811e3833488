# lyrion

A music server for Squeezebox players, with its core verified in Verus.

- `src/` is the verified library: the Slimproto wire format and discovery
  protocol, the per-connection message handling, the streaming and sync
  state machines, playlists, the plugin registry and manager, the random-mix
  plugin's decisions, transcoding rules, the DSD container readers, the
  JSON-RPC command planner, and the scanner's decisions. Every public
  function carries a contract; the laws that relate several functions are
  public proof functions beside them.
- `app/` is the program around it: the TCP, UDP and HTTP servers, the
  database, loading plugin libraries, reading audio tags, and the library
  scanner (`lyrion scan <music_directory> [options]`).
- `tests/` runs the library on concrete values.
