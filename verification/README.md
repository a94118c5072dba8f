# ratatuni

A terminal music player: it downloads videos from a queue of URLs into MP3
files with their thumbnails and ID3 tags, keeps them in a SQLite library with
playlists, and plays them.

- `src/` is the verified library (Verus): text editing of the URL being
  typed, the download queue and the steps of a batch of downloads with their
  progress, turning titles into file names, the tags of downloaded files, the
  music library with its playlists, queue and browsed list, the decisions taken
  on each key press, the SQL statements, and the text shown in the window.
- `app/` is the program around it: the terminal, the event loop, the audio
  output, the database connection, the network downloads and the drawing.
- `tests/` runs the library on concrete values.

`app/` also uses `rodio` (audio output), `image` and `termimage`
(thumbnails). They are left out of `Cargo.toml` to keep the dependency tree
under four hundred packages, so `app/` needs them added before it builds;
the library and its tests do not use them.
