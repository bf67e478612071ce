# palemachine

A web music downloader: it takes YouTube links, looks the music up on
Spotify for album covers, runs a downloader script and files the result.

- `src/` is the verified library, written in Verus:
  - `text`: character-level search, trimming and line splitting;
  - `youtube`: query parameters, playlist detection, API request URLs and
    the choice of lookup for a link;
  - `doc`: parsed JSON/TOML documents as plain values, configuration entries;
  - `spotify`: video titles, album covers, request headers;
  - `download`: the downloader command line, the destination folder read
    back from its output, the cover file name, the version check;
  - `db`: the download history row;
  - `lobby`: the sessions of the live log.
- `app/` is the server around it: HTTP routes, websockets, HTTP requests,
  SQLite, files and processes, and JSON/TOML parsing.
- `tests/` runs the library on concrete values.
