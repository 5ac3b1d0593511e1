# opticalcortex

The logic of a desktop front end for yt-dlp and ffmpeg, verified with Verus.

- `src/` — the verified library:
  - `text` — trimming, searching, splitting, joining and decimal rendering over `Seq<char>`;
  - `netscape` — Netscape cookie files from page cookies, from the browser's cookie store and from DevTools responses;
  - `ytdlp` — quality presets, login arguments, download command lines, stream detection, listings;
  - `convert` — ffmpeg conversion command lines;
  - `auth` — reading a login probe and deciding between a second probe and an answer;
  - `process` — following a child process through its runner's events, and progress words;
  - `json` — JSON documents in the library's form, playlist and video records;
  - `tools` — tool status and yt-dlp version age;
  - `storage` — the folder that holds saved cookie files, by system and environment.
- `app/` — the Tauri commands and window set-up: processes, files, windows, events.
- `tests/` — tests of the library on concrete values.
