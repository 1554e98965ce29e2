# nd-organizer

The rules of a music organizer for Navidrome, written in Rust and verified with Verus: which
album a file belongs to, where it goes, what is done with it on the way, and how all of it is
undone again.

- `src/` is the library. Every function in it has a contract that Verus proves; the modules'
  laws are public proof functions. Calls into other crates (`serde_json`, `quick-xml`, `md-5`,
  `base64`) stand behind small items whose contracts say what is taken on trust.
- `app/` is the plugin around it: files, tags in files, requests, the server's store and queue.
- `tests/` runs the library on given values.

| Part | Modules |
| --- | --- |
| Texts, numbers, documents | `text`, `order`, `fraction`, `json`, `url` |
| Settings | `config` |
| Names and places | `template`, `tags`, `nfo`, `organizer`, `pairing`, `walk`, `cleanup` |
| Moving and undoing | `files`, `paths`, `apply`, `state`, `records` |
| A run and its phases | `pass`, `steps`, `scan`, `group`, `report`, `posts`, `store`, `health`, `hosts`, `net` |
| Enriching | `enrich`, `metadata`, `identity`, `sidecars`, `artwork`, `lyrics`, `replaygain` |
| Services | `musicbrainz`, `lidarr`, `discogs`, `genius`, `theaudiodb`, `apple_music`, `audiomuse`, `lastfm`, `trim` |
| Listens and stars | `stats`, `ratings`, `favorites` |
