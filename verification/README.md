# spotify-importer

An importer for Spotify playlists and albums, verified with Verus.

An import first searches an access token: in the data that the embed page of the
collection carries, then at the endpoint for anonymous visitors, then by client
credentials. With the first token that is still good it asks the Spotify API. Where no
token is good, or the API fails, it reads the same things from the data of the embed
page.

The library decides and computes; it does no I/O. `import::Import::action` says what is
to be done next (send a request, read the clock), and `import::Import::step` takes in
what came of it.

| Module | What it holds |
| --- | --- |
| `text`, `numeral` | searching, trimming and splitting text; decimal numerals |
| `json`, `reader` | JSON documents; reading them with `serde_json` |
| `link` | links to playlists and albums |
| `page` | what is read from web pages |
| `http` | requests, and what is read from replies |
| `token` | the search for an access token |
| `model` | what an import yields |
| `track`, `collection`, `listing` | from JSON to tracks, descriptions and lists |
| `exchange`, `import` | the import, step by step |
| `laws` | what holds of whole imports |

What is believed without proof stands at the top of `src/reader.rs`: the contracts of
the JSON parser, of the accessors of its document type, and of the UTF-8 decoder of the
standard library.

`app/` is the plugin around the library: it sends the requests, reads the clock and
hands the outcome to the host.
