# Hakuro

A Windows desktop lyrics player. It follows what Spotify or YouTube Music is playing, looks up
original-language lyrics, highlights the line being sung, and keeps what it downloaded in SQLite.

`src/` is the library, verified with Verus: everything the app decides and computes, as functions
on plain values. `app/` is the program around it: the Tauri window, the network, the files, the
Windows media session. `tests/` runs the library with the crates it calls.

| Module | What it holds |
| --- | --- |
| `lrc` | LRC timelines: reading them, stripping tags, the active line |
| `matching` | Conservative track identity: folded titles, overlapping artists, four seconds |
| `providers` | Lyrics results, LRCLIB, NetEase, QQ Music, and the order of the lookup |
| `petitlyrics`, `musixmatch` | The two Japanese-market sources |
| `settings` | What the reader can set, and how a stored file is put in order |
| `player`, `smtc`, `spotify` | The two players: samples, transport actions, sign-in, calls |
| `connection`, `session` | Connecting, polling, which lookup counts, what the interface is told |
| `db`, `tables`, `token_store` | What is kept, under which keys, and when it is read back |
| `text`, `double`, `codec`, `json`, `xml`, `http` | Text, numbers, encodings, documents, requests |

A source that needs several requests is a function from the replies so far to the next request or
to its result; a sign-in and a call to Spotify are state machines. The program sends what they ask
for and hands the replies back.

What comes from other crates stands behind small functions whose contracts are trusted: HTML
entities, Unicode normalization and case folding, Traditional to Simplified Chinese, base64,
SHA-256, random bytes, percent-encoding, JSON, XML, and the `\d` of regular expressions.
