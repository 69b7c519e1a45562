# animecix

A desktop client for the AnimeciX catalogue (Turkish anime, series and
films), built around a library whose behaviour is specified and proved with
Verus.

## Layout

- `src/` — the library. Its functions carry `requires` / `ensures`
  contracts that Verus proves. The exception is a handful of small trusted
  wrappers around standard-library and `serde_json` calls (marked
  `#[verifier::external_body]`): Verus takes their contracts as given, and
  one of them, the conversion of a `serde_json` value, has none.
  - `catalog`, `json`, `rows` — titles, episodes and categories, and how the
    service's JSON answers and the stored state are read into them (and the
    records written so that they read back).
  - `library` — the viewer's records: watched episodes, favourites, history,
    the marathon list and the one-time tips.
  - `videos`, `embeds`, `quality` — episode lists, sources, the order in
    which they are tried, and resolving embed pages to playable addresses.
  - `playback`, `skip`, `music`, `player`, `font` — everything handed to
    mpv: options, key bindings, on-screen texts and subtitle overlays.
  - `segmented`, `cache`, `covers`, `http` — byte-range downloads, the answer
    and cover caches, and HTTP answers.
  - `chat`, `stream`, `aicix`, `tools` — the assistant: the conversation, the
    streamed answer and its tool calls.
  - `navigation`, `views`, `episode_page`, `flashcard`, `settings` — the
    decisions of the application's pages, dialogs and settings form.
  - `system`, `vpn`, `version` — installation, the optional VPN proxy and
    self-update.
  - `text`, `order` — text and ordering helpers shared by the above.
- `tests/` — tests of the library.
- `app/` — a terminal front end: network, files, processes and the parts
  that work on floating-point values.
