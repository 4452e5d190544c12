# stream_hub

A verified core for a desktop live-stream aggregator that follows rooms on
Douyu, Bilibili Live, Huya and Douyin Live: it resolves what the user enters
into a room, reads each platform's answers, chooses and signs stream lines,
decodes Douyin's live comments, and assembles search and status results.

## Layout

- `src/` — the library, written in Verus. Every function carries a contract
  over `Seq`-based models, and the properties that span functions are public
  proof functions (`lemma_*`).
  - `text`, `seqs` — character-level text helpers and sequence utilities.
  - `outside` — the trusted calls into md5, base64, flate2, urlencoding, url,
    regex, uuid and the system clock, each with the contract it is trusted for.
  - `proto` — protobuf varints and fields, Douyin push frames and batches.
  - `platform`, `room` — platform names, saved streamers and settings, cookie
    and proxy headers, room addresses and room numbers.
  - `bilibili`, `huya`, `douyu`, `douyin` — each platform's room reports and
    stream lines.
  - `search`, `sync`, `play`, `danmaku`, `player` — search results, refreshing
    saved streamers, playback and the stream proxy, the comment relay, and the
    player's text logic.
- `tests/` — scenarios, one test per proved law on concrete values, and unit
  tests of formulas, error messages and the trusted calls.
- `app/` — ordinary Rust around the library: HTTP requests, JSON decoding
  into the library's types, files, helper processes, and the local WebSocket
  relay and stream proxy.
