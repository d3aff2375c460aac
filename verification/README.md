# nim-proxy

A proxy in front of an OpenAI-compatible upstream. It paces requests over a
pool of keys, speaks the Anthropic Messages dialect as a second front, and
serves an operator dashboard that edits its settings.

`src/` is the verified library: every decision the proxy makes, as functions
from plain values to plain values, each with a contract that Verus proves.

- `json`, `codec`, `text`, `numbers`, `lists`, `buffers`, `digest`, `calendar`:
  the ground. `codec`, `buffers` and `digest` hold the calls into `serde_json`,
  `bytes`, `sha2` and `base64`.
- `bridge`: the Messages dialect. `request` and `tools` turn a Messages request
  into a chat request, `thinking` resolves its thinking options, `response` and
  `rounds` turn completions back, `search` and `feed` run the `web_search` tool,
  `sse` translates streams. `laws` and `stream_laws` state what holds of all of
  them together.
- `proxy`: admission, request plans, the buffered and the streamed exchange as
  state machines (`buffered`, `flow`), the search loop (`executor`), replies and
  metric labels.
- `config`, `settings`, `api`, `routes`: the store, everything that may change
  it, what the dashboard API sends, and who may reach which route. `settings/laws`
  states what no change can do.

`app/` is the server around it: HTTP, the clock, metrics and the API
description. `tests/` runs the library.
