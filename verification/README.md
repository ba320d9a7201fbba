# azor

The Azor call-centre copilot server. An operator's call is transcribed live,
each customer utterance is matched against a knowledge base built from Notion
exports, and a language model answers with passages it cites from that
knowledge base.

## Layout

- `src/` — the library, verified with Verus: credential and bearer-token
  checks, audio packet decoding, transcript assembly, Notion export
  extraction and chunking, embedding batches, the copilot prompt and the
  location of cited passages in their documents. Each public function states
  its result in its contract; the laws that relate several functions are
  public proof functions (`lemma_*`).
- `tests/` — tests of the library on concrete values.
- `app/` — the server around the library: HTTP and WebSocket endpoints,
  database access, the speech-recognition and embedding services and the
  language model.
