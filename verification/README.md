# gradbot (verified core)

The conversation logic of a voice-agent runtime, written in Verus and proved
against its contracts, with the network clients around it.

- `src/` — the verified library:
  - `sanitize` — removal of model control tokens from generated text;
  - `llm` — chat history, session configuration, tool-call bookkeeping;
  - `request` — the completion request (tools, serialisation, the posted body);
  - `tts` — the JSON configuration sent with a text-to-speech stream;
  - `sse` — decoding of streamed chat completions (lines, chunks, tool-call fragments);
  - `settings` — resolution of API keys, endpoints and the model to use;
  - `voice`, `binding` — languages, voices, audio formats and the values exchanged
    with the Python binding layer;
  - `json` — the serde_json calls the library relies on.
- `app/` — the asynchronous runtime: HTTP requests to the LLM, the streaming
  task, tool-call result channels, and the Gradium text-to-speech client.
- `tests/` — tests of the library on concrete values.
