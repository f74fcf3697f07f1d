# growcli_chat

The verified core of Grow CLI's support for OpenAI-compatible Chat Completions
providers.

- `src/` is the library, verified with Verus:
  - `chat_stream`: the state machine that reads streamed chunks, announces text
    and tool-call argument deltas, and closes a response with its message, its
    tool calls (in slot order) and the completion; one step per observation
    of the event stream.
  - `chat_request`: response items and tools mapped into a Chat Completions
    request.
  - `provider`: the GrowthCircle check and its tool filter.
  - `model_info`: fallback model metadata and configuration overrides.
  - `home`: where the configuration directory is.
  - `stream_laws`, `request_laws`: properties that span several calls.
  - `text`, `json`, `model`: strings, JSON documents and response items as
    plain values with their mathematical forms.
- `app/` reads the event stream (tokio, eventsource-stream), the environment
  and the file system, and holds the serde forms of the library's types.
- `tests/` runs the library on concrete values.
