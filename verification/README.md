# webkeylayer_backend

Backend of a keyboard/mouse overlay for streaming: it captures global input
on Windows, broadcasts key, button, wheel and movement-direction events to
browser clients over WebSocket, serves the stream page, and offers a local
management service (configuration, Input Overlay preset import, service
control) plus a tray menu.

## Layout

- `src/` — the library, verified with Verus:
  - `state/keyboard_state.rs`, `keyboard_hook.rs`: key state, the decoding
    of low-level keyboard messages (repeated transitions are dropped), key
    names and the held modifier keys.
  - `mouse_hook.rs`: exact eight-way direction judgement with hysteresis,
    the motion-sampling state machine, button state, low-level mouse message
    decoding and the dispatcher of captured events.
  - `websocket_server.rs`: broadcast events, message payloads, the id
    counters and their message ids, WebSocket/HTTP split, heartbeat
    recognition, connection decisions and the static page of the stream port
    (paths never leave the page directory: `/` and `\` both separate
    components, and `..`, roots and drive designators are refused).
  - `preset/`: the internal preset model, Input Overlay conversion (strict
    and lenient), preset storage rules.
  - `config/`: configuration model and defaults.
  - `ui/`: management request parsing and routing, response framing, JSON
    configuration patches, tray menu decisions and the read-back laws between
    tray and management service.
  - `text.rs`: text helpers with exact specifications.
- `tests/` — tests run against the compiled library.
- `app/` — the program around the library: `main`, sockets, files, TOML and
  JSON encoding, the Windows hooks and the tray icon.
