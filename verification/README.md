# inkbox_channel

The logic of an Inkbox channel, written and verified in Verus: replies to A2A tasks, and the
bridge between a phone call and a realtime voice model.

- `src/a2a.rs` sets up delivery: URLs, headers, the words of an acknowledgement.
- `src/reply.rs` takes a reply from the first look at its task to its delivery, as a state machine.
- `src/task.rs` reads a task's state and history; `src/clock.rs` keeps when tasks started.
- `src/realtime.rs` holds the prompts, the session configuration and the handshake request.
- `src/bridge.rs` turns frames and events into messages; `src/call.rs` takes a call from its
  opening to its end.
- `src/json.rs`, `src/headers.rs`, `src/url.rs` and `src/text.rs` are what these stand on.

Functions marked `#[verifier::external_body]` call into other crates; their contracts are taken on
trust, and their comments say what is taken. Functions named `law_...` state what holds of the
library as a whole.

`app/` performs the requests and moves the messages that the library asks for.
