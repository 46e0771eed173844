# twirchat

The verified core of a desktop chat client that follows Twitch, Kick and YouTube chats at
once. The functions under `src/` carry Verus contracts and are proved against them, with one
exception: the few `#[verifier::external_body]` wrappers around outside crates and std (SHA-1,
base64, URL query parsing, JSON parsing, JSON object writes and cloning, string pushes,
lowercasing, the clock, random UUIDs), whose contracts are assumed and stated in their doc comments.

- `src/chat/`: message order and history, aliases, mention completion, the 7TV emote catalog
  and the chat aggregator.
- `src/watched_chat.rs`: the chat state of the watched channels: buffers, the home feed,
  messages sent from the app and their echoes, the composer, backend messages, the storage
  snapshot.
- `src/layout.rs`: the tree of panes of a watched-channels tab: finding, taking out, removing,
  dropping, moving and appending panes, and collapsing single-child splits. A pane's share of room
  is an `f64`, kept here as its bits; an even share (`100 / n`) is computed by a function the
  caller passes in, and new node ids are random UUIDs.
- `src/auth/`: the OAuth sign-in flow and its callback.
- `src/platforms/`: the Twitch, Kick and YouTube adapters, their chat parsing, and mock clients;
  the events adapters hand on (`PlatformEvent`, `PlatformEventSink`), each adapter's poll or
  stream handling (`kick/poll.rs`, `twitch/poll.rs`, `youtube/stream.rs`) and the JSON data of
  channel events.
- `src/user_card.rs`: the user card and the background loads of its history and metadata.
- `src/overlay/`: the OBS overlay's message format and its HTTP/WebSocket framing.
- `src/protocol/`: the messages exchanged with the backend, and the check of a message's
  `type` before its payload is decoded.
- `app/`: the command-line program around the library (files, sockets, JSON).

The tests under `tests/` exercise the same functions on concrete values.
