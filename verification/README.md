# pq_chat

The client core of a post-quantum encrypted group chat, verified with Verus.

The relay between the clients only fans frames out. It never sees a plaintext, a
group key or a secret key. Everything a client decides, computes and remembers is
in `src/`, in terms of plain values, with contracts that Verus proves:

- `crypto` wraps group keys with Kyber768, signs with Dilithium3 and seals with
  AES-256-GCM;
- `identity`, `ids`, `encoding`, `text` and `error` hold the basic types;
- `protocol` holds the frames, `state` what a client remembers;
- `client::session` opens and closes sessions, sorts incoming frames and starts
  requests;
- `client::events` reacts to the frames that the relay pushes;
- `client::rekey` elects the member that makes the next group key and distributes
  the key;
- `client::flows` and `client::login` are the two halves of each request behind a
  user's command;
- `commands` is what the user interface asks for and is told.

The contracts speak of models (`Client`, `Channel`, `Member`, `Request`, ...) that
the types have as their views. Functions named `law_...` state what holds of
several functions together, for example that a text that was sent is read, that
no two members make competing keys, and that group keys do not outlive a session.

What other crates compute is believed, not proved: each such call stands in a
small function whose doc comment says what is claimed of it.

`app/` is the desktop application around the library: sockets, the identity file,
JSON and the Tauri window. Set `PQ_CHAT_DATA_DIR` to keep the identity somewhere
else than in the application-data directory.
