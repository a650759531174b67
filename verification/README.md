# telegram

The logic of a Telegram client for a 320x240 handset, written in Verus: every function of the library
carries a contract, and the contracts are proved, but for what is said of three functions of `std`,
which is believed:

- `String::push` appends the one character (`src/text.rs`);
- `String::from_utf8` gives the text where the bytes are UTF-8, and fails where they are not
  (`utf8_text`, `src/text.rs`);
- `char::to_uppercase` depends on the character alone; its result is named (`to_upper` and
  `upper_case`, `src/model.rs`).

The library decides and never acts. It takes what happened (a key, a reply, a timer, what the toolkit
measured) as plain values, and returns what is to be shown and done. Sockets, files, the image codec,
the toolkit and the protocol's own machines belong to whoever runs it; `app/` is such a host, over
traits a platform implements.

## Layout

- `src/text.rs`, `src/bytes.rs`: text and big-endian integers.
- `src/proto.rs`, `src/model.rs`, `src/pages.rs`, `src/previews.rs`, `src/samples.rs`: chats and
  messages, and how pages of them are folded in.
- `src/store_cache.rs`, `src/cache_files.rs`, `src/session_store.rs`: what is kept on disk.
- `src/link.rs`, `src/driver.rs`: a connection, and the machine above it.
- `src/login.rs`, `src/chats.rs`, `src/conv.rs`, `src/transcript.rs`, `src/labels.rs`: the screens,
  with `*_draw.rs` for what they paint and `*_decl.rs` for how they are described.
- `src/app.rs`, `src/app_run.rs`, `src/mvu.rs`: the application, and its model, update and view.
- `src/selfcheck.rs`: a recorded handshake, replayed.
- `src/*_laws.rs`, and the proof functions at the end of the other modules: what holds of the whole.
- `tests/`: the same on concrete values. `app/`: a host.
