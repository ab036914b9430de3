# pgwire

Verified pieces of the PostgreSQL wire protocol, written in Rust and proved with Verus.

- `src/messages/extendedquery.rs`: the messages of the extended query protocol. Reading gives back
  what was written, and writing gives back what was read.
- `src/api/auth/`: authentication. `scram.rs` is the server side of
  SCRAM-SHA-256 as a state machine: it is told what happened on a connection and says what is to be
  done. `scram/message.rs` reads and writes the messages of an exchange. `crypto.rs` holds the
  calls into the crates that hash, encode and draw random numbers.
- `src/codec.rs`: how numbers, strings and lists are laid out in bytes, over `bytes::BytesMut`.
- `src/text.rs`: splitting, prefixes and numbers in text.
- `app/`: ordinary asynchronous Rust around the library. It reads and sends messages, looks up
  passwords, and hands every decision to the state machine.

Each public function has a contract that says what it returns for every input, with three
exceptions. `random_byte` and `random_number` promise nothing of what they draw; the functions that
call them say what becomes of it. A `ServerParameterProvider` promises only that it reports no name
twice. Facts that concern several functions are proof functions whose names begin with `law_`. The functions that call other
crates are marked `external_body`; their comments say what is relied on.
