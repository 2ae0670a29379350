# Vellum

The wire protocol, engine and client of a small order-matching service, written in Verus.

- `src/` is the library. Verus proves its contracts, relying on what a few marked items say of
  crossbeam-queue and std.
  - `message` encodes and decodes the fixed-width, little-endian messages; `le` is the byte
    order, and `wire_laws` states what holds of the protocol as a whole: decoding undoes
    encoding, a cut message is refused, a stream is read back in order.
  - `engine` numbers orders and answers requests, `submit` gets a request to the engine thread
    and the answer back, and `session` decides what a client is told and when its connection is
    closed. `queue` is the port to crossbeam's `ArrayQueue` through which they use it; its log,
    kept for contracts only, fixes how often each function calls the queue.
  - `client` and `text` turn a typed line into a message, and `client_laws` states what typed
    lines mean.
  - `server_laws` states what holds of server and client together: server order ids are unique,
    and the id in an acknowledgement is the one to cancel by.
- `app/` holds the two programs around it: sockets, threads, the terminal, and the calls into
  the order book of the `orderbook` crate.
- `tests/` runs the library on concrete values.
