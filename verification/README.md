# mrpc

MessagePack-RPC: requests, responses and notifications exchanged as
MessagePack values over TCP, Unix domain sockets or in-memory streams.

- `src/` is the verified protocol core: the value model (`value`), the framing
  of messages as values (`message`), the reading and writing of values as
  MessagePack bytes through `rmpv` (`codec`), errors and the encoding of
  service errors (`error`), the request/response bookkeeping of a connection,
  its read buffer and the decisions of its reader and handler (`connection`),
  and the decisions of servers (`transport`). Laws such as the message round
  trip, the service-error round trip and the in-order reading of buffered
  messages are public proof functions there.
- `app/` runs connections with tokio: sockets, tasks and channels, and typed
  values through `rmp_serde`.
