# file_async_rpc

A small RPC protocol for transferring file blocks over TCP, with its wire
formats and client logic verified by Verus.

Every frame starts with a 17-byte header: an 8-byte sequence number, a
1-byte operation code and an 8-byte body length, integers in big-endian
order. Requests and responses are matched by sequence number; operation 0 of
a request is a keep-alive.

## Layout

- `src/codec.rs`: big-endian 64-bit integers, with both round-trip lemmas.
- `src/packet.rs`: the `Encode`/`Decode` traits, request and response
  headers, the user-implemented `Packet` trait, packet statuses, and
  `PacketsKeeper`, the table of requests in flight with its timeout rule.
- `src/message.rs`: request and response types, and the file block request
  and response messages.
- `src/client.rs`: the state of a client connection and the decision taken
  for each event (tick, request, response header, response body).
- `src/server.rs`: the reply a file block handler sends.
- `app/lib.rs`: the asynchronous client on tokio that performs the I/O and
  runs the send and receive loops around `src/client.rs`.
