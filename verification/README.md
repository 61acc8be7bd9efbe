# server_framework

A small request/response application-server framework over TCP. A user
supplies a `RequestProcessor`; the framework accepts connections, reads
length-prefixed messages, runs the processor on a thread pool and writes the
answers back.

- `src/` is the verified library (Verus): the wire format of messages
  (`byte_order`, `stream_serialization`, `stream_handling`), the incremental
  reader that assembles a message from pieces (`incremental_read`), and the
  decisions of the connection, server and client loops (`connection_task`,
  `manage_connection`, `server_runner`, `shutdown`, `client_session`,
  `client_tasks`), with
  the example processor (`request_processing`). Calls into `bytes` and
  `bincode` go through small trusted wrappers (`bytes_buffer`,
  `bincode_codec`).
- `app/` is the asynchronous plumbing (tokio tasks, sockets, channels,
  thread pool) and the example server and client; run it with `client` as
  its argument for the client, anything else for the server.
- `tests/` exercises the library on concrete values.
