# bevy_slinet

A networking plugin for bevy: clients and servers exchange packets over TCP, UDP or a
protocol of your own. The decisions are a library that is verified with Verus; the
sockets, tasks and systems around it are ordinary Rust.

- `src/` is the library.
  - `packet_length_serializer`, `endian`: the length in front of every packet.
  - `protocol`: packets as frames in a stream of bytes, and how they are read back.
  - `serializer`, `serializers`: packets as bytes, and an example with a cipher.
  - `protocols`: which datagram belongs to which UDP connection, and how datagrams make
    a stream; what little TCP decides.
  - `connection`, `connections`, `tasks`: ids, the limit on the size of packets, closing
    a connection, lists of connections, and the tasks that serve one.
  - `client`, `server`: the lists of connections and the events that programs see.
- `app/` holds the bevy plugins, the async traits and the two protocols' sockets.
- `tests/` runs the library.

Proof functions whose names start with `law_` state what holds of the library as a
whole. What is trusted instead of proved is marked `external_body` and says so: calls
into `bincode`, `dashmap` and tokio's channels.
