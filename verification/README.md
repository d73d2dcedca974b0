# swarm-p2p-core

The core of a peer-to-peer node on libp2p: data channels with quotas,
request-response bookkeeping, relay reservations and the decisions of the
network event loop, verified with Verus.

## Layout

- `src/data_channel.rs`: data channels, their ids, and the registry that
  enforces the limits per peer and per protocol.
- `src/pending_map.rs`: values that wait to be picked up once and expire.
- `src/client/`: opening data channels, the futures of commands, requests and
  responses.
- `src/command/`: commands that the event loop carries out.
- `src/runtime/`: the event loop's decisions, the walk of an event along the
  commands in progress, relay addresses, and the laws of the event loop.
- `src/event.rs`: what the network reports, what the user is told, and what is
  asked of the network.
- `src/foreign.rs`: what is taken from libp2p, libp2p-stream and std on trust.
- `app/`: the tokio and libp2p plumbing. It owns the swarm, the shared handles
  and the clocks, asks the library what to do, and does it.

The library holds plain state behind `&mut`. Sharing it between tasks and
giving quota back on drop is `app/`'s part.
