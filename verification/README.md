# transport_nats

Core NATS as a transport: one PUB is one Stream, the subject beside it. A
Location subscribes or publishes through a server, or accepts clients directly.
At-most-once.

The library under `src/` decides what bytes mean and what is written next, and
is verified with Verus. It does no I/O: `app/` moves the bytes over TCP and
plugs the whole into the transport capability.

* `wire`: protocol lines, `encode` and `read`.
* `client`, `session`: the two ends of a connection, one line at a time.
* `location`: where a Location speaks, and what it hands up.
* `error`, `step`, `text`: what the others are written in.
* `framing`, `laws`: what is proved of them together, first of all that what is
  encoded is read back.
