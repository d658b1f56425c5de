# lxmf-propagation

Store-and-forward propagation for LXMF, the message format that runs over
Reticulum: the message store of a propagation node, the task that syncs it with
another node, and the decisions of the daemon around both. The library is
written in Verus. What each function returns or changes is stated in its
contract and proved.

## Layout

- `src/store.rs`, `src/node.rs`, `src/node/`: the store and the node: admission,
  download, offers, upkeep, and what is kept of peers.
- `src/sync.rs`, `src/offer.rs`: choosing what to offer a peer, and judging what
  a peer offers.
- `src/sync_task.rs`, `src/sync_task/`: the task that syncs with one peer at a
  time.
- `src/daemon/`: registrations, announces, intake, peers and their turns, control
  requests, deliveries, queues and schedules.
- `src/msgpack.rs`, `src/stamper.rs`, `src/text.rs`: the calls into outside
  crates, each behind a small function whose contract is trusted.
- `tests/`: tests of the compiled library.
- `app/`: the daemon itself: arguments, files, threads, and the calls into the
  Reticulum stack.

## How it is cut

Nothing in `src/` reads a clock, a file or a network. Times, file contents and
the reports of the link layer are arguments; files to be written or removed,
packets to be sent and work for other threads are results. `Mailbox` stands for
the bounded channel to the transport as one step sees it.

Floating-point figures stay outside: limits are in bytes, rates are kept as bits
or as bytes and milliseconds, and `app/numbers.rs` converts.

Facts that relate several functions are proof functions whose names begin with
`law_`.
