# kameo

Messages to actors of other peers, and links that tell a local actor when such a peer is gone.

- `src/` decides what happens: how a message is framed, when it is sent again over a new
  connection, which actors are linked and who is told when a peer disconnects. Each function states
  what it does, and Verus checks it, save for what is believed of code outside: the bodies of
  `ConnectionSlot::new`, `load` and `store`, which call `arc_swap`, and the contracts on
  `Bytes::copy_from_slice` and `Duration::from_secs`. `link_laws.rs` and `delivery_laws.rs` state
  what holds across several calls.
- `app/` waits, locks, logs and talks to the transport. It runs the steps that the library asks for
  and reports how they went.
- `tests/` runs the library on given values.
