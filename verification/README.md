# connection_test

A small program that shares mouse cursors between the participants of a UDP
session, split into a verified library and a thin program around it.

- `src/` is the library, verified with Verus:
  - `bytes`: big-endian layouts of `u16`, `u32` and `usize`, with round-trip lemmas;
  - `packet`: the packet frame (kind byte, big-endian length, payload), the
    packet kinds, payload errors, the `PacketLoad` trait and `PacketReader`;
  - `cursor`: points, colours, mouse cursors, their 13-byte payload and the
    cursor update datagram;
  - `config`: the program mode and configuration, with the mode and port parsers;
  - `table`: walking an id-keyed table and merging cursor reports;
  - `client` and `server`: the two state machines. They take datagrams and
    input events and answer with state changes and actions;
  - `text`: decimal text of numbers.
- `app/` holds `main`, the sockets, the listener thread, the SDL window and
  drawing.
- `tests/` runs the library on concrete values.
