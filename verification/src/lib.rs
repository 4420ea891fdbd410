//! Wire formats and session logic of a small UDP cursor-sharing program.
//!
//! The library holds the parts that decide and compute: the big-endian
//! byte layouts, the packet frame, the cursor payload, the program
//! configuration parsing and the client and server state machines. Sockets,
//! windows and threads live with the caller, who feeds datagrams and input
//! events in and carries out the actions that come back.

pub mod bytes;
pub mod client;
pub mod config;
pub mod cursor;
pub mod packet;
pub mod server;
pub mod table;
pub mod text;
