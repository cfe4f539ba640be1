//! LAN peer discovery: the wire encodings of addresses and ports, the session
//! identifiers, and the decisions of the beacon protocol.
pub mod codec;
pub mod guid;
pub mod protocol;
