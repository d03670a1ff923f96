//! A lazy-start reverse proxy core for the Minecraft Java Edition wire
//! protocol (protocol 772): the VarInt/string codec, the length-prefixed
//! packet framer, the typed handshake/status/login packets, and the
//! decision logic of the connection handler and the single-flight process
//! supervisor. Every function here carries a contract checked by Verus;
//! the sockets, timeouts and the start command live with the embedding
//! runtime.
pub mod codec;
pub mod connection;
pub mod error;
pub mod framer;
pub mod handshake;
pub mod login;
pub mod protocol;
pub mod status;
pub mod supervisor;
