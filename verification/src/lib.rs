//! Core logic of a small music streaming system, verified with Verus.
//!
//! A client asks a server for tracks over one connection; the server
//! streams the audio as framed chunks, and the client plays them while the
//! user works a queue from a command line.
//!
//! The crate holds the decisions and leaves the doing to its caller: sockets,
//! the audio device, the decoder and the terminal are not touched here.
//! Functions take what was received or typed and say what to send, play or
//! show.
//!
//! - [`track`], [`index`], [`search`]: track identity and metadata, building
//!   the index, searching it.
//! - [`protocol`], [`bytes`], [`wire`], [`codec`], [`framing`],
//!   [`transport`]: the messages and how they travel.
//! - [`session`]: the server's side of a connection and of one stream.
//! - [`queue`], [`playback`], [`command`], [`interact`], [`client`]: the
//!   client's queue, playback engine, command language and dialogues.
//! - [`display`], [`highlight`], [`text`]: what the user sees, and the
//!   character-level helpers behind it.
//!
//! Contracts are stated over the views of the data types. Where a result
//! comes from another crate or from `std` and is no simple function of the
//! arguments, the contract gives it a name and says no more of it.

pub mod text;
pub mod track;
pub mod index;
pub mod queue;
pub mod protocol;
pub mod playback;
pub mod framing;
pub mod bytes;
pub mod wire;
pub mod codec;
pub mod transport;
pub mod display;
pub mod interact;
pub mod highlight;
pub mod search;
pub mod session;
pub mod command;
pub mod client;
