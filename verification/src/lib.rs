//! The rules of a clipboard daemon that keeps a history of what was copied and
//! shares it with the other devices of a local network.

pub mod clips;
pub mod command;
pub mod digest;
pub mod discovery;
pub mod hash;
pub mod hotkey;
pub mod http;
pub mod identity;
pub mod import;
pub mod json;
pub mod language;
pub mod number;
pub mod pairing;
pub mod peers;
pub mod registry;
pub mod remote;
pub mod sensitive;
pub mod server;
pub mod sync;
pub mod text;
pub mod unicode;
pub mod watcher;
