//! Verified core of a music server for Squeezebox players: the Slimproto
//! wire format and discovery protocol, playback state machines, playlists,
//! multi-room synchronisation decisions, plugin routing, transcoding rules,
//! audio container parsing and the command logic of the JSON-RPC interface.
use vstd::prelude::*;

pub mod assoc;
pub mod db;
pub mod formats;
pub mod ids;
pub mod playback;
pub mod plugins;
pub mod protocol;
pub mod randomplay;
pub mod scanner;
pub mod server;
pub mod text;
pub mod transcode;

verus! {

} // verus!
