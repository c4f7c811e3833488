//! What the web interface is told about players over its live channel.
use vstd::prelude::*;

verus! {

/// A player as the web interface lists it.
#[derive(Debug, Clone)]
pub struct PlayerInfo {
    pub id: String,
    pub name: String,
    pub model: String,
    pub connected: bool,
}

} // verus!
