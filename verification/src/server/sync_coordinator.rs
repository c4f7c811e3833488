//! The commands the periodic sync check sends: a player ahead of its group
//! is told to skip ahead, one behind to pause, for the whole milliseconds
//! of the deviation.
use vstd::prelude::*;
use crate::ids::{uuid_string, uuid_text};
use crate::playback::sync::SyncAdjustment;
use crate::plugins::push_str_chars;
use crate::protocol::messages::StreamCommand;
use crate::text::string_from_chars;

verus! {

/// The whole milliseconds of a deviation given in microseconds, as the
/// 32-bit interval of a stream command (wrapping past `u32::MAX`).
pub open spec fn interval_of(delta_us: u64) -> u32 {
    (delta_us / 1000) as u32
}

/// The player an adjustment is for and the stream command that makes it:
/// `SkipAhead` to skip ahead, `PauseFor` to pause, each for the whole
/// milliseconds of the deviation.
pub fn adjustment_command(adjustment: &SyncAdjustment) -> (r: (u128, StreamCommand))
    ensures
        match *adjustment {
            SyncAdjustment::SkipAhead { player, delta } => r.0 == player && r.1 == (StreamCommand::SkipAhead {
                interval_ms: interval_of(delta),
            }),
            SyncAdjustment::PauseFor { player, delta } => r.0 == player && r.1 == (StreamCommand::PauseFor {
                interval_ms: interval_of(delta),
            }),
        },
{
    match adjustment {
        SyncAdjustment::SkipAhead { player, delta } => {
            let interval_ms = #[verifier::truncate] ((*delta / 1000) as u32);
            (*player, StreamCommand::SkipAhead { interval_ms })
        },
        SyncAdjustment::PauseFor { player, delta } => {
            let interval_ms = #[verifier::truncate] ((*delta / 1000) as u32);
            (*player, StreamCommand::PauseFor { interval_ms })
        },
    }
}

/// The error when no connection of the player is known:
/// "Player {id} not connected".
pub fn not_connected_message(player: u128) -> (r: String)
    ensures
        r@ == "Player "@ + uuid_text(player) + " not connected"@,
{
    let id = uuid_string(player);
    let mut v: Vec<char> = Vec::new();
    push_str_chars(&mut v, "Player ");
    push_str_chars(&mut v, id.as_str());
    push_str_chars(&mut v, " not connected");
    string_from_chars(v.as_slice())
}

} // verus!
