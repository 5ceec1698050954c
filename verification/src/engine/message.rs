//! Control messages exchanged between a player and whoever drives it.

use vstd::prelude::*;

verus! {

/// A request sent to a running player.
#[derive(PartialEq, Eq, Debug, Clone, Copy, Structural)]
pub enum Message {
    Stop,
    Pause,
    Resume,
}

} // verus!
