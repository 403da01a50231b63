//! What a session receives on joining a room.

use vstd::prelude::*;
use crate::game_events::GameEvent;

verus! {

/// The sending end of a match's command queue, carried opaquely.
#[verifier::external_type_specification]
#[verifier::external_body]
#[verifier::reject_recursive_types(T)]
pub struct ExSender<T>(std::sync::mpsc::Sender<T>);

/// A session's seat in a room, and the queue its commands go to.
pub struct EnterRoomResult {
    pub player_index: usize,
    pub sender: std::sync::mpsc::Sender<GameEvent>,
}

} // verus!
