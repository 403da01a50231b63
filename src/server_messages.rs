//! Messages the engine sends to a player's client.

use vstd::prelude::*;

verus! {

/// A player's public state as a client shows it.
pub struct PlayerState {
    pub hp: usize,
    pub support_area: Vec<(String, usize)>,
    pub summoned_area: Vec<(String, usize)>,
    pub active_character: usize,
    pub dice_set: Vec<usize>,
}

/// Both sides' state, and whether it is the receiving player's turn.
pub struct UpdateStateMessage {
    pub player_state: PlayerState,
    pub opponent_state: PlayerState,
    pub players_turn: bool,
}

/// The roster snapshot a player receives on joining: its seat and the
/// character names of both sides.
pub struct SetupClientMessage {
    pub player_index: usize,
    pub player_characters: Vec<String>,
    pub opponent_characters: Vec<String>,
}

/// A player's dice as rank codes, one per slot; empty slots read 8.
pub struct UpdateDicesMessage {
    pub dice_set: Vec<i8>,
}

/// Whose turn it is.
pub struct TurnOfMessage {
    pub turn_of: usize,
}

} // verus!
