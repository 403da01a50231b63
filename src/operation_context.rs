//! The addressing of one ability or card use: who acts and whom it targets.

use vstd::prelude::*;

verus! {

/// The acting player and character, and the targeted player and character,
/// of one ability or card use.
#[derive(Clone, Copy, PartialEq, Eq, Structural, Debug)]
pub struct OperationContext {
    pub subject_player: usize,
    pub subject_character: usize,
    pub target_player: usize,
    pub target_character: usize,
}

impl OperationContext {
    /// The context of player `subject_player`'s character `subject_character`
    /// acting on the other player's character `target_character`.
    pub fn new(subject_player: usize, subject_character: usize, target_character: usize) -> (r:
        OperationContext)
        requires
            subject_player < 2,
        ensures
            r.subject_player == subject_player,
            r.subject_character == subject_character,
            r.target_player == 1 - subject_player,
            r.target_character == target_character,
    {
        OperationContext {
            subject_player,
            subject_character,
            target_player: 1 - subject_player,
            target_character,
        }
    }
}

} // verus!
