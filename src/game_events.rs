//! The commands a match consumes, from players and from the engine itself.

use vstd::prelude::*;

verus! {

/// One of a character's three abilities.
#[derive(Clone, Copy, PartialEq, Eq, Structural, Debug)]
pub enum SkillType {
    NormalAttack,
    ESkill,
    QSkill,
}

/// A command for a match. Player commands carry the issuing player's index.
#[derive(Debug)]
pub enum GameEvent {
    /// A player asks for the roster snapshot.
    SetupClient(usize),
    /// Player, character to make active.
    ChangeActive(usize, usize),
    /// Player, ability, slots of the dice that pay for it.
    UseSkill(usize, SkillType, Vec<usize>),
    /// Player, card in hand, targeted character.
    UseActionCard(usize, usize, usize),
    /// Player, slots of the dice to redraw; none gives up the reroll.
    RerollDice(usize, Vec<usize>),
    /// A player ends the current turn.
    DeclareEndOfTurn(usize),
    /// The turn-start phase, queued by the engine after a turn ends.
    TurnStart,
    /// The turn-end phase, queued by the engine when a turn is declared over.
    TurnEnd,
    /// Ends the match.
    Terminate,
}

} // verus!
