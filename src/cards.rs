//! Card effects: the inert placeholder, summoned effects, supports and
//! action cards, with the lifecycle hooks the engine fires on them.

use vstd::prelude::*;
use crate::game_environment::{GameEnvironment, GameView};
use crate::operation_context::OperationContext;

verus! {

/// How many turn ends a freshly summoned Oz lasts.
pub const OZ_USES: usize = 2;

/// The damage Oz deals at each turn end.
pub const OZ_DAMAGE: usize = 1;

/// The inert placeholder: every hook does nothing, and as a summon it
/// always has one use left, so it is never evicted.
#[derive(Clone, Copy, PartialEq, Eq, Structural, Debug)]
pub struct EmptyCard {}

/// A summoned raven that hits the opposing active character at each turn
/// end, for `lifetime` more turn ends.
#[derive(Clone, Copy, PartialEq, Eq, Structural, Debug)]
pub struct Oz {
    pub lifetime: usize,
}

/// An entry of a summoned-effect slot area.
#[derive(Clone, Copy, PartialEq, Eq, Structural, Debug)]
pub enum Summon {
    Empty(EmptyCard),
    Oz(Oz),
}

/// An entry of a support slot area.
#[derive(Clone, Copy, PartialEq, Eq, Structural, Debug)]
pub enum Support {
    Empty(EmptyCard),
}

/// A one-shot card held in a player's hand.
#[derive(Clone, Copy, PartialEq, Eq, Structural, Debug)]
pub enum Card {
    Empty(EmptyCard),
}

/// A player's hand of action cards.
pub struct CardSet {
    pub cards: Vec<Card>,
}

/// Whether a context addresses existing players and characters.
pub open spec fn context_in_range(info: OperationContext) -> bool {
    &&& info.subject_player < 2
    &&& info.target_player < 2
    &&& info.subject_character < 3
    &&& info.target_character < 3
}

/// A one-shot effect, used once and discarded.
pub trait ActionCard {
    /// Plays the card in context `info`.
    fn use_card(&self, info: OperationContext, env: &mut GameEnvironment)
        requires
            old(env).wf(),
            context_in_range(info),
        ensures
            final(env).wf(),
    ;
}

/// A persistent effect of the support area, hooked at turn boundaries.
pub trait SupportCard {
    /// Fires when the support enters player `subject_player`'s area.
    fn on_created(&self, subject_player: usize, env: &mut GameEnvironment)
        requires
            old(env).wf(),
            subject_player < 2,
        ensures
            final(env).wf(),
    ;

    /// Fires at each turn start for the support's owner `subject_player`.
    fn on_turn_start(&self, subject_player: usize, env: &mut GameEnvironment)
        requires
            old(env).wf(),
            subject_player < 2,
        ensures
            final(env).wf(),
    ;

    /// Fires at each turn end for the support's owner `subject_player`.
    fn on_turn_end(&self, subject_player: usize, env: &mut GameEnvironment)
        requires
            old(env).wf(),
            subject_player < 2,
        ensures
            final(env).wf(),
    ;
}

/// A persistent effect of the summoned area with a number of uses left; it
/// is evicted once that number is zero after its turn-end hook.
pub trait SummonedCard {
    /// Fires when the effect of player `subject_player` is attacked.
    fn on_attacked(&mut self, subject_player: usize, env: &mut GameEnvironment)
        requires
            old(env).wf(),
            subject_player < 2,
        ensures
            final(env).wf(),
    ;

    /// Fires at each turn end for the effect's owner `subject_player`; it
    /// uses up one of the effect's uses.
    fn on_turn_end(&mut self, subject_player: usize, env: &mut GameEnvironment)
        requires
            old(env).wf(),
            subject_player < 2,
        ensures
            final(env).wf(),
    ;

    /// The uses left; zero after a turn-end hook evicts the effect.
    fn remaining_uses(&self) -> usize;
}

impl ActionCard for EmptyCard {
    fn use_card(&self, info: OperationContext, env: &mut GameEnvironment)
        ensures
            final(env)@ == old(env)@,
    {
    }
}

impl SupportCard for EmptyCard {
    fn on_created(&self, subject_player: usize, env: &mut GameEnvironment)
        ensures
            final(env)@ == old(env)@,
    {
    }

    fn on_turn_start(&self, subject_player: usize, env: &mut GameEnvironment)
        ensures
            final(env)@ == old(env)@,
    {
    }

    fn on_turn_end(&self, subject_player: usize, env: &mut GameEnvironment)
        ensures
            final(env)@ == old(env)@,
    {
    }
}

impl SummonedCard for EmptyCard {
    fn on_attacked(&mut self, subject_player: usize, env: &mut GameEnvironment)
        ensures
            final(env)@ == old(env)@,
            *final(self) == *old(self),
    {
    }

    fn on_turn_end(&mut self, subject_player: usize, env: &mut GameEnvironment)
        ensures
            final(env)@ == old(env)@,
            *final(self) == *old(self),
    {
    }

    fn remaining_uses(&self) -> (r: usize)
        ensures
            r == 1,
    {
        1
    }
}

impl SummonedCard for Oz {
    fn on_attacked(&mut self, subject_player: usize, env: &mut GameEnvironment)
        ensures
            final(env)@ == old(env)@,
            *final(self) == *old(self),
    {
    }

    /// Hits the opposing active character and uses up one turn end.
    fn on_turn_end(&mut self, subject_player: usize, env: &mut GameEnvironment)
        ensures
            final(env)@ == summon_hook(old(env)@, subject_player as int, Summon::Oz(*old(self))),
            Summon::Oz(*final(self)) == Summon::Oz(*old(self)).after_turn_end(),
    {
        let opponent = 1 - subject_player;
        let target = env.players[opponent].active_character;
        env.damage(opponent, target, OZ_DAMAGE);
        if self.lifetime > 0 {
            self.lifetime = self.lifetime - 1;
        }
    }

    fn remaining_uses(&self) -> (r: usize)
        ensures
            r == self.lifetime,
    {
        self.lifetime
    }
}

impl Summon {
    /// The uses left: the placeholder always has one.
    pub open spec fn uses(self) -> int {
        match self {
            Summon::Empty(_) => 1,
            Summon::Oz(o) => o.lifetime as int,
        }
    }

    /// The entry after its turn-end hook: a turn end is used up.
    pub open spec fn after_turn_end(self) -> Summon {
        match self {
            Summon::Empty(e) => Summon::Empty(e),
            Summon::Oz(o) => Summon::Oz(
                Oz {
                    lifetime: if o.lifetime > 0 {
                        (o.lifetime - 1) as usize
                    } else {
                        0
                    },
                },
            ),
        }
    }

    /// Whether this entry is an Oz.
    pub open spec fn is_oz(self) -> bool {
        self is Oz
    }

    /// The uses left.
    pub fn remaining_uses(&self) -> (r: usize)
        ensures
            r == self.uses(),
    {
        match self {
            Summon::Empty(e) => e.remaining_uses(),
            Summon::Oz(o) => o.remaining_uses(),
        }
    }

    /// Fires this entry's turn-end hook for its owner `subject_player`.
    pub fn on_turn_end(&mut self, subject_player: usize, env: &mut GameEnvironment)
        requires
            old(env).wf(),
            subject_player < 2,
        ensures
            final(env).wf(),
            final(env)@ == summon_hook(old(env)@, subject_player as int, *old(self)),
            *final(self) == old(self).after_turn_end(),
    {
        match self {
            Summon::Empty(e) => SummonedCard::on_turn_end(e, subject_player, env),
            Summon::Oz(o) => o.on_turn_end(subject_player, env),
        }
    }
}

/// What a summoned entry's turn-end hook does to the match, for its owner `p`.
pub open spec fn summon_hook(g: GameView, p: int, s: Summon) -> GameView {
    match s {
        Summon::Empty(_) => g,
        Summon::Oz(_) => g.damage(1 - p, g.players[1 - p].active_character as int, OZ_DAMAGE as int),
    }
}

impl Support {
    /// Fires this entry's turn-start hook; no support has an effect there.
    pub fn on_turn_start(&self, subject_player: usize, env: &mut GameEnvironment)
        requires
            old(env).wf(),
            subject_player < 2,
        ensures
            final(env)@ == old(env)@,
    {
        match self {
            Support::Empty(e) => e.on_turn_start(subject_player, env),
        }
    }

    /// Fires this entry's turn-end hook; no support has an effect there.
    pub fn on_turn_end(&self, subject_player: usize, env: &mut GameEnvironment)
        requires
            old(env).wf(),
            subject_player < 2,
        ensures
            final(env)@ == old(env)@,
    {
        match self {
            Support::Empty(e) => SupportCard::on_turn_end(e, subject_player, env),
        }
    }
}

impl Card {
    /// Plays this card in `info`; no card has an effect yet.
    pub fn use_card(&self, info: OperationContext, env: &mut GameEnvironment)
        requires
            old(env).wf(),
            context_in_range(info),
        ensures
            final(env)@ == old(env)@,
    {
        match self {
            Card::Empty(e) => e.use_card(info, env),
        }
    }
}

} // verus!
