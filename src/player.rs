//! A player's state: dice pool, characters, hand and slot areas.

use vstd::prelude::*;
use crate::cards::{CardSet, Card, EmptyCard, Summon, Support};
use crate::characters::{fischl, fischl_spec, ganyu, ganyu_spec, yoimiya, yoimiya_spec, Character};
use crate::dice_set::{pool_layout, rank, DiceSet, ElementType, DICE_CAPACITY};
use crate::game_environment::GameError;

verus! {

/// Slots of a support or summoned area.
pub const AREA_CAPACITY: usize = 4;

/// Characters each player fields.
pub const ROSTER_SIZE: usize = 3;

/// One player's side of a match.
pub struct Player {
    pub dice_set: DiceSet,
    pub support_area: Vec<Support>,
    pub summoned_area: Vec<Summon>,
    pub characters: Vec<Character>,
    pub hand: CardSet,
    pub active_character: usize,
    pub reroll_chances: usize,
}

/// The mathematical value of a `Player`.
pub struct PlayerView {
    pub dice: Seq<ElementType>,
    pub dice_count: usize,
    pub support_area: Seq<Support>,
    pub summoned_area: Seq<Summon>,
    pub characters: Seq<Character>,
    pub hand: Seq<Card>,
    pub active_character: usize,
    pub reroll_chances: usize,
}

impl View for Player {
    type V = PlayerView;

    open spec fn view(&self) -> PlayerView {
        PlayerView {
            dice: self.dice_set.dices@,
            dice_count: self.dice_set.dice_count,
            support_area: self.support_area@,
            summoned_area: self.summoned_area@,
            characters: self.characters@,
            hand: self.hand.cards@,
            active_character: self.active_character,
            reroll_chances: self.reroll_chances,
        }
    }
}

impl PlayerView {
    /// The pool keeps its slot layout, the areas their capacity, the roster
    /// its size, and the active character is one of the roster.
    pub open spec fn wf(self) -> bool {
        &&& pool_layout(self.dice, self.dice_count as int)
        &&& self.support_area.len() <= AREA_CAPACITY
        &&& self.summoned_area.len() <= AREA_CAPACITY
        &&& self.characters.len() == ROSTER_SIZE
        &&& self.active_character < ROSTER_SIZE
    }

    /// The dice in the pool, in slot order.
    pub open spec fn valid_dice(self) -> Seq<ElementType> {
        self.dice.subrange(0, self.dice_count as int)
    }

    /// The elements of the player's characters, in roster order.
    pub open spec fn elements(self) -> Seq<ElementType> {
        self.characters.map_values(|c: Character| c.element)
    }

    /// This player with support area `area`.
    pub open spec fn with_support(self, area: Seq<Support>) -> PlayerView {
        PlayerView { support_area: area, ..self }
    }

    /// This player with summoned area `area`.
    pub open spec fn with_summoned(self, area: Seq<Summon>) -> PlayerView {
        PlayerView { summoned_area: area, ..self }
    }

    /// This player with character `c` active.
    pub open spec fn with_active(self, c: usize) -> PlayerView {
        PlayerView { active_character: c, ..self }
    }

    /// This player with hand `hand`.
    pub open spec fn with_hand(self, hand: Seq<Card>) -> PlayerView {
        PlayerView { hand, ..self }
    }

    /// This player with `n` rerolls left.
    pub open spec fn with_rerolls(self, n: usize) -> PlayerView {
        PlayerView { reroll_chances: n, ..self }
    }

    /// This player with pool slots `dice` of which the first `count` hold dice.
    pub open spec fn with_pool(self, dice: Seq<ElementType>, count: usize) -> PlayerView {
        PlayerView { dice, dice_count: count, ..self }
    }

    /// This player with character `c` replaced by `ch`.
    pub open spec fn with_character(self, c: int, ch: Character) -> PlayerView {
        PlayerView { characters: self.characters.update(c, ch), ..self }
    }

    /// Character `c` takes `amount` damage; hit points stop at zero.
    pub open spec fn damage(self, c: int, amount: int) -> PlayerView {
        let ch = self.characters[c];
        let hp = if ch.hp >= amount {
            (ch.hp - amount) as usize
        } else {
            0usize
        };
        PlayerView { characters: self.characters.update(c, Character { hp, ..ch }), ..self }
    }
}

/// The summoned-area slot `i` of `area`: its entry, or the inert
/// placeholder past the occupied slots.
pub open spec fn slot_of(area: Seq<Summon>, i: int) -> Summon {
    if 0 <= i < area.len() {
        area[i]
    } else {
        Summon::Empty(EmptyCard {})
    }
}

impl Player {
    /// The value of a player before the first turn.
    pub open spec fn new_spec() -> PlayerView {
        PlayerView {
            dice: Seq::new(DICE_CAPACITY as nat, |i: int| ElementType::Null),
            dice_count: 0,
            support_area: seq![],
            summoned_area: seq![],
            characters: seq![yoimiya_spec(), fischl_spec(), ganyu_spec()],
            hand: seq![],
            active_character: 0,
            reroll_chances: 0,
        }
    }

    /// A player before the first turn: an empty pool, empty areas, an empty
    /// hand, and the roster Yoimiya, Fischl, Ganyu with Yoimiya active.
    pub fn new() -> (r: Player)
        ensures
            r@.wf(),
            r@ == Player::new_spec(),
    {
        let mut characters: Vec<Character> = Vec::new();
        characters.push(yoimiya());
        characters.push(fischl());
        characters.push(ganyu());
        let r = Player {
            dice_set: DiceSet::default(),
            support_area: Vec::new(),
            summoned_area: Vec::new(),
            characters,
            hand: CardSet { cards: Vec::new() },
            active_character: 0,
            reroll_chances: 0,
        };
        assert(r@.characters =~= seq![yoimiya_spec(), fischl_spec(), ganyu_spec()]);
        assert(r@.dice =~= Player::new_spec().dice);
        assert(r@ =~~= Player::new_spec());
        r
    }

    /// The elements of the player's characters, in roster order.
    pub fn get_character_elements(&self) -> (r: Vec<ElementType>)
        ensures
            r@ == self@.elements(),
    {
        let mut r: Vec<ElementType> = Vec::new();
        let mut i: usize = 0;
        while i < self.characters.len()
            invariant
                i <= self.characters@.len(),
                r@ == self@.elements().subrange(0, i as int),
            decreases self.characters@.len() - i,
        {
            r.push(self.characters[i].element);
            i += 1;
            assert(r@ =~= self@.elements().subrange(0, i as int));
        }
        assert(r@ =~= self@.elements());
        r
    }

    /// Appends a support; fails with `SlotAreaFull`, changing nothing, when
    /// the area is full.
    pub fn insert_support(&mut self, card: Support) -> (r: Result<(), GameError>)
        requires
            old(self)@.wf(),
        ensures
            final(self)@.wf(),
            old(self)@.support_area.len() < AREA_CAPACITY ==> r == Ok::<(), GameError>(()) && final(self)@ == old(self)@.with_support(
                old(self)@.support_area.push(card),
            ),
            old(self)@.support_area.len() >= AREA_CAPACITY ==> (r == Err::<(), GameError>(GameError::SlotAreaFull) && final(self)@ == old(self)@),
    {
        if self.support_area.len() >= AREA_CAPACITY {
            return Err(GameError::SlotAreaFull);
        }
        self.support_area.push(card);
        Ok(())
    }

    /// Removes the support in slot `index`; the later ones move up a slot.
    pub fn remove_support(&mut self, index: usize)
        requires
            old(self)@.wf(),
            index < old(self)@.support_area.len(),
        ensures
            final(self)@.wf(),
            final(self)@ == old(self)@.with_support(old(self)@.support_area.remove(index as int)),
    {
        self.support_area.remove(index);
    }

    /// Appends a summoned effect; fails with `SlotAreaFull`, changing
    /// nothing, when the area is full.
    pub fn insert_summoned(&mut self, card: Summon) -> (r: Result<(), GameError>)
        requires
            old(self)@.wf(),
        ensures
            final(self)@.wf(),
            old(self)@.summoned_area.len() < AREA_CAPACITY ==> r == Ok::<(), GameError>(()) && final(self)@ == old(self)@.with_summoned(
                old(self)@.summoned_area.push(card),
            ),
            old(self)@.summoned_area.len() >= AREA_CAPACITY ==> (r == Err::<(), GameError>(GameError::SlotAreaFull) && final(self)@ == old(self)@),
    {
        if self.summoned_area.len() >= AREA_CAPACITY {
            return Err(GameError::SlotAreaFull);
        }
        self.summoned_area.push(card);
        Ok(())
    }

    /// Removes the summoned effect in slot `index`; the later ones move up a
    /// slot and the freed last slot reads as the inert placeholder.
    pub fn remove_summoned(&mut self, index: usize)
        requires
            old(self)@.wf(),
            index < old(self)@.summoned_area.len(),
        ensures
            final(self)@.wf(),
            final(self)@ == old(self)@.with_summoned(
                old(self)@.summoned_area.remove(index as int),
            ),
    {
        self.summoned_area.remove(index);
    }

    /// The pool's slots as rank codes, as clients receive them; empty slots read 8.
    pub fn dice_codes(&self) -> (r: Vec<i8>)
        ensures
            r@.len() == self@.dice.len(),
            forall|i: int| 0 <= i < r@.len() ==> #[trigger] r@[i] == rank(self@.dice[i]),
    {
        let mut r: Vec<i8> = Vec::new();
        let mut i: usize = 0;
        while i < self.dice_set.dices.len()
            invariant
                i <= self@.dice.len(),
                r@.len() == i,
                forall|j: int| 0 <= j < i ==> #[trigger] r@[j] == rank(self@.dice[j]),
            decreases self@.dice.len() - i,
        {
            r.push(self.dice_set.dices[i].int_value());
            i += 1;
        }
        r
    }

    /// The summoned-area slot `i`: its entry, or the inert placeholder.
    pub fn summoned_slot(&self, i: usize) -> (r: Summon)
        ensures
            r == slot_of(self@.summoned_area, i as int),
    {
        if i < self.summoned_area.len() {
            self.summoned_area[i]
        } else {
            Summon::Empty(EmptyCard {})
        }
    }

    /// Character `c` takes `amount` damage; hit points stop at zero.
    pub fn damage(&mut self, c: usize, amount: usize)
        requires
            old(self)@.wf(),
            c < ROSTER_SIZE,
        ensures
            final(self)@.wf(),
            final(self)@ == old(self)@.damage(c as int, amount as int),
    {
        let hp = self.characters[c].hp;
        let new_hp = if hp >= amount {
            hp - amount
        } else {
            0
        };
        self.characters[c].hp = new_hp;
        assert(self@.characters =~= old(self)@.damage(c as int, amount as int).characters);
    }
}

} // verus!
