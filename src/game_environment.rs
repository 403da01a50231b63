//! The match state and the turn engine that drives it, one command at a time.

use vstd::prelude::*;
use crate::cards::{context_in_range, EmptyCard, Summon, summon_hook};
use crate::dice_set::{
    dice_of_codes, is_arrangement, pool_layout, qualifies, rerolled, selects_distinct_dice,
    sorted_by_priority, spent_dice, valid_codes, draw_die_code, ElementType, ROLLED_DICE,
};
use crate::characters::{ability_effect, Character, Handler};
use crate::game_events::{GameEvent, SkillType};
use crate::operation_context::OperationContext;
use crate::player::{slot_of, Player, PlayerView, ROSTER_SIZE};
use crate::server_messages::SetupClientMessage;

verus! {

/// Why a command was rejected. A rejected command changes nothing.
#[derive(Clone, Copy, PartialEq, Eq, Structural, Debug)]
pub enum GameError {
    /// The dice offered do not pay the cost.
    InsufficientResources,
    /// A player, character, card or dice index is out of range.
    InvalidIndex,
    /// A reroll was asked with no reroll left this turn.
    RerollExhausted,
    /// An effect needed a free slot in a full area.
    SlotAreaFull,
}

/// Where the match stands in the turn cycle.
#[derive(Clone, Copy, PartialEq, Eq, Structural, Debug)]
pub enum TurnPhase {
    TurnStart,
    Acting,
    TurnEnd,
    MatchEnded,
}

/// The state of one match: two players, the number of seats taken, and the
/// turn phase.
pub struct GameEnvironment {
    pub players: Vec<Player>,
    pub active_players: usize,
    pub phase: TurnPhase,
    pub game_ended: bool,
}

/// The mathematical value of a `GameEnvironment`.
pub struct GameView {
    pub players: Seq<PlayerView>,
    pub active_players: usize,
    pub phase: TurnPhase,
    pub game_ended: bool,
}

impl View for GameEnvironment {
    type V = GameView;

    open spec fn view(&self) -> GameView {
        GameView {
            players: self.players@.map_values(|p: Player| p@),
            active_players: self.active_players,
            phase: self.phase,
            game_ended: self.game_ended,
        }
    }
}

impl GameView {
    /// Exactly two well-formed players, and at most two seats taken.
    pub open spec fn wf(self) -> bool {
        &&& self.players.len() == 2
        &&& forall|p: int| 0 <= p < 2 ==> (#[trigger] self.players[p]).wf()
        &&& self.active_players <= 2
    }

    /// Player `p` replaced by `pv`.
    pub open spec fn with_player(self, p: int, pv: PlayerView) -> GameView {
        GameView { players: self.players.update(p, pv), ..self }
    }

    /// Player `p`'s character `c` takes `amount` damage; hit points stop at zero.
    pub open spec fn damage(self, p: int, c: int, amount: int) -> GameView {
        self.with_player(p, self.players[p].damage(c, amount))
    }

    /// Player `p`'s summoned area replaced by `area`.
    pub open spec fn with_summoned(self, p: int, area: Seq<Summon>) -> GameView {
        self.with_player(p, self.players[p].with_summoned(area))
    }
}

impl GameEnvironment {
    /// The match state is well formed.
    pub open spec fn wf(&self) -> bool {
        self@.wf()
    }

    /// A match with no seat taken, before its first turn.
    pub fn new() -> (r: GameEnvironment)
        ensures
            r.wf(),
            r@.active_players == 0,
            r@.phase == TurnPhase::TurnStart,
            !r@.game_ended,
            forall|p: int| 0 <= p < 2 ==> #[trigger] r@.players[p] == Player::new_spec(),
    {
        let mut players: Vec<Player> = Vec::new();
        players.push(Player::new());
        players.push(Player::new());
        GameEnvironment { players, active_players: 0, phase: TurnPhase::TurnStart, game_ended: false }
    }

    /// Player `p`'s character `c` takes `amount` damage; hit points stop at zero.
    pub fn damage(&mut self, p: usize, c: usize, amount: usize)
        requires
            old(self).wf(),
            p < 2,
            c < ROSTER_SIZE,
        ensures
            final(self).wf(),
            final(self)@ == old(self)@.damage(p as int, c as int, amount as int),
    {
        self.players[p].damage(c, amount);
        assert(self@.players =~= old(self)@.damage(p as int, c as int, amount as int).players);
    }

    /// Sets slot `i` of player `p`'s summoned area to `s`.
    pub fn set_summoned(&mut self, p: usize, i: usize, s: Summon)
        requires
            old(self).wf(),
            p < 2,
            i < old(self)@.players[p as int].summoned_area.len(),
        ensures
            final(self).wf(),
            final(self)@ == old(self)@.with_summoned(
                p as int,
                old(self)@.players[p as int].summoned_area.update(i as int, s),
            ),
    {
        self.players[p].summoned_area.set(i, s);
        assert(self@.players =~= old(self)@.with_summoned(
            p as int,
            old(self)@.players[p as int].summoned_area.update(i as int, s),
        ).players);
    }
}

/// What the match worker does once a command is applied.
pub enum Reaction {
    /// Nothing further.
    Nothing,
    /// Queue this command behind those already waiting.
    Enqueue(GameEvent),
    /// Send this roster snapshot to the player it names.
    SendSetup(SetupClientMessage),
    /// Stop the worker: the match is over.
    Stop,
}

/// The names of characters, in order.
pub open spec fn names_of(cs: Seq<Character>) -> Seq<Seq<char>> {
    cs.map_values(|c: Character| c.name@)
}

/// The texts of strings, in order.
pub open spec fn texts_of(v: Seq<String>) -> Seq<Seq<char>> {
    v.map_values(|s: String| s@)
}

/// Whether `m` is the roster snapshot for player `id` of `g`.
pub open spec fn is_setup_for(g: GameView, id: int, m: SetupClientMessage) -> bool {
    &&& m.player_index == id
    &&& texts_of(m.player_characters@) == names_of(g.players[id].characters)
    &&& texts_of(m.opponent_characters@) == names_of(g.players[1 - id].characters)
}

impl GameView {
    /// The context of player `id`'s active character acting on the other
    /// player's active character.
    pub open spec fn context_for(self, id: int) -> OperationContext {
        OperationContext {
            subject_player: id as usize,
            subject_character: self.players[id].active_character,
            target_player: (1 - id) as usize,
            target_character: self.players[1 - id].active_character,
        }
    }
}

/// The outcome of making character `t` player `id`'s active character.
pub open spec fn change_active_post(g: GameView, id: int, t: int, g2: GameView, r: Result<(), GameError>) -> bool {
    if 0 <= id < 2 && 0 <= t < ROSTER_SIZE {
        r == Ok::<(), GameError>(()) && g2 == g.with_player(id, g.players[id].with_active(t as usize))
    } else {
        r == Err::<(), GameError>(GameError::InvalidIndex) && g2 == g
    }
}

/// The outcome of player `id` playing card `card` of its hand against
/// character `target`: no card has an effect, and the card is discarded.
pub open spec fn use_card_post(
    g: GameView,
    id: int,
    card: int,
    target: int,
    g2: GameView,
    r: Result<(), GameError>,
) -> bool {
    if 0 <= id < 2 && 0 <= card < g.players[id].hand.len() && 0 <= target < ROSTER_SIZE {
        &&& r == Ok::<(), GameError>(())
        &&& g2 == g.with_player(id, g.players[id].with_hand(g.players[id].hand.remove(card)))
    } else {
        r == Err::<(), GameError>(GameError::InvalidIndex) && g2 == g
    }
}

/// A command's result without what it asks the worker to do.
pub open spec fn unit_result(r: Result<Reaction, GameError>) -> Result<(), GameError> {
    match r {
        Ok(_) => Ok(()),
        Err(e) => Err(e),
    }
}

/// How many drawn dice codes a command consumes.
pub open spec fn draws_needed(msg: GameEvent) -> int {
    match msg {
        GameEvent::TurnStart => 2 * ROLLED_DICE,
        GameEvent::RerollDice(_, v) => v@.len() as int,
        _ => 0,
    }
}

/// The outcome of applying command `msg` to `g`, with `codes` the dice
/// codes it draws. After the match has ended every command is ignored.
pub open spec fn step_post(
    g: GameView,
    msg: GameEvent,
    codes: Seq<u8>,
    g2: GameView,
    r: Result<Reaction, GameError>,
) -> bool {
    if g.game_ended {
        g2 == g && (r matches Ok(Reaction::Stop))
    } else {
        match msg {
            GameEvent::SetupClient(id) => {
                &&& g2 == g
                &&& id >= 2 ==> (r matches Err(GameError::InvalidIndex))
                &&& id < 2 ==> (r matches Ok(Reaction::SendSetup(m)) && is_setup_for(g, id as int, m))
            },
            GameEvent::ChangeActive(id, t) => {
                &&& change_active_post(g, id as int, t as int, g2, unit_result(r))
                &&& r is Ok ==> (r matches Ok(Reaction::Nothing))
            },
            GameEvent::UseSkill(id, skill, cost) => {
                &&& use_skill_post(g, id as int, skill, cost@, g2, unit_result(r))
                &&& r is Ok ==> (r matches Ok(Reaction::Nothing))
            },
            GameEvent::UseActionCard(id, card, target) => {
                &&& use_card_post(g, id as int, card as int, target as int, g2, unit_result(r))
                &&& r is Ok ==> (r matches Ok(Reaction::Nothing))
            },
            GameEvent::RerollDice(id, indices) => {
                &&& reroll_post(g, id as int, indices@, codes, g2, unit_result(r))
                &&& r is Ok ==> (r matches Ok(Reaction::Nothing))
            },
            GameEvent::DeclareEndOfTurn(id) => {
                &&& id < 2 ==> (r matches Ok(Reaction::Enqueue(GameEvent::TurnEnd))) && g2 == (
                GameView { phase: TurnPhase::TurnEnd, ..g })
                &&& id >= 2 ==> (r matches Err(GameError::InvalidIndex)) && g2 == g
            },
            GameEvent::TurnStart => {
                &&& turn_start_post(g, codes, g2)
                &&& r matches Ok(Reaction::Nothing)
            },
            GameEvent::TurnEnd => {
                &&& g2 == turn_end_spec(g)
                &&& r matches Ok(Reaction::Enqueue(GameEvent::TurnStart))
            },
            GameEvent::Terminate => {
                &&& g2 == (GameView { phase: TurnPhase::MatchEnded, game_ended: true, ..g })
                &&& r matches Ok(Reaction::Stop)
            },
        }
    }
}

/// Whether the dice at slots `indices` of `pl` pay ability `skill` of
/// character `ch`: as many dice as the cost asks, all of the character's
/// element or wildcards when it asks for one element.
pub open spec fn pays_cost(pl: PlayerView, ch: Character, skill: SkillType, indices: Seq<usize>) -> bool {
    &&& indices.len() == ch.cost_of(skill).1
    &&& ch.cost_of(skill).0 ==> forall|j: int|
        0 <= j < indices.len() ==> qualifies(#[trigger] pl.dice[indices[j] as int], true, ch.element)
}

/// Whether `after` is `before` once the dice at `indices` are spent: they
/// leave the pool, the rest are put in order, the others fields stay.
pub open spec fn spent_from(before: PlayerView, after: PlayerView, indices: Seq<usize>) -> bool {
    &&& after == before.with_pool(after.dice, after.dice_count)
    &&& pool_layout(after.dice, after.dice_count as int)
    &&& after.dice_count == before.dice_count - indices.len()
    &&& after.valid_dice().to_multiset().add(
        spent_dice(before.valid_dice(), indices).to_multiset(),
    ) == before.valid_dice().to_multiset()
    &&& sorted_by_priority(after.valid_dice(), before.elements())
}

/// The match after a skill succeeded: the ability's effect, the acting
/// character's handler state kept, before the dice are spent.
pub open spec fn after_ability(g: GameView, id: int, skill: SkillType) -> GameView {
    let c = g.players[id].active_character as int;
    let ch = g.players[id].characters[c];
    let effect = ability_effect(g, g.context_for(id), ch.handler, skill);
    let g1 = effect.0;
    g1.with_player(
        id,
        g1.players[id].with_character(c, Character { handler: effect.1, ..g1.players[id].characters[c] }),
    )
}

/// The outcome of player `id` using ability `skill` paid with the dice at
/// slots `cost`.
pub open spec fn use_skill_post(
    g: GameView,
    id: int,
    skill: SkillType,
    cost: Seq<usize>,
    g2: GameView,
    r: Result<(), GameError>,
) -> bool {
    if !(0 <= id < 2) || !selects_distinct_dice(cost, g.players[id].dice_count as int) {
        r == Err::<(), GameError>(GameError::InvalidIndex) && g2 == g
    } else if !pays_cost(
        g.players[id],
        g.players[id].characters[g.players[id].active_character as int],
        skill,
        cost,
    ) {
        r == Err::<(), GameError>(GameError::InsufficientResources) && g2 == g
    } else {
        let ch = g.players[id].characters[g.players[id].active_character as int];
        let effect = ability_effect(g, g.context_for(id), ch.handler, skill);
        if effect.2 is Err {
            r == effect.2 && g2 == g
        } else {
            let g1 = after_ability(g, id, skill);
            &&& r == Ok::<(), GameError>(())
            &&& g2 == g1.with_player(id, g2.players[id])
            &&& spent_from(g1.players[id], g2.players[id], cost)
        }
    }
}

/// The outcome of player `id` asking to redraw the dice at slots `indices`,
/// the new dice being the ones `codes` stand for.
pub open spec fn reroll_post(
    g: GameView,
    id: int,
    indices: Seq<usize>,
    codes: Seq<u8>,
    g2: GameView,
    r: Result<(), GameError>,
) -> bool {
    if !(0 <= id < 2) {
        r == Err::<(), GameError>(GameError::InvalidIndex) && g2 == g
    } else if indices.len() == 0 {
        r == Ok::<(), GameError>(()) && g2 == g.with_player(id, g.players[id].with_rerolls(0))
    } else if g.players[id].reroll_chances == 0 {
        r == Err::<(), GameError>(GameError::RerollExhausted) && g2 == g
    } else if !selects_distinct_dice(indices, g.players[id].dice_count as int) {
        r == Err::<(), GameError>(GameError::InvalidIndex) && g2 == g
    } else {
        let pl = g.players[id];
        let after = g2.players[id];
        let redrawn = rerolled(pl.dice, indices, codes, indices.len() as int);
        &&& r == Ok::<(), GameError>(())
        &&& g2 == g.with_player(id, after)
        &&& after == pl.with_rerolls((pl.reroll_chances - 1) as usize).with_pool(
            after.dice,
            after.dice_count,
        )
        &&& pool_layout(after.dice, after.dice_count as int)
        &&& after.dice_count == pl.dice_count
        &&& is_arrangement(
            after.valid_dice(),
            redrawn.subrange(0, pl.dice_count as int),
            pl.elements(),
        )
    }
}

/// The match after the turn-end hooks of the first `n` entries of `area`,
/// owned by player `p`, ran in order.
pub open spec fn hooks_applied(g: GameView, p: int, area: Seq<Summon>, n: int) -> GameView
    decreases n,
{
    if n <= 0 {
        g
    } else {
        summon_hook(hooks_applied(g, p, area, n - 1), p, area[n - 1])
    }
}

/// The first `n` entries of `area` after their turn-end hooks, without
/// those that have no use left.
pub open spec fn survivors(area: Seq<Summon>, n: int) -> Seq<Summon>
    decreases n,
{
    if n <= 0 {
        seq![]
    } else {
        survivors(area, n - 1) + if area[n - 1].after_turn_end().uses() > 0 {
            seq![area[n - 1].after_turn_end()]
        } else {
            seq![]
        }
    }
}

/// Player `p`'s turn end: each summoned entry's hook in slot order, then the
/// area holds the entries with uses left; supports have no turn-end effect.
pub open spec fn player_turn_end(g: GameView, p: int) -> GameView {
    let area = g.players[p].summoned_area;
    hooks_applied(g, p, area, area.len() as int).with_summoned(p, survivors(area, area.len() as int))
}

/// The turn-end phase: both players' turn ends, in seat order; the match
/// then waits for the turn start.
pub open spec fn turn_end_spec(g: GameView) -> GameView {
    GameView { phase: TurnPhase::TurnStart, ..player_turn_end(player_turn_end(g, 0), 1) }
}

/// Whether `after` is `before` at a turn start with the dice `codes`: one
/// reroll, and a fresh pool of those dice in order; the rest stays.
pub open spec fn started_player(before: PlayerView, after: PlayerView, codes: Seq<u8>) -> bool {
    &&& after == before.with_rerolls(1).with_pool(after.dice, after.dice_count)
    &&& pool_layout(after.dice, after.dice_count as int)
    &&& after.dice_count == ROLLED_DICE
    &&& is_arrangement(after.valid_dice(), dice_of_codes(codes), before.elements())
}

/// The turn-start phase with the dice `codes`: the first player's eight
/// dice are `codes[0..8]`, the second's `codes[8..16]`; then players act.
pub open spec fn turn_start_post(g: GameView, codes: Seq<u8>, g2: GameView) -> bool {
    &&& g2.players.len() == 2
    &&& g2.active_players == g.active_players
    &&& g2.game_ended == g.game_ended
    &&& g2.phase == TurnPhase::Acting
    &&& forall|p: int|
        0 <= p < 2 ==> started_player(
            g.players[p],
            #[trigger] g2.players[p],
            codes.subrange(ROLLED_DICE * p, ROLLED_DICE * p + ROLLED_DICE),
        )
}

proof fn lemma_survivors_len(area: Seq<Summon>, n: int)
    requires
        0 <= n <= area.len(),
    ensures
        survivors(area, n).len() <= n,
    decreases n,
{
    if n > 0 {
        lemma_survivors_len(area, n - 1);
    }
}

/// Turn-end hooks leave every player's slot areas and the player count as they were.
proof fn lemma_hooks_keep_areas(g: GameView, p: int, area: Seq<Summon>, n: int)
    requires
        g.players.len() == 2,
        0 <= p < 2,
    ensures
        hooks_applied(g, p, area, n).players.len() == 2,
        forall|q: int|
            0 <= q < 2 ==> (#[trigger] hooks_applied(g, p, area, n).players[q]).summoned_area
                == g.players[q].summoned_area,
    decreases n,
{
    if n > 0 {
        lemma_hooks_keep_areas(g, p, area, n - 1);
    }
}

/// After player `p`'s turn end its summoned area holds the survivors of the
/// old one, and the other player's area is untouched.
proof fn lemma_player_turn_end_areas(g: GameView, p: int)
    requires
        g.players.len() == 2,
        0 <= p < 2,
    ensures
        player_turn_end(g, p).players.len() == 2,
        player_turn_end(g, p).players[p].summoned_area == survivors(
            g.players[p].summoned_area,
            g.players[p].summoned_area.len() as int,
        ),
        player_turn_end(g, 1 - p).players[p].summoned_area == g.players[p].summoned_area,
{
    let area = g.players[p].summoned_area;
    lemma_hooks_keep_areas(g, p, area, area.len() as int);
    let other = g.players[1 - p].summoned_area;
    lemma_hooks_keep_areas(g, 1 - p, other, other.len() as int);
}

/// A turn-end phase leaves player `p`'s summoned area holding the survivors
/// of its old area.
proof fn lemma_turn_end_area(g: GameView, p: int)
    requires
        g.players.len() == 2,
        0 <= p < 2,
    ensures
        turn_end_spec(g).players.len() == 2,
        turn_end_spec(g).players[p].summoned_area == survivors(
            g.players[p].summoned_area,
            g.players[p].summoned_area.len() as int,
        ),
{
    lemma_player_turn_end_areas(g, 0);
    lemma_player_turn_end_areas(g, 1);
    let g0 = player_turn_end(g, 0);
    lemma_player_turn_end_areas(g0, 0);
    lemma_player_turn_end_areas(g0, 1);
}

/// A summoned effect with two uses left, alone in its owner's area, fires
/// at two turn ends: after the first it is still there with one use left,
/// after the second it is evicted and its slot reads as the inert placeholder.
pub proof fn lemma_summon_lasts_two_turn_ends(g: GameView, p: int, s: Summon)
    requires
        g.players.len() == 2,
        0 <= p < 2,
        g.players[p].summoned_area == seq![s],
        s.uses() == 2,
    ensures
        turn_end_spec(g).players[p].summoned_area == seq![s.after_turn_end()],
        s.after_turn_end().uses() == 1,
        turn_end_spec(turn_end_spec(g)).players[p].summoned_area.len() == 0,
        slot_of(turn_end_spec(turn_end_spec(g)).players[p].summoned_area, 0) == Summon::Empty(
            EmptyCard {},
        ),
{
    lemma_turn_end_area(g, p);
    let area = seq![s];
    assert(survivors(area, 0) == Seq::<Summon>::empty());
    assert(survivors(area, 1) =~= seq![s.after_turn_end()]);
    let g1 = turn_end_spec(g);
    lemma_turn_end_area(g1, p);
    let area1 = seq![s.after_turn_end()];
    assert(survivors(area1, 0) == Seq::<Summon>::empty());
    assert(survivors(area1, 1) =~= Seq::<Summon>::empty());
}

/// The texts of the names of `cs`, as owned strings.
fn character_names(cs: &Vec<Character>) -> (r: Vec<String>)
    ensures
        texts_of(r@) == names_of(cs@),
{
    let mut r: Vec<String> = Vec::new();
    let mut i: usize = 0;
    while i < cs.len()
        invariant
            i <= cs@.len(),
            r@.len() == i,
            texts_of(r@) == names_of(cs@.subrange(0, i as int)),
        decreases cs@.len() - i,
    {
        let name = cs[i].name.to_owned();
        let ghost before = r@;
        r.push(name);
        i += 1;
        assert forall|k: int| 0 <= k < i implies #[trigger] texts_of(r@)[k] == names_of(
            cs@.subrange(0, i as int),
        )[k] by {
            if k < i - 1 {
                assert(texts_of(before)[k] == names_of(cs@.subrange(0, i - 1))[k]);
                assert(r@[k] == before[k]);
            }
        }
        assert(texts_of(r@) =~= names_of(cs@.subrange(0, i as int)));
    }
    assert(cs@.subrange(0, i as int) =~= cs@);
    r
}

impl GameEnvironment {
    /// The roster snapshot for player `id`: its seat, its character names
    /// and the opponent's. Fails with `InvalidIndex` when there is no such player.
    pub fn setup_client(&self, id: usize) -> (r: Result<SetupClientMessage, GameError>)
        requires
            self.wf(),
        ensures
            id >= 2 ==> r == Err::<SetupClientMessage, GameError>(GameError::InvalidIndex),
            id < 2 ==> (r matches Ok(m) && is_setup_for(self@, id as int, m)),
    {
        if id >= 2 {
            return Err(GameError::InvalidIndex);
        }
        let mine = character_names(&self.players[id].characters);
        let theirs = character_names(&self.players[1 - id].characters);
        Ok(SetupClientMessage { player_index: id, player_characters: mine, opponent_characters: theirs })
    }

    /// Makes character `t` player `id`'s active character. Fails with
    /// `InvalidIndex`, changing nothing, when there is no such player or character.
    pub fn change_active(&mut self, id: usize, t: usize) -> (r: Result<(), GameError>)
        requires
            old(self).wf(),
        ensures
            final(self).wf(),
            change_active_post(old(self)@, id as int, t as int, final(self)@, r),
    {
        if id >= 2 || t >= ROSTER_SIZE {
            return Err(GameError::InvalidIndex);
        }
        self.players[id].active_character = t;
        assert(self@.players =~= old(self)@.with_player(
            id as int,
            old(self)@.players[id as int].with_active(t),
        ).players);
        Ok(())
    }

    /// Plays card `card` of player `id`'s hand against the opponent's
    /// character `target`, then discards it. Fails with `InvalidIndex`,
    /// changing nothing, when the player, card or character does not exist.
    pub fn use_action_card(&mut self, id: usize, card: usize, target: usize) -> (r: Result<
        (),
        GameError,
    >)
        requires
            old(self).wf(),
        ensures
            final(self).wf(),
            use_card_post(old(self)@, id as int, card as int, target as int, final(self)@, r),
    {
        if id >= 2 || target >= ROSTER_SIZE || card >= self.players[id].hand.cards.len() {
            return Err(GameError::InvalidIndex);
        }
        let info = OperationContext::new(id, self.players[id].active_character, target);
        let c = self.players[id].hand.cards[card];
        c.use_card(info, self);
        self.players[id].hand.cards.remove(card);
        assert(self@.players =~= old(self)@.with_player(
            id as int,
            old(self)@.players[id as int].with_hand(
                old(self)@.players[id as int].hand.remove(card as int),
            ),
        ).players);
        Ok(())
    }

    /// Player `id` ends the turn: the match enters its turn-end phase and the
    /// turn-end command is queued. Fails with `InvalidIndex`, changing
    /// nothing, when there is no such player.
    pub fn declare_end_of_turn(&mut self, id: usize) -> (r: Result<Reaction, GameError>)
        requires
            old(self).wf(),
        ensures
            final(self).wf(),
            id < 2 ==> (r matches Ok(Reaction::Enqueue(GameEvent::TurnEnd))) && final(self)@ == (
            GameView { phase: TurnPhase::TurnEnd, ..old(self)@ }),
            id >= 2 ==> (r matches Err(GameError::InvalidIndex)) && final(self)@ == old(self)@,
    {
        if id >= 2 {
            return Err(GameError::InvalidIndex);
        }
        self.phase = TurnPhase::TurnEnd;
        Ok(Reaction::Enqueue(GameEvent::TurnEnd))
    }

    /// Player `id`'s active character uses ability `skill`, paid with the
    /// dice at slots `cost`: the ability acts on the match, then those dice
    /// are spent and the rest put back in order. Rejected, changing nothing,
    /// when the player or a slot is out of range or a slot is repeated
    /// (`InvalidIndex`), when the dice do not pay the cost
    /// (`InsufficientResources`), or when the ability itself fails.
    pub fn use_skill(&mut self, id: usize, skill: SkillType, cost: &Vec<usize>) -> (r: Result<
        (),
        GameError,
    >)
        requires
            old(self).wf(),
        ensures
            final(self).wf(),
            use_skill_post(old(self)@, id as int, skill, cost@, final(self)@, r),
    {
        if id >= 2 {
            return Err(GameError::InvalidIndex);
        }
        if !self.players[id].dice_set.check_selection(cost) {
            return Err(GameError::InvalidIndex);
        }
        let c = self.players[id].active_character;
        let ch = self.players[id].characters[c];
        let (must_same, n) = ch.skill_cost(skill);
        if cost.len() != n {
            return Err(GameError::InsufficientResources);
        }
        if must_same && !self.players[id].dice_set.dice_match(cost, ch.element) {
            return Err(GameError::InsufficientResources);
        }
        let target = self.players[1 - id].active_character;
        let info = OperationContext::new(id, c, target);
        let mut h = ch.handler;
        let res = h.invoke(skill, info, self);
        if res.is_err() {
            return res;
        }
        self.players[id].characters[c].handler = h;
        proof {
            assert(self@.players =~= after_ability(old(self)@, id as int, skill).players);
        }
        let elements = self.players[id].get_character_elements();
        let ghost before = self@;
        self.players[id].dice_set.spend_dice(cost, elements);
        proof {
            assert(self@.players =~= before.with_player(id as int, self@.players[id as int]).players);
            assert(self@.players[id as int] =~~= before.players[id as int].with_pool(
                self@.players[id as int].dice,
                self@.players[id as int].dice_count,
            ));
        }
        Ok(())
    }

    /// Player `id` asks to redraw the dice at slots `indices`, the new dice
    /// being the ones `codes` stand for. An empty list gives up the reroll;
    /// otherwise the dice are redrawn, put back in order, and one reroll is
    /// used. Rejected, changing nothing, with `InvalidIndex` for an unknown
    /// player or a bad slot list and `RerollExhausted` with no reroll left.
    pub fn reroll_with(&mut self, id: usize, indices: &Vec<usize>, codes: &Vec<u8>) -> (r: Result<
        (),
        GameError,
    >)
        requires
            old(self).wf(),
            codes@.len() >= indices@.len(),
            valid_codes(codes@),
        ensures
            final(self).wf(),
            reroll_post(old(self)@, id as int, indices@, codes@, final(self)@, r),
    {
        if id >= 2 {
            return Err(GameError::InvalidIndex);
        }
        if indices.len() == 0 {
            self.players[id].reroll_chances = 0;
            assert(self@.players =~= old(self)@.with_player(
                id as int,
                old(self)@.players[id as int].with_rerolls(0),
            ).players);
            return Ok(());
        }
        if self.players[id].reroll_chances == 0 {
            return Err(GameError::RerollExhausted);
        }
        if !self.players[id].dice_set.check_selection(indices) {
            return Err(GameError::InvalidIndex);
        }
        let ghost pl = old(self)@.players[id as int];
        self.players[id].dice_set.redraw(indices, codes);
        let elements = self.players[id].get_character_elements();
        self.players[id].dice_set.sort_dice(elements);
        self.players[id].reroll_chances = self.players[id].reroll_chances - 1;
        proof {
            let after = self@.players[id as int];
            assert(after =~~= pl.with_rerolls((pl.reroll_chances - 1) as usize).with_pool(
                after.dice,
                after.dice_count,
            ));
            assert(self@.players =~= old(self)@.with_player(id as int, after).players);
        }
        Ok(())
    }

    /// Player `p`'s turn end: each summoned entry's turn-end hook runs in
    /// slot order over a snapshot of the area, the entries with no use left
    /// are evicted, then each support's turn-end hook runs.
    fn player_turn_end(&mut self, p: usize)
        requires
            old(self).wf(),
            p < 2,
        ensures
            final(self).wf(),
            final(self)@ == player_turn_end(old(self)@, p as int),
    {
        let ghost g0 = self@;
        let ghost area = g0.players[p as int].summoned_area;
        let n = self.players[p].summoned_area.len();
        let mut snap: Vec<Summon> = Vec::new();
        let mut j: usize = 0;
        while j < n
            invariant
                self@ == g0,
                self.wf(),
                p < 2,
                n == area.len(),
                area == self@.players[p as int].summoned_area,
                j <= n,
                snap@ == area.subrange(0, j as int),
            decreases n - j,
        {
            snap.push(self.players[p].summoned_area[j]);
            j += 1;
            assert(snap@ =~= area.subrange(0, j as int));
        }
        assert(snap@ =~= area);
        let mut kept: Vec<Summon> = Vec::new();
        let mut i: usize = 0;
        while i < n
            invariant
                self.wf(),
                p < 2,
                n == area.len(),
                snap@ == area,
                i <= n,
                self@ == hooks_applied(g0, p as int, area, i as int),
                kept@ == survivors(area, i as int),
            decreases n - i,
        {
            let mut entry = snap[i];
            entry.on_turn_end(p, self);
            if entry.remaining_uses() > 0 {
                kept.push(entry);
            }
            i += 1;
            assert(kept@ =~= survivors(area, i as int));
        }
        proof {
            lemma_survivors_len(area, n as int);
        }
        let ghost g1 = self@;
        self.players[p].summoned_area = kept;
        assert(self@.players =~= g1.with_summoned(p as int, survivors(area, n as int)).players);
        let ghost g2 = self@;
        let m = self.players[p].support_area.len();
        let mut k: usize = 0;
        while k < m
            invariant
                self@ == g2,
                self.wf(),
                p < 2,
                m == g2.players[p as int].support_area.len(),
                k <= m,
            decreases m - k,
        {
            let support = self.players[p].support_area[k];
            support.on_turn_end(p, self);
            k += 1;
        }
    }

    /// The turn-end phase: each player's turn end in seat order, then the
    /// turn-start command is queued.
    pub fn turn_end(&mut self) -> (r: Reaction)
        requires
            old(self).wf(),
        ensures
            final(self).wf(),
            final(self)@ == turn_end_spec(old(self)@),
            r matches Reaction::Enqueue(GameEvent::TurnStart),
    {
        self.player_turn_end(0);
        self.player_turn_end(1);
        self.phase = TurnPhase::TurnStart;
        Reaction::Enqueue(GameEvent::TurnStart)
    }

    /// Player `p`'s turn start with the dice `codes[8p..8p+8]`: one reroll,
    /// a fresh pool in order, then each support's turn-start hook.
    fn start_player(&mut self, p: usize, codes: &Vec<u8>)
        requires
            old(self).wf(),
            p < 2,
            codes@.len() == 2 * ROLLED_DICE,
            valid_codes(codes@),
        ensures
            final(self).wf(),
            final(self)@ == old(self)@.with_player(p as int, final(self)@.players[p as int]),
            started_player(
                old(self)@.players[p as int],
                final(self)@.players[p as int],
                codes@.subrange(ROLLED_DICE * p, ROLLED_DICE * p + ROLLED_DICE),
            ),
    {
        let ghost pl = old(self)@.players[p as int];
        let ghost mine_spec = codes@.subrange(ROLLED_DICE * p, ROLLED_DICE * p + ROLLED_DICE);
        self.players[p].reroll_chances = 1;
        let mut mine: Vec<u8> = Vec::new();
        let mut k: usize = 0;
        while k < ROLLED_DICE
            invariant
                p < 2,
                k <= ROLLED_DICE,
                codes@.len() == 2 * ROLLED_DICE,
                valid_codes(codes@),
                mine@ == codes@.subrange(ROLLED_DICE * p, ROLLED_DICE * p + k),
            decreases ROLLED_DICE - k,
        {
            mine.push(codes[ROLLED_DICE * p + k]);
            k += 1;
            assert(mine@ =~= codes@.subrange(ROLLED_DICE * p, ROLLED_DICE * p + k));
        }
        assert(mine@ == mine_spec);
        assert(valid_codes(mine@));
        self.players[p].dice_set.roll_from(&mine);
        let elements = self.players[p].get_character_elements();
        self.players[p].dice_set.sort_dice(elements);
        proof {
            let after = self@.players[p as int];
            assert(after =~~= pl.with_rerolls(1).with_pool(after.dice, after.dice_count));
            assert(self@.players =~= old(self)@.with_player(p as int, after).players);
        }
        let ghost g2 = self@;
        let m = self.players[p].support_area.len();
        let mut j: usize = 0;
        while j < m
            invariant
                self@ == g2,
                self.wf(),
                p < 2,
                m == g2.players[p as int].support_area.len(),
                j <= m,
            decreases m - j,
        {
            let support = self.players[p].support_area[j];
            support.on_turn_start(p, self);
            j += 1;
        }
    }

    /// The turn-start phase with the dice `codes`: each player gets one
    /// reroll and eight fresh dice in order (the first player
    /// `codes[0..8]`, the second `codes[8..16]`); then players act.
    pub fn turn_start_with(&mut self, codes: &Vec<u8>)
        requires
            old(self).wf(),
            codes@.len() == 2 * ROLLED_DICE,
            valid_codes(codes@),
        ensures
            final(self).wf(),
            turn_start_post(old(self)@, codes@, final(self)@),
    {
        self.start_player(0, codes);
        self.start_player(1, codes);
        self.phase = TurnPhase::Acting;
    }

    /// Applies command `msg`, with `codes` the dice codes it draws (see
    /// `draws_needed`). After the match has ended every command is ignored.
    pub fn apply_event(&mut self, msg: &GameEvent, codes: &Vec<u8>) -> (r: Result<Reaction, GameError>)
        requires
            old(self).wf(),
            codes@.len() == draws_needed(*msg),
            valid_codes(codes@),
        ensures
            final(self).wf(),
            step_post(old(self)@, *msg, codes@, final(self)@, r),
    {
        if self.game_ended {
            return Ok(Reaction::Stop);
        }
        match msg {
            GameEvent::SetupClient(id) => match self.setup_client(*id) {
                Ok(m) => Ok(Reaction::SendSetup(m)),
                Err(e) => Err(e),
            },
            GameEvent::ChangeActive(id, t) => match self.change_active(*id, *t) {
                Ok(()) => Ok(Reaction::Nothing),
                Err(e) => Err(e),
            },
            GameEvent::UseSkill(id, skill, cost) => match self.use_skill(*id, *skill, cost) {
                Ok(()) => Ok(Reaction::Nothing),
                Err(e) => Err(e),
            },
            GameEvent::UseActionCard(id, card, target) => match self.use_action_card(
                *id,
                *card,
                *target,
            ) {
                Ok(()) => Ok(Reaction::Nothing),
                Err(e) => Err(e),
            },
            GameEvent::RerollDice(id, indices) => match self.reroll_with(*id, indices, codes) {
                Ok(()) => Ok(Reaction::Nothing),
                Err(e) => Err(e),
            },
            GameEvent::DeclareEndOfTurn(id) => self.declare_end_of_turn(*id),
            GameEvent::TurnStart => {
                self.turn_start_with(codes);
                Ok(Reaction::Nothing)
            },
            GameEvent::TurnEnd => Ok(self.turn_end()),
            GameEvent::Terminate => Ok(self.terminate()),
        }
    }

    /// Applies command `msg`, drawing the dice it needs at random: the
    /// outcome is the one `apply_event` gives for some valid draws.
    pub fn handle_message(&mut self, msg: &GameEvent) -> (r: Result<Reaction, GameError>)
        requires
            old(self).wf(),
        ensures
            final(self).wf(),
            exists|codes: Seq<u8>|
                codes.len() == draws_needed(*msg) && valid_codes(codes) && #[trigger] step_post(
                    old(self)@,
                    *msg,
                    codes,
                    final(self)@,
                    r,
                ),
    {
        let n: usize = match msg {
            GameEvent::TurnStart => 2 * ROLLED_DICE,
            GameEvent::RerollDice(_, v) => v.len(),
            _ => 0,
        };
        let mut codes: Vec<u8> = Vec::new();
        let mut i: usize = 0;
        while i < n
            invariant
                i <= n,
                codes@.len() == i,
                valid_codes(codes@),
            decreases n - i,
        {
            codes.push(draw_die_code());
            i += 1;
        }
        let r = self.apply_event(msg, &codes);
        assert(step_post(old(self)@, *msg, codes@, self@, r));
        r
    }

    /// Takes the next free seat, returning its player index, or `None` when
    /// both seats are taken.
    pub fn add_player(&mut self) -> (r: Option<usize>)
        requires
            old(self).wf(),
        ensures
            final(self).wf(),
            old(self)@.active_players < 2 ==> r == Some(old(self)@.active_players) && final(self)@ == (
            GameView { active_players: (old(self)@.active_players + 1) as usize, ..old(self)@ }),
            old(self)@.active_players >= 2 ==> r is None && final(self)@ == old(self)@,
    {
        if self.active_players >= 2 {
            return None;
        }
        self.active_players = self.active_players + 1;
        Some(self.active_players - 1)
    }

    /// Ends the match: no command is processed after this one.
    pub fn terminate(&mut self) -> (r: Reaction)
        requires
            old(self).wf(),
        ensures
            final(self).wf(),
            r is Stop,
            final(self)@ == (GameView { phase: TurnPhase::MatchEnded, game_ended: true, ..old(self)@ }),
    {
        self.phase = TurnPhase::MatchEnded;
        self.game_ended = true;
        Reaction::Stop
    }
}

} // verus!
