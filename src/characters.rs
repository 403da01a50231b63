//! Characters: their static data, their ability handlers, and the roster.

use vstd::prelude::*;
use crate::cards::{context_in_range, Oz, Summon, OZ_USES};
use crate::dice_set::ElementType;
use crate::game_environment::{GameEnvironment, GameError, GameView};
use crate::game_events::SkillType;
use crate::operation_context::OperationContext;
use crate::player::AREA_CAPACITY;

verus! {

/// Damage of a plain normal attack.
pub const NORMAL_ATTACK_DAMAGE: usize = 2;

/// Damage of Yoimiya's normal attack once her elemental skill has kindled it.
pub const KINDLED_ATTACK_DAMAGE: usize = 4;

/// Dice a normal attack costs, of any kind.
pub const NORMAL_ATTACK_COST: usize = 2;

/// The three abilities of a character. Each may act on the match and on
/// the handler's own state; a failed ability changes nothing.
pub trait CharacterHandler {
    /// The normal attack.
    fn on_normal_attack(&mut self, info: OperationContext, env: &mut GameEnvironment) -> (r: Result<
        (),
        GameError,
    >)
        requires
            old(env).wf(),
            context_in_range(info),
        ensures
            final(env).wf(),
    ;

    /// The elemental skill.
    fn on_e_skill(&mut self, info: OperationContext, env: &mut GameEnvironment) -> (r: Result<
        (),
        GameError,
    >)
        requires
            old(env).wf(),
            context_in_range(info),
        ensures
            final(env).wf(),
    ;

    /// The elemental burst.
    fn on_q_skill(&mut self, info: OperationContext, env: &mut GameEnvironment) -> (r: Result<
        (),
        GameError,
    >)
        requires
            old(env).wf(),
            context_in_range(info),
        ensures
            final(env).wf(),
    ;
}

/// Yoimiya: her elemental skill kindles her normal attack for the rest of
/// the match.
#[derive(Clone, Copy, PartialEq, Eq, Structural, Debug)]
pub struct YoimiyaHandler {
    pub pyro_attached: bool,
}

/// Fischl: her elemental skill summons Oz, or refreshes the Oz already there.
#[derive(Clone, Copy, PartialEq, Eq, Structural, Debug)]
pub struct FischlHandler {}

/// Ganyu: a plain normal attack.
#[derive(Clone, Copy, PartialEq, Eq, Structural, Debug)]
pub struct GanyuHandler {}

/// The ability handler a character owns.
#[derive(Clone, Copy, PartialEq, Eq, Structural, Debug)]
pub enum Handler {
    Yoimiya(YoimiyaHandler),
    Fischl(FischlHandler),
    Ganyu(GanyuHandler),
}

/// A character: static identity, hit points and ability handler.
#[derive(Clone, Copy, Debug)]
pub struct Character {
    pub name: &'static str,
    pub max_hp: usize,
    pub hp: usize,
    pub e_cost: usize,
    pub q_cost: usize,
    pub element: ElementType,
    pub handler: Handler,
}

/// What ability `skill` of handler `h` does in context `info`: the match
/// afterwards, the handler afterwards, and whether it succeeded. Abilities
/// without an effect of their own only cost their dice.
pub open spec fn ability_effect(g: GameView, info: OperationContext, h: Handler, skill: SkillType) -> (
    GameView,
    Handler,
    Result<(), GameError>,
) {
    let target_p = info.target_player as int;
    let target_c = info.target_character as int;
    match (h, skill) {
        (Handler::Yoimiya(y), SkillType::NormalAttack) => (
            g.damage(
                target_p,
                target_c,
                if y.pyro_attached {
                    KINDLED_ATTACK_DAMAGE as int
                } else {
                    NORMAL_ATTACK_DAMAGE as int
                },
            ),
            h,
            Ok(()),
        ),
        (Handler::Yoimiya(_), SkillType::ESkill) => (
            g,
            Handler::Yoimiya(YoimiyaHandler { pyro_attached: true }),
            Ok(()),
        ),
        (Handler::Fischl(_), SkillType::NormalAttack) => (
            g.damage(target_p, target_c, NORMAL_ATTACK_DAMAGE as int),
            h,
            Ok(()),
        ),
        (Handler::Fischl(_), SkillType::ESkill) => {
            let area = g.players[info.subject_player as int].summoned_area;
            if first_oz(area, 0) < area.len() || area.len() < AREA_CAPACITY {
                (g.summon_oz(info.subject_player as int), h, Ok(()))
            } else {
                (g, h, Err(GameError::SlotAreaFull))
            }
        },
        (Handler::Ganyu(_), SkillType::NormalAttack) => (
            g.damage(target_p, target_c, NORMAL_ATTACK_DAMAGE as int),
            h,
            Ok(()),
        ),
        _ => (g, h, Ok(())),
    }
}

/// The slot of the first Oz in `area` at or after `i`, or the area's length
/// when there is none.
pub open spec fn first_oz(area: Seq<Summon>, i: int) -> int
    decreases area.len() - i,
{
    if i < 0 || i >= area.len() {
        area.len() as int
    } else if area[i].is_oz() {
        i
    } else {
        first_oz(area, i + 1)
    }
}

proof fn lemma_first_oz_bounds(area: Seq<Summon>, i: int)
    requires
        0 <= i <= area.len(),
    ensures
        i <= first_oz(area, i) <= area.len(),
        first_oz(area, i) < area.len() ==> area[first_oz(area, i)].is_oz(),
        forall|j: int| i <= j < first_oz(area, i) ==> !(#[trigger] area[j]).is_oz(),
    decreases area.len() - i,
{
    if i < area.len() && !area[i].is_oz() {
        lemma_first_oz_bounds(area, i + 1);
    }
}

impl GameView {
    /// Player `p`'s area with a fresh Oz: the first Oz there is refreshed,
    /// or a new one is appended when there is none.
    pub open spec fn summon_oz(self, p: int) -> GameView {
        let pl = self.players[p];
        let area = pl.summoned_area;
        let fresh = Summon::Oz(Oz { lifetime: OZ_USES });
        let new_area = if first_oz(area, 0) < area.len() {
            area.update(first_oz(area, 0), fresh)
        } else {
            area.push(fresh)
        };
        self.with_summoned(p, new_area)
    }
}

impl GameEnvironment {
    /// Puts a fresh Oz in player `p`'s summoned area, refreshing the one
    /// already there; fails with `SlotAreaFull`, changing nothing, when
    /// there is none and the area is full.
    pub fn summon_oz(&mut self, p: usize) -> (r: Result<(), GameError>)
        requires
            old(self).wf(),
            p < 2,
        ensures
            final(self).wf(),
            ({
                let area = old(self)@.players[p as int].summoned_area;
                if first_oz(area, 0) < area.len() || area.len() < AREA_CAPACITY {
                    r == Ok::<(), GameError>(()) && final(self)@ == old(self)@.summon_oz(p as int)
                } else {
                    r == Err::<(), GameError>(GameError::SlotAreaFull) && final(self)@ == old(self)@
                }
            }),
    {
        let ghost area = self@.players[p as int].summoned_area;
        proof {
            lemma_first_oz_bounds(area, 0);
        }
        let mut i: usize = 0;
        let n = self.players[p].summoned_area.len();
        while i < n
            invariant
                self.wf(),
                self@ == old(self)@,
                p < 2,
                area == self@.players[p as int].summoned_area,
                n == area.len(),
                i <= n,
                forall|j: int| 0 <= j < i ==> !(#[trigger] area[j]).is_oz(),
            decreases n - i,
        {
            if let Summon::Oz(_) = self.players[p].summoned_area[i] {
                proof {
                    assert(area[i as int].is_oz());
                    lemma_first_oz_bounds(area, 0);
                    assert(first_oz(area, 0) == i);
                }
                self.set_summoned(p, i, Summon::Oz(Oz { lifetime: OZ_USES }));
                return Ok(());
            }
            i += 1;
        }
        proof {
            lemma_first_oz_bounds(area, 0);
            assert(first_oz(area, 0) == area.len());
        }
        let r = self.players[p].insert_summoned(Summon::Oz(Oz { lifetime: OZ_USES }));
        proof {
            if r is Ok {
                assert(self@.players =~= old(self)@.summon_oz(p as int).players);
            } else {
                assert(self@.players =~= old(self)@.players);
            }
        }
        r
    }
}

impl CharacterHandler for YoimiyaHandler {
    fn on_normal_attack(&mut self, info: OperationContext, env: &mut GameEnvironment) -> (r: Result<
        (),
        GameError,
    >)
        ensures
            (final(env)@, Handler::Yoimiya(*final(self)), r) == ability_effect(
                old(env)@,
                info,
                Handler::Yoimiya(*old(self)),
                SkillType::NormalAttack,
            ),
    {
        let dmg = if self.pyro_attached {
            KINDLED_ATTACK_DAMAGE
        } else {
            NORMAL_ATTACK_DAMAGE
        };
        env.damage(info.target_player, info.target_character, dmg);
        Ok(())
    }

    fn on_e_skill(&mut self, info: OperationContext, env: &mut GameEnvironment) -> (r: Result<
        (),
        GameError,
    >)
        ensures
            (final(env)@, Handler::Yoimiya(*final(self)), r) == ability_effect(
                old(env)@,
                info,
                Handler::Yoimiya(*old(self)),
                SkillType::ESkill,
            ),
    {
        self.pyro_attached = true;
        Ok(())
    }

    fn on_q_skill(&mut self, info: OperationContext, env: &mut GameEnvironment) -> (r: Result<
        (),
        GameError,
    >)
        ensures
            (final(env)@, Handler::Yoimiya(*final(self)), r) == ability_effect(
                old(env)@,
                info,
                Handler::Yoimiya(*old(self)),
                SkillType::QSkill,
            ),
    {
        Ok(())
    }
}

impl CharacterHandler for FischlHandler {
    fn on_normal_attack(&mut self, info: OperationContext, env: &mut GameEnvironment) -> (r: Result<
        (),
        GameError,
    >)
        ensures
            (final(env)@, Handler::Fischl(*final(self)), r) == ability_effect(
                old(env)@,
                info,
                Handler::Fischl(*old(self)),
                SkillType::NormalAttack,
            ),
    {
        env.damage(info.target_player, info.target_character, NORMAL_ATTACK_DAMAGE);
        Ok(())
    }

    /// Summons Oz into the acting player's area, or refreshes it there.
    fn on_e_skill(&mut self, info: OperationContext, env: &mut GameEnvironment) -> (r: Result<
        (),
        GameError,
    >)
        ensures
            (final(env)@, Handler::Fischl(*final(self)), r) == ability_effect(
                old(env)@,
                info,
                Handler::Fischl(*old(self)),
                SkillType::ESkill,
            ),
    {
        env.summon_oz(info.subject_player)
    }

    fn on_q_skill(&mut self, info: OperationContext, env: &mut GameEnvironment) -> (r: Result<
        (),
        GameError,
    >)
        ensures
            (final(env)@, Handler::Fischl(*final(self)), r) == ability_effect(
                old(env)@,
                info,
                Handler::Fischl(*old(self)),
                SkillType::QSkill,
            ),
    {
        Ok(())
    }
}

impl CharacterHandler for GanyuHandler {
    fn on_normal_attack(&mut self, info: OperationContext, env: &mut GameEnvironment) -> (r: Result<
        (),
        GameError,
    >)
        ensures
            (final(env)@, Handler::Ganyu(*final(self)), r) == ability_effect(
                old(env)@,
                info,
                Handler::Ganyu(*old(self)),
                SkillType::NormalAttack,
            ),
    {
        env.damage(info.target_player, info.target_character, NORMAL_ATTACK_DAMAGE);
        Ok(())
    }

    fn on_e_skill(&mut self, info: OperationContext, env: &mut GameEnvironment) -> (r: Result<
        (),
        GameError,
    >)
        ensures
            (final(env)@, Handler::Ganyu(*final(self)), r) == ability_effect(
                old(env)@,
                info,
                Handler::Ganyu(*old(self)),
                SkillType::ESkill,
            ),
    {
        Ok(())
    }

    fn on_q_skill(&mut self, info: OperationContext, env: &mut GameEnvironment) -> (r: Result<
        (),
        GameError,
    >)
        ensures
            (final(env)@, Handler::Ganyu(*final(self)), r) == ability_effect(
                old(env)@,
                info,
                Handler::Ganyu(*old(self)),
                SkillType::QSkill,
            ),
    {
        Ok(())
    }
}

impl Handler {
    /// Runs ability `skill` of this handler in context `info`.
    pub fn invoke(&mut self, skill: SkillType, info: OperationContext, env: &mut GameEnvironment) -> (r:
        Result<(), GameError>)
        requires
            old(env).wf(),
            context_in_range(info),
        ensures
            final(env).wf(),
            (final(env)@, *final(self), r) == ability_effect(old(env)@, info, *old(self), skill),
    {
        match self {
            Handler::Yoimiya(h) => match skill {
                SkillType::NormalAttack => h.on_normal_attack(info, env),
                SkillType::ESkill => h.on_e_skill(info, env),
                SkillType::QSkill => h.on_q_skill(info, env),
            },
            Handler::Fischl(h) => match skill {
                SkillType::NormalAttack => h.on_normal_attack(info, env),
                SkillType::ESkill => h.on_e_skill(info, env),
                SkillType::QSkill => h.on_q_skill(info, env),
            },
            Handler::Ganyu(h) => match skill {
                SkillType::NormalAttack => h.on_normal_attack(info, env),
                SkillType::ESkill => h.on_e_skill(info, env),
                SkillType::QSkill => h.on_q_skill(info, env),
            },
        }
    }
}

impl Character {
    /// The cost of ability `skill`: whether the dice must all be of this
    /// character's element (wildcards count), and how many dice.
    pub open spec fn cost_of(self, skill: SkillType) -> (bool, int) {
        match skill {
            SkillType::NormalAttack => (false, NORMAL_ATTACK_COST as int),
            SkillType::ESkill => (true, self.e_cost as int),
            SkillType::QSkill => (true, self.q_cost as int),
        }
    }

    /// The cost of ability `skill`, as `cost_of` states it.
    pub fn skill_cost(&self, skill: SkillType) -> (r: (bool, usize))
        ensures
            (r.0, r.1 as int) == self.cost_of(skill),
    {
        match skill {
            SkillType::NormalAttack => (false, NORMAL_ATTACK_COST),
            SkillType::ESkill => (true, self.e_cost),
            SkillType::QSkill => (true, self.q_cost),
        }
    }
}

/// Hit points every roster character starts with.
pub const STARTING_HP: usize = 10;

/// Fischl as the roster starts her.
pub open spec fn fischl_spec() -> Character {
    Character {
        name: "Fischl",
        max_hp: STARTING_HP,
        hp: STARTING_HP,
        e_cost: 3,
        q_cost: 4,
        element: ElementType::Electro,
        handler: Handler::Fischl(FischlHandler {}),
    }
}

/// Fischl, an Electro character.
pub fn fischl() -> (c: Character)
    ensures
        c == fischl_spec(),
{
    Character {
        name: "Fischl",
        max_hp: STARTING_HP,
        hp: STARTING_HP,
        e_cost: 3,
        q_cost: 4,
        element: ElementType::Electro,
        handler: Handler::Fischl(FischlHandler {}),
    }
}

/// Ganyu as the roster starts her.
pub open spec fn ganyu_spec() -> Character {
    Character {
        name: "Ganyu",
        max_hp: STARTING_HP,
        hp: STARTING_HP,
        e_cost: 1,
        q_cost: 3,
        element: ElementType::Cryo,
        handler: Handler::Ganyu(GanyuHandler {}),
    }
}

/// Ganyu, a Cryo character.
pub fn ganyu() -> (c: Character)
    ensures
        c == ganyu_spec(),
{
    Character {
        name: "Ganyu",
        max_hp: STARTING_HP,
        hp: STARTING_HP,
        e_cost: 1,
        q_cost: 3,
        element: ElementType::Cryo,
        handler: Handler::Ganyu(GanyuHandler {}),
    }
}

/// Yoimiya as the roster starts her.
pub open spec fn yoimiya_spec() -> Character {
    Character {
        name: "Yoimiya",
        max_hp: STARTING_HP,
        hp: STARTING_HP,
        e_cost: 1,
        q_cost: 3,
        element: ElementType::Pyro,
        handler: Handler::Yoimiya(YoimiyaHandler { pyro_attached: false }),
    }
}

/// Yoimiya, a Pyro character.
pub fn yoimiya() -> (c: Character)
    ensures
        c == yoimiya_spec(),
{
    Character {
        name: "Yoimiya",
        max_hp: STARTING_HP,
        hp: STARTING_HP,
        e_cost: 1,
        q_cost: 3,
        element: ElementType::Pyro,
        handler: Handler::Yoimiya(YoimiyaHandler { pyro_attached: false }),
    }
}

} // verus!
