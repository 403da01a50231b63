use tcg_engine::cards::{Card, EmptyCard, Oz, Summon, Support};
use tcg_engine::characters::{fischl, ganyu, yoimiya, Handler, YoimiyaHandler};
use tcg_engine::dice_set::ElementType;
use tcg_engine::game_environment::{GameEnvironment, GameError, Reaction, TurnPhase};
use tcg_engine::game_events::{GameEvent, SkillType};
use tcg_engine::operation_context::OperationContext;
use tcg_engine::player::Player;

use ElementType::{Anemo, Cryo, Dendro, Electro, Geo, Hydro, Null, Pyro, Universal};

const FIRST_DRAWS: [u8; 16] = [1, 1, 1, 0, 3, 4, 2, 5, 7, 6, 5, 4, 3, 2, 1, 0];

fn started() -> GameEnvironment {
    let mut env = GameEnvironment::new();
    let r = env.apply_event(&GameEvent::TurnStart, &FIRST_DRAWS.to_vec());
    assert!(matches!(r, Ok(Reaction::Nothing)));
    env
}

fn valid(env: &GameEnvironment, p: usize) -> Vec<ElementType> {
    let d = &env.players[p].dice_set;
    d.dices[..d.dice_count].to_vec()
}

fn hp(env: &GameEnvironment, p: usize, c: usize) -> usize {
    env.players[p].characters[c].hp
}

#[test]
fn turn_start_gives_sorted_pools() {
    let env = started();
    assert_eq!(env.phase, TurnPhase::Acting);
    assert_eq!(valid(&env, 0), vec![Universal, Electro, Electro, Electro, Pyro, Cryo, Hydro, Anemo]);
    assert_eq!(valid(&env, 1), vec![Universal, Electro, Pyro, Cryo, Hydro, Anemo, Geo, Dendro]);
    for p in 0..2 {
        assert_eq!(env.players[p].reroll_chances, 1);
        assert!(env.players[p].dice_set.dices[8..].iter().all(|e| *e == Null));
    }
}

#[test]
fn end_to_end_turn_cycle() {
    let mut env = started();
    assert!(matches!(env.apply_event(&GameEvent::ChangeActive(0, 1), &vec![]), Ok(Reaction::Nothing)));
    let cost = env.players[0].dice_set.find_dice(true, Electro, 3).unwrap();
    assert_eq!(cost, vec![3, 2, 1]);
    let r = env.apply_event(&GameEvent::UseSkill(0, SkillType::ESkill, cost), &vec![]);
    assert!(matches!(r, Ok(Reaction::Nothing)));
    assert_eq!(env.players[0].dice_set.dice_count, 5);
    assert_eq!(valid(&env, 0), vec![Universal, Pyro, Cryo, Hydro, Anemo]);
    assert_eq!(env.players[0].summoned_area, vec![Summon::Oz(Oz { lifetime: 2 })]);

    let r = env.apply_event(&GameEvent::DeclareEndOfTurn(0), &vec![]);
    assert!(matches!(r, Ok(Reaction::Enqueue(GameEvent::TurnEnd))));
    assert_eq!(env.phase, TurnPhase::TurnEnd);
    let r = env.apply_event(&GameEvent::TurnEnd, &vec![]);
    assert!(matches!(r, Ok(Reaction::Enqueue(GameEvent::TurnStart))));
    assert_eq!(env.phase, TurnPhase::TurnStart);
    assert_eq!(hp(&env, 1, 0), 9);
    assert_eq!(env.players[0].summoned_area, vec![Summon::Oz(Oz { lifetime: 1 })]);

    env.players[0].reroll_chances = 0;
    let draws = vec![0, 0, 0, 0, 0, 0, 0, 0, 7, 7, 7, 7, 7, 7, 7, 7];
    let r = env.apply_event(&GameEvent::TurnStart, &draws);
    assert!(matches!(r, Ok(Reaction::Nothing)));
    assert_eq!(env.phase, TurnPhase::Acting);
    assert_eq!(valid(&env, 0), vec![Universal; 8]);
    assert_eq!(valid(&env, 1), vec![Dendro; 8]);
    assert_eq!(env.players[0].reroll_chances, 1);
    assert_eq!(env.players[1].reroll_chances, 1);
}

#[test]
fn random_turn_cycle_through_handle_message() {
    let mut env = GameEnvironment::new();
    assert!(matches!(env.handle_message(&GameEvent::TurnStart), Ok(Reaction::Nothing)));
    for p in 0..2 {
        assert_eq!(env.players[p].dice_set.dice_count, 8);
        let d = valid(&env, p);
        assert!(d.iter().all(|e| *e != Null));
        let wild = d.iter().filter(|e| **e == Universal).count();
        assert!(d[..wild].iter().all(|e| *e == Universal));
        let dealt = env.players[p].dice_set.dices.clone();
        let mut copy = tcg_engine::dice_set::DiceSet { dices: dealt.clone(), dice_count: 8 };
        copy.sort_dice(env.players[p].get_character_elements());
        assert_eq!(copy.dices, dealt);
    }
    let r = env.handle_message(&GameEvent::RerollDice(0, vec![0, 5]));
    assert!(matches!(r, Ok(Reaction::Nothing)));
    assert_eq!(env.players[0].reroll_chances, 0);
    assert_eq!(env.players[0].dice_set.dice_count, 8);
}

#[test]
fn summon_lasts_two_turn_ends() {
    let mut env = started();
    env.apply_event(&GameEvent::ChangeActive(0, 1), &vec![]).ok().unwrap();
    env.apply_event(&GameEvent::UseSkill(0, SkillType::ESkill, vec![1, 2, 3]), &vec![]).ok().unwrap();
    assert_eq!(env.players[0].summoned_slot(0), Summon::Oz(Oz { lifetime: 2 }));
    env.apply_event(&GameEvent::TurnEnd, &vec![]).ok().unwrap();
    assert_eq!(env.players[0].summoned_slot(0), Summon::Oz(Oz { lifetime: 1 }));
    assert_eq!(hp(&env, 1, 0), 9);
    env.apply_event(&GameEvent::TurnEnd, &vec![]).ok().unwrap();
    assert_eq!(hp(&env, 1, 0), 8);
    assert!(env.players[0].summoned_area.is_empty());
    assert_eq!(env.players[0].summoned_slot(0), Summon::Empty(EmptyCard {}));
    env.apply_event(&GameEvent::TurnEnd, &vec![]).ok().unwrap();
    assert_eq!(hp(&env, 1, 0), 8);
}

#[test]
fn oz_hits_the_opponents_active_character() {
    let mut env = started();
    env.players[0].summoned_area.push(Summon::Oz(Oz { lifetime: 2 }));
    env.players[1].active_character = 2;
    env.apply_event(&GameEvent::TurnEnd, &vec![]).ok().unwrap();
    assert_eq!(hp(&env, 1, 2), 9);
    assert_eq!(hp(&env, 1, 0), 10);
    assert_eq!(hp(&env, 0, 0), 10);
}

#[test]
fn fischl_skill_refreshes_oz_in_place() {
    let mut env = started();
    env.players[0].summoned_area.push(Summon::Empty(EmptyCard {}));
    env.players[0].summoned_area.push(Summon::Oz(Oz { lifetime: 1 }));
    env.players[0].active_character = 1;
    env.apply_event(&GameEvent::UseSkill(0, SkillType::ESkill, vec![1, 2, 3]), &vec![]).ok().unwrap();
    assert_eq!(
        env.players[0].summoned_area,
        vec![Summon::Empty(EmptyCard {}), Summon::Oz(Oz { lifetime: 2 })]
    );
}

#[test]
fn full_summon_area_rejects_the_skill() {
    let mut env = started();
    for _ in 0..4 {
        env.players[0].summoned_area.push(Summon::Empty(EmptyCard {}));
    }
    env.players[0].active_character = 1;
    let before = env.players[0].dice_set.dices.clone();
    let r = env.apply_event(&GameEvent::UseSkill(0, SkillType::ESkill, vec![1, 2, 3]), &vec![]);
    assert!(matches!(r, Err(GameError::SlotAreaFull)));
    assert_eq!(env.players[0].dice_set.dices, before);
    assert_eq!(env.players[0].dice_set.dice_count, 8);
    assert_eq!(env.players[0].summoned_area.len(), 4);
}

#[test]
fn skill_rejections_change_nothing() {
    let mut env = started();
    env.players[0].active_character = 1;
    let before = env.players[0].dice_set.dices.clone();
    let cases: Vec<(Vec<usize>, GameError)> = vec![
        (vec![1, 2, 8], GameError::InvalidIndex),
        (vec![1, 1, 2], GameError::InvalidIndex),
        (vec![1, 2], GameError::InsufficientResources),
        (vec![1, 2, 4], GameError::InsufficientResources),
    ];
    for (cost, err) in cases {
        let r = env.apply_event(&GameEvent::UseSkill(0, SkillType::ESkill, cost), &vec![]);
        assert!(matches!(r, Err(e) if e == err));
        assert_eq!(env.players[0].dice_set.dices, before);
        assert!(env.players[0].summoned_area.is_empty());
    }
    let r = env.apply_event(&GameEvent::UseSkill(2, SkillType::ESkill, vec![]), &vec![]);
    assert!(matches!(r, Err(GameError::InvalidIndex)));
    // A wildcard pays for an element.
    let r = env.apply_event(&GameEvent::UseSkill(0, SkillType::ESkill, vec![0, 1, 2]), &vec![]);
    assert!(matches!(r, Ok(Reaction::Nothing)));
}

#[test]
fn yoimiya_skill_kindles_her_attack() {
    let mut env = started();
    env.apply_event(&GameEvent::UseSkill(0, SkillType::NormalAttack, vec![6, 7]), &vec![]).ok().unwrap();
    assert_eq!(hp(&env, 1, 0), 8);
    assert_eq!(env.players[0].dice_set.dice_count, 6);
    env.apply_event(&GameEvent::UseSkill(0, SkillType::ESkill, vec![4]), &vec![]).ok().unwrap();
    assert_eq!(env.players[0].characters[0].handler, Handler::Yoimiya(YoimiyaHandler { pyro_attached: true }));
    env.apply_event(&GameEvent::UseSkill(0, SkillType::NormalAttack, vec![0, 1]), &vec![]).ok().unwrap();
    assert_eq!(hp(&env, 1, 0), 4);
    env.apply_event(&GameEvent::UseSkill(0, SkillType::NormalAttack, vec![0, 1]), &vec![]).ok().unwrap();
    assert_eq!(hp(&env, 1, 0), 0);
    assert_eq!(env.players[0].dice_set.dice_count, 1);
}

#[test]
fn ganyu_attacks_and_her_skills_only_cost_dice() {
    let mut env = started();
    env.players[1].active_character = 2;
    env.apply_event(&GameEvent::UseSkill(1, SkillType::NormalAttack, vec![6, 7]), &vec![]).ok().unwrap();
    assert_eq!(hp(&env, 0, 0), 8);
    // Player two's pool is Universal, Electro, Pyro, Cryo, Hydro, Anemo.
    env.apply_event(&GameEvent::UseSkill(1, SkillType::QSkill, vec![0, 3, 2]), &vec![]).err().unwrap();
    let r = env.apply_event(&GameEvent::UseSkill(1, SkillType::QSkill, vec![0, 3, 1]), &vec![]);
    assert!(matches!(r, Err(GameError::InsufficientResources)));
    env.apply_event(&GameEvent::UseSkill(1, SkillType::ESkill, vec![3]), &vec![]).ok().unwrap();
    assert_eq!(hp(&env, 0, 0), 8);
    assert_eq!(env.players[1].dice_set.dice_count, 5);
}

#[test]
fn reroll_rules() {
    let mut env = started();
    let r = env.apply_event(&GameEvent::RerollDice(0, vec![8]), &vec![0]);
    assert!(matches!(r, Err(GameError::InvalidIndex)));
    let r = env.apply_event(&GameEvent::RerollDice(0, vec![7, 6]), &vec![7, 6]);
    assert!(matches!(r, Ok(Reaction::Nothing)));
    assert_eq!(valid(&env, 0), vec![Universal, Electro, Electro, Electro, Pyro, Cryo, Geo, Dendro]);
    assert_eq!(env.players[0].reroll_chances, 0);
    let before = env.players[0].dice_set.dices.clone();
    let r = env.apply_event(&GameEvent::RerollDice(0, vec![0]), &vec![3]);
    assert!(matches!(r, Err(GameError::RerollExhausted)));
    assert_eq!(env.players[0].dice_set.dices, before);

    let r = env.apply_event(&GameEvent::RerollDice(1, vec![]), &vec![]);
    assert!(matches!(r, Ok(Reaction::Nothing)));
    assert_eq!(env.players[1].reroll_chances, 0);
    let r = env.apply_event(&GameEvent::RerollDice(3, vec![]), &vec![]);
    assert!(matches!(r, Err(GameError::InvalidIndex)));
}

#[test]
fn change_active_checks_range() {
    let mut env = started();
    assert!(matches!(env.apply_event(&GameEvent::ChangeActive(1, 2), &vec![]), Ok(Reaction::Nothing)));
    assert_eq!(env.players[1].active_character, 2);
    assert!(matches!(env.apply_event(&GameEvent::ChangeActive(1, 3), &vec![]), Err(GameError::InvalidIndex)));
    assert!(matches!(env.apply_event(&GameEvent::ChangeActive(2, 0), &vec![]), Err(GameError::InvalidIndex)));
    assert_eq!(env.players[1].active_character, 2);
}

#[test]
fn action_cards_are_discarded() {
    let mut env = started();
    let r = env.apply_event(&GameEvent::UseActionCard(0, 0, 0), &vec![]);
    assert!(matches!(r, Err(GameError::InvalidIndex)));
    env.players[0].hand.cards.push(Card::Empty(EmptyCard {}));
    let r = env.apply_event(&GameEvent::UseActionCard(0, 0, 3), &vec![]);
    assert!(matches!(r, Err(GameError::InvalidIndex)));
    assert_eq!(env.players[0].hand.cards.len(), 1);
    let r = env.apply_event(&GameEvent::UseActionCard(0, 0, 1), &vec![]);
    assert!(matches!(r, Ok(Reaction::Nothing)));
    assert!(env.players[0].hand.cards.is_empty());
}

#[test]
fn setup_client_lists_both_rosters() {
    let mut env = GameEnvironment::new();
    match env.apply_event(&GameEvent::SetupClient(1), &vec![]) {
        Ok(Reaction::SendSetup(m)) => {
            assert_eq!(m.player_index, 1);
            assert_eq!(m.player_characters, vec!["Yoimiya", "Fischl", "Ganyu"]);
            assert_eq!(m.opponent_characters, vec!["Yoimiya", "Fischl", "Ganyu"]);
        }
        _ => panic!("expected a roster snapshot"),
    }
    assert!(matches!(env.apply_event(&GameEvent::SetupClient(2), &vec![]), Err(GameError::InvalidIndex)));
}

#[test]
fn seats_fill_up() {
    let mut env = GameEnvironment::new();
    assert_eq!(env.add_player(), Some(0));
    assert_eq!(env.add_player(), Some(1));
    assert_eq!(env.add_player(), None);
    assert_eq!(env.active_players, 2);
}

#[test]
fn terminated_match_ignores_commands() {
    let mut env = started();
    assert!(matches!(env.apply_event(&GameEvent::Terminate, &vec![]), Ok(Reaction::Stop)));
    assert!(env.game_ended);
    assert_eq!(env.phase, TurnPhase::MatchEnded);
    assert!(matches!(env.apply_event(&GameEvent::ChangeActive(0, 2), &vec![]), Ok(Reaction::Stop)));
    assert_eq!(env.players[0].active_character, 0);
    assert!(matches!(env.handle_message(&GameEvent::TurnStart), Ok(Reaction::Stop)));
}

#[test]
fn declare_end_of_turn_checks_player() {
    let mut env = started();
    assert!(matches!(env.apply_event(&GameEvent::DeclareEndOfTurn(2), &vec![]), Err(GameError::InvalidIndex)));
    assert_eq!(env.phase, TurnPhase::Acting);
}

#[test]
fn slot_areas_hold_four() {
    let mut p = Player::new();
    for _ in 0..4 {
        assert_eq!(p.insert_support(Support::Empty(EmptyCard {})), Ok(()));
    }
    assert_eq!(p.insert_support(Support::Empty(EmptyCard {})), Err(GameError::SlotAreaFull));
    p.remove_support(0);
    assert_eq!(p.support_area.len(), 3);
    assert_eq!(p.insert_summoned(Summon::Oz(Oz { lifetime: 1 })), Ok(()));
    assert_eq!(p.insert_summoned(Summon::Oz(Oz { lifetime: 2 })), Ok(()));
    p.remove_summoned(0);
    assert_eq!(p.summoned_area, vec![Summon::Oz(Oz { lifetime: 2 })]);
    assert_eq!(p.summoned_slot(1), Summon::Empty(EmptyCard {}));
    for _ in 0..3 {
        assert_eq!(p.insert_summoned(Summon::Empty(EmptyCard {})), Ok(()));
    }
    assert_eq!(p.insert_summoned(Summon::Empty(EmptyCard {})), Err(GameError::SlotAreaFull));
}

#[test]
fn new_player_and_roster() {
    let p = Player::new();
    assert_eq!(p.get_character_elements(), vec![Pyro, Electro, Cryo]);
    assert_eq!(p.active_character, 0);
    assert_eq!(p.reroll_chances, 0);
    assert_eq!(p.dice_set.dice_count, 0);
    let f = fischl();
    assert_eq!((f.name, f.hp, f.max_hp, f.e_cost, f.q_cost, f.element), ("Fischl", 10, 10, 3, 4, Electro));
    let g = ganyu();
    assert_eq!((g.name, g.e_cost, g.q_cost, g.element), ("Ganyu", 1, 3, Cryo));
    let y = yoimiya();
    assert_eq!((y.name, y.e_cost, y.q_cost, y.element), ("Yoimiya", 1, 3, Pyro));
}

#[test]
fn operation_context_targets_the_other_player() {
    let c = OperationContext::new(1, 2, 0);
    assert_eq!((c.subject_player, c.subject_character, c.target_player, c.target_character), (1, 2, 0, 0));
    let c = OperationContext::new(0, 1, 2);
    assert_eq!(c.target_player, 1);
}

#[test]
fn dice_codes_for_clients() {
    let env = started();
    let codes = env.players[1].dice_codes();
    assert_eq!(codes, vec![0, 1, 3, 4, 2, 5, 6, 7, 8, 8, 8, 8, 8, 8, 8, 8]);
}
