use tcg_engine::dice_set::{DiceSet, ElementType};

use ElementType::{Anemo, Cryo, Dendro, Electro, Geo, Hydro, Null, Pyro, Universal};

fn pool(dice: &[ElementType]) -> DiceSet {
    let mut dices = dice.to_vec();
    while dices.len() < 16 {
        dices.push(Null);
    }
    DiceSet { dices, dice_count: dice.len() }
}

fn valid(d: &DiceSet) -> Vec<ElementType> {
    d.dices[..d.dice_count].to_vec()
}

#[test]
fn roll_fills_eight_of_sixteen_slots() {
    let mut d = DiceSet::default();
    for _ in 0..50 {
        d.roll_dices();
        assert_eq!(d.dice_count, 8);
        assert_eq!(d.dices.len(), 16);
        assert!(d.dices[..8].iter().all(|e| *e != Null));
        assert!(d.dices[8..].iter().all(|e| *e == Null));
    }
}

#[test]
fn roll_draws_every_category_about_equally() {
    let mut counts = [0usize; 9];
    let mut d = DiceSet::default();
    for _ in 0..2000 {
        d.roll_dices();
        for e in &d.dices[..8] {
            counts[e.int_value() as usize] += 1;
        }
    }
    assert_eq!(counts[8], 0);
    for c in &counts[..8] {
        assert!(*c > 1500 && *c < 2500, "category drawn {} times of 16000", c);
    }
}

#[test]
fn roll_from_given_draws() {
    let mut d = DiceSet::default();
    d.roll_from(&vec![0, 1, 2, 3, 4, 5, 6, 7]);
    assert_eq!(d.dice_count, 8);
    assert_eq!(valid(&d), vec![Universal, Electro, Hydro, Pyro, Cryo, Anemo, Geo, Dendro]);
    assert!(d.dices[8..].iter().all(|e| *e == Null));
}

#[test]
fn default_pool_is_empty() {
    let d = DiceSet::default();
    assert_eq!(d.dice_count, 0);
    assert_eq!(d.dices, vec![Null; 16]);
}

#[test]
fn reroll_keeps_count_and_other_slots() {
    let mut d = pool(&[Pyro, Hydro, Cryo]);
    d.reroll_dice(1);
    assert_eq!(d.dice_count, 3);
    assert_eq!(d.dices[0], Pyro);
    assert_eq!(d.dices[2], Cryo);
    assert_ne!(d.dices[1], Null);
    d.set_die(1, 0);
    assert_eq!(d.dices[1], Universal);
}

#[test]
fn codes_round_trip() {
    for v in 0..=8i8 {
        let e = ElementType::from_int(v).unwrap();
        assert_eq!(e.int_value(), v);
    }
    assert_eq!(ElementType::from_int(9), None);
    assert_eq!(ElementType::from_int(-1), None);
    assert_eq!(ElementType::from_int(3), Some(Pyro));
}

#[test]
fn sort_puts_wildcards_then_own_elements_first() {
    let mut d = pool(&[Hydro, Universal, Cryo, Geo, Pyro, Universal, Electro, Dendro]);
    d.sort_dice(vec![Pyro, Electro, Cryo]);
    assert_eq!(valid(&d), vec![Universal, Universal, Electro, Pyro, Cryo, Hydro, Geo, Dendro]);
    assert_eq!(d.dice_count, 8);
    assert!(d.dices[8..].iter().all(|e| *e == Null));
}

#[test]
fn sort_without_priority_is_by_rank() {
    let mut d = pool(&[Dendro, Anemo, Electro, Universal, Hydro]);
    d.sort_dice(vec![]);
    assert_eq!(valid(&d), vec![Universal, Electro, Hydro, Anemo, Dendro]);
}

#[test]
fn sort_is_idempotent() {
    let mut d = pool(&[Geo, Pyro, Universal, Hydro, Pyro, Cryo, Electro, Universal]);
    let prio = vec![Pyro, Electro, Cryo];
    d.sort_dice(prio.clone());
    let once = d.dices.clone();
    d.sort_dice(prio);
    assert_eq!(d.dices, once);
}

#[test]
fn find_example_takes_rightmost_matches() {
    let d = pool(&[Pyro, Pyro, Cryo, Universal, Hydro]);
    assert_eq!(d.find_dice(true, Pyro, 2), Some(vec![3, 1]));
}

#[test]
fn find_auto_picks_an_element_with_enough_dice() {
    let d = pool(&[Universal, Hydro, Pyro, Hydro, Cryo, Pyro, Pyro]);
    let r = d.find_dice(true, Null, 3).unwrap();
    assert_eq!(r.len(), 3);
    // Hydro reaches three (two Hydro and a wildcard) at the fourth die.
    assert_eq!(r, vec![3, 1, 0]);
    for i in &r {
        assert!(d.dices[*i] == Hydro || d.dices[*i] == Universal);
    }
}

#[test]
fn find_auto_fails_without_enough_of_one_element() {
    let d = pool(&[Universal, Hydro, Pyro, Cryo, Geo]);
    assert_eq!(d.find_dice(true, Null, 3), None);
    assert_eq!(d.find_dice(true, Null, 2).map(|v| v.len()), Some(2));
}

#[test]
fn find_auto_on_wildcards_alone() {
    let d = pool(&[Universal, Universal, Universal]);
    assert_eq!(d.find_dice(true, Null, 2), Some(vec![2, 1]));
    assert_eq!(d.find_dice(true, Null, 4), None);
}

#[test]
fn find_any_takes_the_last_dice() {
    let d = pool(&[Pyro, Hydro, Cryo, Geo]);
    assert_eq!(d.find_dice(false, Null, 3), Some(vec![3, 2, 1]));
    assert_eq!(d.find_dice(false, Pyro, 5), None);
}

#[test]
fn find_named_element_without_enough() {
    let d = pool(&[Pyro, Hydro, Cryo]);
    assert_eq!(d.find_dice(true, Pyro, 2), None);
    assert_eq!(d.find_dice(true, Cryo, 1), Some(vec![2]));
}

#[test]
fn find_zero_dice() {
    let d = pool(&[Pyro]);
    assert_eq!(d.find_dice(true, Null, 0), Some(vec![]));
    assert_eq!(DiceSet::default().find_dice(false, Null, 0), Some(vec![]));
}

#[test]
fn spend_drops_count_and_resorts() {
    let mut d = pool(&[Universal, Electro, Pyro, Pyro, Cryo, Hydro, Geo, Dendro]);
    d.spend_dice(&vec![7, 1, 3], vec![Pyro, Electro, Cryo]);
    assert_eq!(d.dice_count, 5);
    assert_eq!(valid(&d), vec![Universal, Pyro, Cryo, Hydro, Geo]);
    assert!(d.dices[5..].iter().all(|e| *e == Null));
}

#[test]
fn spend_everything() {
    let mut d = pool(&[Pyro, Hydro]);
    d.spend_dice(&vec![0, 1], vec![]);
    assert_eq!(d.dice_count, 0);
    assert_eq!(d.dices, vec![Null; 16]);
}

#[test]
fn selection_checks() {
    let d = pool(&[Pyro, Hydro, Cryo]);
    assert!(d.check_selection(&vec![2, 0]));
    assert!(d.check_selection(&vec![]));
    assert!(!d.check_selection(&vec![3]));
    assert!(!d.check_selection(&vec![1, 1]));
    assert!(d.dice_match(&vec![0], Pyro));
    assert!(!d.dice_match(&vec![0, 1], Pyro));
}
