use midway::boss::{boss_broadcasts, kraken_name, BossTurn, Encounter, BOSS_TEXTURE};
use midway::ship::{ShipStatus, ShootingState};

#[test]
fn boss_is_called_kraken() {
    assert_eq!(kraken_name(), b"Kraken".to_vec());
}

#[test]
fn no_boss_at_the_start() {
    let mut encounter = Encounter::new();
    assert!(!encounter.is_present());
    assert!(encounter.targets.is_empty());
    assert_eq!(encounter.resolve(), BossTurn::Idle);
    assert!(boss_broadcasts(BossTurn::Idle).is_empty());
}

#[test]
fn boss_rises_only_when_all_conditions_hold() {
    for bits in 0..8u32 {
        let elapsed = bits & 1 != 0;
        let roll = bits & 2 != 0;
        let beyond = bits & 4 != 0;
        let mut encounter = Encounter::new();
        assert_eq!(encounter.spawn_allowed(elapsed), elapsed);
        let spawned = encounter.try_spawn(3, elapsed, roll, beyond);
        assert_eq!(spawned, elapsed && roll && beyond);
        assert_eq!(encounter.is_present(), spawned);
        assert_eq!(encounter.targets, if spawned { vec![3] } else { vec![] });
    }
}

#[test]
fn second_boss_never_rises() {
    let mut encounter = Encounter::new();
    assert!(encounter.try_spawn(0, true, true, true));
    assert_eq!(encounter.fire_on_boss(true, true, false), ShootingState::Hit);
    let before = encounter.boss;
    assert!(!encounter.spawn_allowed(true));
    assert!(!encounter.try_spawn(1, true, true, true));
    assert_eq!(encounter.boss, before);
    assert_eq!(encounter.targets, vec![0]);
}

#[test]
fn boss_holds_ships_within_reach() {
    let mut encounter = Encounter::new();
    assert!(!encounter.engage(0, true));
    assert!(encounter.try_spawn(1, true, true, true));
    assert!(encounter.engage(2, true));
    assert!(!encounter.engage(3, false));
    assert_eq!(encounter.targets, vec![1, 2]);
}

#[test]
fn boss_attacks_one_of_the_held() {
    let mut encounter = Encounter::new();
    assert!(encounter.try_spawn(4, true, true, true));
    assert!(encounter.engage(9, true));
    let mut seen_four = false;
    let mut seen_nine = false;
    for _ in 0..200 {
        encounter.targets = vec![4, 9];
        match encounter.resolve() {
            BossTurn::Attack(4) => seen_four = true,
            BossTurn::Attack(9) => seen_nine = true,
            other => panic!("unexpected {other:?}"),
        }
        assert!(encounter.is_present());
        assert!(encounter.targets.is_empty());
    }
    assert!(seen_four && seen_nine);
}

#[test]
fn boss_with_one_held_ship_attacks_it() {
    let mut encounter = Encounter::new();
    assert!(encounter.try_spawn(7, true, true, true));
    assert_eq!(encounter.resolve(), BossTurn::Attack(7));
    assert!(boss_broadcasts(BossTurn::Attack(7)).is_empty());
}

#[test]
fn boss_without_targets_leaves_with_one_notice() {
    let mut encounter = Encounter::new();
    assert!(encounter.try_spawn(7, true, true, true));
    assert_eq!(encounter.resolve(), BossTurn::Attack(7));
    let turn = encounter.resolve();
    assert_eq!(turn, BossTurn::Lost);
    assert!(!encounter.is_present());
    assert_eq!(boss_broadcasts(turn), vec![b"sunk Kraken\n".to_vec()]);
    assert_eq!(encounter.resolve(), BossTurn::Idle);
}

#[test]
fn sunk_boss_leaves_with_one_notice() {
    let mut encounter = Encounter::new();
    assert!(encounter.try_spawn(7, true, true, true));
    assert_eq!(encounter.fire_on_boss(true, true, true), ShootingState::Sunk);
    assert!(encounter.engage(8, true));
    let turn = encounter.resolve();
    assert_eq!(turn, BossTurn::Sunk);
    assert!(!encounter.is_present());
    assert!(encounter.targets.is_empty());
    assert_eq!(boss_broadcasts(turn), vec![b"sunk Kraken\n".to_vec()]);
}

#[test]
fn firing_on_the_boss() {
    let mut encounter = Encounter::new();
    assert_eq!(encounter.fire_on_boss(true, true, true), ShootingState::NotFired);
    assert!(encounter.try_spawn(0, true, true, true));
    assert_eq!(encounter.fire_on_boss(false, true, true), ShootingState::NotFired);
    assert_eq!(encounter.fire_on_boss(true, false, true), ShootingState::Miss);
    assert_eq!(encounter.boss, Some(ShipStatus::new()));
    assert_eq!(encounter.fire_on_boss(true, true, false), ShootingState::Hit);
    assert_eq!(encounter.fire_on_boss(true, true, true), ShootingState::Sunk);
    assert!(encounter.boss.unwrap().sunk);
}

#[test]
fn resolve_with_a_given_draw() {
    let mut encounter = Encounter::new();
    assert_eq!(encounter.resolve_with(Some(1)), BossTurn::Idle);
    assert!(encounter.try_spawn(1, true, true, true));
    assert_eq!(encounter.resolve_with(Some(1)), BossTurn::Attack(1));
    assert!(encounter.is_present());
    assert_eq!(encounter.resolve_with(None), BossTurn::Lost);
    assert!(!encounter.is_present());
}

#[test]
fn boss_texture_is_the_eighth() {
    assert_eq!(BOSS_TEXTURE, 8);
}
