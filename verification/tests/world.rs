use midway::boss::BossTurn;
use midway::clock::{lag_warning, sleep_after, tick_budget, TPS};
use midway::ship::ShipStatus;
use midway::stats::ShipType;
use midway::world::World;

fn names(world: &World<u32>) -> Vec<Vec<u8>> {
    world.sessions.iter().map(|s| s.name.clone()).collect()
}

#[test]
fn world_starts_empty() {
    let world: World<u32> = World::new();
    assert!(world.is_empty());
    assert!(!world.encounter.is_present());
    assert_eq!(world.find(b"Nelson"), None);
}

#[test]
fn join_adds_a_new_ship_at_the_end() {
    let mut world: World<u32> = World::new();
    assert!(world.join(b"Nelson", ShipType::Destroyer, 10));
    assert!(world.join(b"Drake", ShipType::UBoat, 20));
    assert_eq!(world.sessions[0].cargo, 10);
    assert_eq!(world.sessions[1].cargo, 20);
    assert!(!world.is_empty());
    assert_eq!(names(&world), vec![b"Nelson".to_vec(), b"Drake".to_vec()]);
    assert_eq!(world.sessions[1].class, ShipType::UBoat);
    assert_eq!(world.sessions[1].ship, ShipStatus::new());
    assert_eq!(world.find(b"Nelson"), Some(0));
    assert_eq!(world.find(b"Drake"), Some(1));
    assert_eq!(world.find(b"Drak"), None);
}

#[test]
fn join_under_a_taken_name_changes_nothing() {
    let mut world: World<u32> = World::new();
    assert!(world.join(b"Nelson", ShipType::Destroyer, 0));
    world.sessions[0].ship.smoke = true;
    assert!(!world.join(b"Nelson", ShipType::UBoat, 5));
    assert_eq!(world.sessions.len(), 1);
    assert_eq!(world.sessions[0].cargo, 0);
    assert_eq!(world.sessions[0].class, ShipType::Destroyer);
    assert!(world.sessions[0].ship.smoke);
}

#[test]
fn leave_removes_the_ship_and_tells_the_others() {
    let mut world: World<u32> = World::new();
    assert!(world.join(b"Nelson", ShipType::Destroyer, 0));
    assert!(world.join(b"Drake", ShipType::UBoat, 0));
    assert!(world.join(b"Cook", ShipType::Bird, 0));
    assert_eq!(world.leave(b"Drake"), Some(b"sunk Drake\n".to_vec()));
    assert_eq!(names(&world), vec![b"Nelson".to_vec(), b"Cook".to_vec()]);
    assert_eq!(world.find(b"Cook"), Some(1));
    assert_eq!(world.leave(b"Drake"), None);
    assert_eq!(world.sessions.len(), 2);
    assert!(world.join(b"Drake", ShipType::Escort, 0));
    assert_eq!(world.find(b"Drake"), Some(2));
}

#[test]
fn leave_of_the_last_client_empties_the_world() {
    let mut world: World<u32> = World::new();
    assert!(world.join(b"Nelson", ShipType::Destroyer, 0));
    assert_eq!(world.leave(b"Nelson"), Some(b"sunk Nelson\n".to_vec()));
    assert!(world.is_empty());
}

#[test]
fn leave_makes_the_boss_let_go() {
    let mut world: World<u32> = World::new();
    assert!(world.join(b"Nelson", ShipType::Destroyer, 0));
    assert!(world.join(b"Drake", ShipType::UBoat, 0));
    assert!(world.try_spawn(1, true, true, true));
    assert!(world.engage(0, true));
    assert_eq!(world.encounter.targets, vec![1, 0]);
    assert!(world.leave(b"Nelson").is_some());
    assert!(world.encounter.targets.is_empty());
    assert!(world.encounter.is_present());
    assert_eq!(world.resolve(), BossTurn::Lost);
}

#[test]
fn boss_only_holds_ships_of_the_world() {
    let mut world: World<u32> = World::new();
    assert!(world.join(b"Nelson", ShipType::Destroyer, 0));
    assert!(!world.try_spawn(1, true, true, true));
    assert!(!world.encounter.is_present());
    assert!(world.try_spawn(0, true, true, true));
    assert!(!world.engage(5, true));
    assert_eq!(world.encounter.targets, vec![0]);
    assert_eq!(world.resolve(), BossTurn::Attack(0));
    assert!(world.encounter.targets.is_empty());
}

#[test]
fn world_boss_needs_every_condition() {
    let mut world: World<u32> = World::new();
    assert!(world.join(b"Nelson", ShipType::Destroyer, 0));
    assert!(!world.try_spawn(0, false, true, true));
    assert!(!world.try_spawn(0, true, false, true));
    assert!(!world.try_spawn(0, true, true, false));
    assert!(!world.engage(0, true));
    assert_eq!(world.resolve(), BossTurn::Idle);
    assert!(world.try_spawn(0, true, true, true));
    assert!(!world.try_spawn(0, true, true, true));
    assert_eq!(world.encounter.targets, vec![0]);
}

#[test]
fn tick_budget_is_a_sixtieth_of_a_second() {
    assert_eq!(TPS, 60);
    assert_eq!(tick_budget(), 16_666_666);
}

#[test]
fn sleep_fills_the_rest_of_the_budget() {
    assert_eq!(sleep_after(0), Some(16_666_666));
    assert_eq!(sleep_after(6_666_666), Some(10_000_000));
    assert_eq!(sleep_after(16_666_665), Some(1));
    assert_eq!(sleep_after(16_666_666), None);
    assert_eq!(sleep_after(1_000_000_000), None);
    assert_eq!(sleep_after(u128::MAX), None);
}

#[test]
fn lag_warning_after_more_than_a_tenth_of_a_second() {
    assert_eq!(lag_warning(0), None);
    assert_eq!(lag_warning(999_999_960), None);
    assert_eq!(lag_warning(1_000_000_000), None);
    assert_eq!(lag_warning(1_100_999_999), None);
    assert_eq!(lag_warning(1_101_000_000), Some(101));
    assert_eq!(lag_warning(3_500_000_000), Some(2500));
}

#[test]
fn sunk_ship_is_not_held_by_the_boss() {
    let mut world: World<u32> = World::new();
    assert!(world.join(b"Nelson", ShipType::Destroyer, 0));
    assert!(world.join(b"Drake", ShipType::UBoat, 0));
    assert!(world.try_spawn(0, true, true, true));
    assert!(world.sessions[1].ship.damage(true));
    assert!(!world.engage(1, true));
    assert_eq!(world.encounter.targets, vec![0]);
}

#[test]
fn session_command_uses_the_actions_of_its_class() {
    let mut world: World<u32> = World::new();
    assert!(world.join(b"Nelson", ShipType::Destroyer, 0));
    assert!(world.join(b"Drake", ShipType::UBoat, 0));
    let dive = midway::protocol::ClientMessage::Action(1);
    assert_eq!(world.sessions[0].command(&dive), midway::ship::CommandEffect::Ignored);
    assert!(!world.sessions[0].ship.submerged);
    assert_eq!(world.sessions[1].command(&dive), midway::ship::CommandEffect::Dived);
    assert!(world.sessions[1].ship.submerged);
    assert_eq!(world.sessions[1].command(&dive), midway::ship::CommandEffect::Surfaced);
    assert_eq!(world.sessions[1].name, b"Drake".to_vec());
}

#[test]
fn join_under_a_name_that_is_no_word_is_refused() {
    let mut world: World<u32> = World::new();
    assert!(!world.join(b"", ShipType::Destroyer, 0));
    assert!(!world.join(b"Lord Nelson", ShipType::Destroyer, 0));
    assert!(!world.join(b"Nelson\n", ShipType::Destroyer, 0));
    assert!(world.is_empty());
    assert!(world.join(b"Lord_Nelson", ShipType::Destroyer, 0));
}

#[test]
fn notice_of_a_departure_reads_back_as_sunk() {
    let mut world: World<u32> = World::new();
    assert!(world.join(b"Nelson", ShipType::Destroyer, 0));
    let notice = world.leave(b"Nelson").unwrap();
    let message = midway::protocol::parse_server_line(&notice).unwrap();
    assert_eq!(message.kind, midway::protocol::ServerKind::Sunk);
    assert_eq!(message.fields, vec![b"Nelson".to_vec()]);
}

#[test]
fn nelson_sails_for_ten_seconds_on_a_map_without_border() {
    let name = midway::protocol::parse_join(b"ship Nelson\n").unwrap();
    assert!(midway::world::greeting(None).is_empty());
    let mut world: World<u32> = World::new();
    assert!(world.join(&name, ShipType::Destroyer, 0));
    for _ in 0..10 * TPS {
        let message = midway::protocol::parse_command(b"sail 1.0 0.0\n").unwrap();
        match &message {
            midway::protocol::ClientMessage::Sail(power, helm) => {
                let power: f32 = String::from_utf8(power.clone()).unwrap().parse().unwrap();
                let helm: f32 = String::from_utf8(helm.clone()).unwrap().parse().unwrap();
                assert_eq!(power, 1.0);
                assert_eq!(helm, 0.0);
            }
            other => panic!("unexpected {other:?}"),
        }
        let session = &mut world.sessions[0];
        assert_eq!(session.command(&message), midway::ship::CommandEffect::SetInputs);
        assert_eq!(session.ship.tick_respawn(), midway::ship::RespawnStep::Active);
        assert_eq!(session.ship.audience(), midway::ship::Audience::Everyone);
        assert!(!world.engage(0, true));
        assert_eq!(world.resolve(), BossTurn::Idle);
    }
    assert_eq!(world.sessions[0].ship, ShipStatus::new());
    assert_eq!(world.find(b"Nelson"), Some(0));
}
