use midway::protocol::ClientMessage;
use midway::ship::{
    shoot, Audience, CommandEffect, Exposure, RespawnStep, ShipStatus, ShootingState,
    RESPAWN_COOLDOWN,
};
use midway::stats::{Action, ShipType};

#[test]
fn new_ship_is_afloat_and_plain() {
    let ship = ShipStatus::new();
    assert_eq!(
        ship,
        ShipStatus { sunk: false, submerged: false, smoke: false, respawn_cooldown: 120 }
    );
    assert_eq!(RESPAWN_COOLDOWN, 120);
}

#[test]
fn damage_that_uses_up_health_sinks() {
    let mut ship = ShipStatus::new();
    let health = 100.0_f32;
    let amount = 100.0_f32;
    assert!(ship.damage(health - amount <= 0.0));
    assert!(ship.sunk);
}

#[test]
fn damage_below_health_does_not_sink() {
    let mut ship = ShipStatus::new();
    let health = 100.0_f32;
    let amount = 99.5_f32;
    assert!(!ship.damage(health - amount <= 0.0));
    assert!(!ship.sunk);
    assert_eq!(ship, ShipStatus::new());
}

#[test]
fn sunk_ship_stays_sunk() {
    let mut ship = ShipStatus::new();
    assert!(ship.damage(true));
    assert!(ship.damage(false));
    assert!(ship.sunk);
}

#[test]
fn active_ship_is_left_alone_by_the_respawn_step() {
    let mut ship = ShipStatus::new();
    ship.smoke = true;
    let before = ship;
    assert_eq!(ship.tick_respawn(), RespawnStep::Active);
    assert_eq!(ship, before);
}

#[test]
fn sunk_ship_comes_back_after_its_cooldown_and_not_before() {
    let mut ship = ShipStatus::new();
    ship.submerged = true;
    assert!(ship.damage(true));
    for left in (0..120u32).rev() {
        assert_eq!(ship.tick_respawn(), RespawnStep::Waiting);
        assert!(ship.sunk);
        assert!(ship.submerged);
        assert_eq!(ship.respawn_cooldown, left);
    }
    assert_eq!(ship.tick_respawn(), RespawnStep::Regenerate);
    assert_eq!(ship, ShipStatus::new());
    assert_eq!(ship.tick_respawn(), RespawnStep::Active);
}

#[test]
fn sunk_ship_with_counter_at_zero_comes_back_at_once() {
    let mut ship = ShipStatus { sunk: true, submerged: false, smoke: true, respawn_cooldown: 0 };
    assert_eq!(ship.tick_respawn(), RespawnStep::Regenerate);
    assert_eq!(ship, ShipStatus::new());
}

#[test]
fn sail_and_anchor_leave_the_flags() {
    let mut ship = ShipStatus::new();
    let actions = ShipType::Escort.actions();
    let sail = ClientMessage::Sail(b"1.0".to_vec(), b"0.0".to_vec());
    assert_eq!(ship.apply_command(&actions, &sail), CommandEffect::SetInputs);
    assert_eq!(ship.apply_command(&actions, &ClientMessage::Anchor), CommandEffect::DropAnchor);
    assert_eq!(ship, ShipStatus::new());
}

#[test]
fn smoke_toggles() {
    let mut ship = ShipStatus::new();
    let actions = Vec::new();
    assert_eq!(ship.apply_command(&actions, &ClientMessage::Smoke), CommandEffect::SmokeToggled);
    assert!(ship.smoke);
    assert_eq!(ship.apply_command(&actions, &ClientMessage::Smoke), CommandEffect::SmokeToggled);
    assert!(!ship.smoke);
}

#[test]
fn submerge_toggles_on_a_u_boat() {
    let mut ship = ShipStatus::new();
    let actions = ShipType::UBoat.actions();
    assert_eq!(ship.apply_command(&actions, &ClientMessage::Action(1)), CommandEffect::Dived);
    assert!(ship.submerged);
    assert_eq!(ship.apply_command(&actions, &ClientMessage::Action(1)), CommandEffect::Surfaced);
    assert!(!ship.submerged);
}

#[test]
fn action_outside_the_list_is_ignored() {
    let mut ship = ShipStatus::new();
    let actions = vec![Action::Submerge];
    assert_eq!(ship.apply_command(&actions, &ClientMessage::Action(0)), CommandEffect::Ignored);
    assert_eq!(ship.apply_command(&actions, &ClientMessage::Action(2)), CommandEffect::Ignored);
    assert_eq!(
        ship.apply_command(&actions, &ClientMessage::Action(u32::MAX)),
        CommandEffect::Ignored
    );
    let none = ShipType::Destroyer.actions();
    assert_eq!(ship.apply_command(&none, &ClientMessage::Action(1)), CommandEffect::Ignored);
    assert_eq!(ship, ShipStatus::new());
}

#[test]
fn submerged_ship_is_shown_to_its_owner_only() {
    let mut ship = ShipStatus::new();
    assert_eq!(ship.audience(), Audience::Everyone);
    ship.submerged = true;
    assert_eq!(ship.audience(), Audience::Owner);
    ship.sunk = true;
    assert_eq!(ship.audience(), Audience::Everyone);
}

#[test]
fn shot_is_not_fired_while_reloading() {
    let mut target = ShipStatus::new();
    assert_eq!(shoot(false, &mut target, true, true), ShootingState::NotFired);
    assert_eq!(target, ShipStatus::new());
}

#[test]
fn second_shot_before_the_reload_is_over_is_not_fired() {
    let mut target = ShipStatus::new();
    let mut cooldown = 0.0_f32;
    assert_eq!(shoot(cooldown <= 0.0, &mut target, true, false), ShootingState::Hit);
    cooldown = 0.8;
    assert_eq!(shoot(cooldown <= 0.0, &mut target, true, true), ShootingState::NotFired);
    cooldown -= 0.5;
    assert_eq!(shoot(cooldown <= 0.0, &mut target, true, true), ShootingState::NotFired);
    cooldown -= 0.5;
    assert_eq!(shoot(cooldown <= 0.0, &mut target, true, true), ShootingState::Sunk);
}

#[test]
fn shot_outcomes() {
    let mut target = ShipStatus::new();
    assert_eq!(shoot(true, &mut target, false, true), ShootingState::Miss);
    assert!(!target.sunk);
    assert_eq!(shoot(true, &mut target, true, false), ShootingState::Hit);
    assert!(!target.sunk);
    assert_eq!(shoot(true, &mut target, true, true), ShootingState::Sunk);
    assert!(target.sunk);
    assert_eq!(shoot(true, &mut target, true, false), ShootingState::Sunk);
}

#[test]
fn ocean_beyond_the_border() {
    let mut ship = ShipStatus::new();
    assert_eq!(ship.ocean_exposure(false, false), Exposure::Recentre);
    assert_eq!(ship.ocean_exposure(false, true), Exposure::Hold);
    assert!(!ship.sunk);
    assert_eq!(ship.ocean_exposure(true, false), Exposure::Sunk);
    assert!(ship.sunk);
}

#[test]
fn ship_held_beyond_the_border_loses_health_until_it_sinks() {
    let mut ship = ShipStatus::new();
    let mut health = 3.0_f32;
    let dps = 5.0_f32;
    let delta_t = 4.0_f32 / 60.0;
    let scale_factor = 600.0_f32 / (600.0 + 500.0);
    let mut ticks = 0;
    let mut notices: Vec<Vec<u8>> = Vec::new();
    while !ship.sunk {
        let before = health;
        health -= dps * scale_factor * delta_t;
        assert!(health < before);
        if ship.ocean_exposure(health <= 0.0, true) == Exposure::Sunk {
            notices.push(midway::protocol::sunk_message(b"Nelson"));
        }
        ticks += 1;
        assert!(ticks < 1000);
    }
    assert!(health <= 0.0);
    assert_eq!(notices, vec![b"sunk Nelson\n".to_vec()]);
}
