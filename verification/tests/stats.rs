use midway::stats::{
    get_random_type, pick_ship_type, ship_types, weights_of, Action, ShipType, Variable,
};

#[test]
fn get_value_of_a_surface_quantity() {
    let mass = Variable::Surface(1740.0_f32);
    assert_eq!(mass.get_value(false), 1740.0);
    assert_eq!(mass.get_value(true), 1740.0);
}

#[test]
fn get_value_of_a_submersible_quantity() {
    let mass = Variable::Submersible(769.0_f32, 871.0_f32);
    assert_eq!(mass.get_value(false), 769.0);
    assert_eq!(mass.get_value(true), 871.0);
}

#[test]
fn get_value_on_integers() {
    let v = Variable::Submersible(1u32, 2u32);
    assert_eq!(v.get_value(false), 1);
    assert_eq!(v.get_value(true), 2);
    assert_eq!(Variable::Surface(3u32).get_value(true), 3);
}

#[test]
fn catalogue_lists_eleven_classes_in_order() {
    assert_eq!(
        ship_types(),
        vec![
            ShipType::Escort,
            ShipType::Destroyer,
            ShipType::LightCruiser,
            ShipType::HeavyCruiser,
            ShipType::BattleCruiser,
            ShipType::SlowBattleship,
            ShipType::FastBattleship,
            ShipType::Bird,
            ShipType::PTBoat,
            ShipType::Liberty,
            ShipType::UBoat,
        ]
    );
}

#[test]
fn catalogue_weights() {
    assert_eq!(weights_of(&ship_types()), vec![15, 25, 4, 3, 1, 1, 1, 1, 10, 10, 10]);
    assert_eq!(ShipType::Destroyer.weight(), 25);
    assert_eq!(weights_of(&vec![ShipType::UBoat, ShipType::Escort]), vec![10, 15]);
}

#[test]
fn catalogue_textures() {
    let textures: Vec<usize> = ship_types().into_iter().map(|t| t.texture()).collect();
    assert_eq!(textures, vec![1, 2, 3, 4, 5, 6, 6, 7, 9, 10, 11]);
}

#[test]
fn only_the_u_boat_dives() {
    for t in ship_types() {
        assert_eq!(t.is_submersible(), t == ShipType::UBoat);
        assert_eq!(t.actions().is_empty(), !t.is_submersible());
    }
    assert_eq!(ShipType::UBoat.actions(), vec![Action::Submerge]);
}

#[test]
fn draw_from_the_catalogue_gives_a_listed_class() {
    let all = ship_types();
    for _ in 0..200 {
        if let Some(t) = get_random_type() {
            assert!(all.contains(&t));
        }
    }
}

#[test]
fn draw_never_gives_a_class_of_weight_zero() {
    let types = vec![ShipType::Escort, ShipType::UBoat, ShipType::Bird];
    let weights = vec![0, 3, 0];
    let mut seen = false;
    for _ in 0..200 {
        let drawn = pick_ship_type(&types, &weights);
        assert!(drawn.is_none() || drawn == Some(ShipType::UBoat));
        seen = seen || drawn == Some(ShipType::UBoat);
    }
    assert!(seen);
}

#[test]
fn draw_with_one_class() {
    let types = vec![ShipType::Liberty];
    assert_eq!(pick_ship_type(&types, &vec![2]), Some(ShipType::Liberty));
    assert_eq!(pick_ship_type(&types, &vec![0]), None);
}

#[test]
fn draw_without_weights_gives_nothing() {
    let types = vec![ShipType::Escort, ShipType::UBoat];
    assert_eq!(pick_ship_type(&types, &vec![0, 0]), None);
    assert_eq!(pick_ship_type(&Vec::new(), &Vec::new()), None);
}

#[test]
fn draw_with_mismatched_lists_gives_nothing() {
    let types = vec![ShipType::Escort, ShipType::UBoat];
    assert_eq!(pick_ship_type(&types, &vec![1]), None);
    assert_eq!(pick_ship_type(&types, &vec![1, 2, 3]), None);
}

#[test]
fn draw_reaches_every_class_of_the_catalogue() {
    let mut seen = vec![false; 11];
    let all = ship_types();
    for _ in 0..20000 {
        if let Some(t) = get_random_type() {
            let at = all.iter().position(|x| *x == t).unwrap();
            seen[at] = true;
        }
    }
    assert!(seen.iter().all(|s| *s));
}
