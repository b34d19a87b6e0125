use learnopengl::particle_generator::first_unused_particle;
use learnopengl::power_up::{
    is_other_power_up_active, kinds_for_draws, power_up_spawns, should_spawn, spawn_decision, str_equals, PowerUp,
    PowerUpKind,
};

const ALL_KINDS: [PowerUpKind; 6] = [
    PowerUpKind::Speed,
    PowerUpKind::Sticky,
    PowerUpKind::PassThrough,
    PowerUpKind::PadSizeIncrease,
    PowerUpKind::Confuse,
    PowerUpKind::Chaos,
];

#[test]
fn power_up_kind_names_and_chances() {
    let types: Vec<String> = ALL_KINDS.iter().map(|k| k.type_str()).collect();
    assert_eq!(types, vec!["speed", "sticky", "pass-through", "pad-size-increase", "confuse", "chaos"]);
    let textures: Vec<String> = ALL_KINDS.iter().map(|k| k.texture_name()).collect();
    assert_eq!(
        textures,
        vec![
            "powerup_speed",
            "powerup_sticky",
            "powerup_passthrough",
            "powerup_increase",
            "powerup_confuse",
            "powerup_chaos"
        ]
    );
    let chances: Vec<u32> = ALL_KINDS.iter().map(|k| k.chance()).collect();
    assert_eq!(chances, vec![75, 75, 75, 75, 15, 15]);
}

#[test]
fn string_equality() {
    assert!(str_equals("chaos", "chaos"));
    assert!(!str_equals("chaos", "chao"));
    assert!(!str_equals("chaos", "chaoz"));
    assert!(str_equals("", ""));
}

#[test]
fn new_power_up_is_inactive() {
    let p = PowerUp::new("speed".to_string(), 5u8);
    assert!(!p.activated && !p.destroyed);
    assert_eq!(p.body, 5);
    assert_eq!(p.type_str, "speed");
}

#[test]
fn other_power_up_active_needs_an_active_one_of_the_type() {
    let mut a = PowerUp::new("sticky".to_string(), 0u8);
    let b = PowerUp::new("sticky".to_string(), 1u8);
    let mut c = PowerUp::new("chaos".to_string(), 2u8);
    c.activated = true;
    let mut ups = vec![b, c];
    assert!(!is_other_power_up_active(&ups, "sticky".to_string()));
    assert!(is_other_power_up_active(&ups, "chaos".to_string()));
    a.activated = true;
    ups.push(a);
    assert!(is_other_power_up_active(&ups, "sticky".to_string()));
    assert!(!is_other_power_up_active(&Vec::<PowerUp<u8>>::new(), "sticky".to_string()));
}

#[test]
fn spawn_decision_is_one_in_chance() {
    assert!(spawn_decision(0, 75));
    assert!(spawn_decision(150, 75));
    assert!(!spawn_decision(151, 75));
    assert!(spawn_decision(30, 15));
    assert!(spawn_decision(7, 1));
}

#[test]
fn should_spawn_with_chance_one_always_spawns() {
    assert!(should_spawn(1));
}

#[test]
fn kinds_for_draws_follow_spawn_order() {
    assert_eq!(kinds_for_draws(&[0, 1, 75, 2, 15, 16]), vec![
        PowerUpKind::Speed,
        PowerUpKind::PassThrough,
        PowerUpKind::Confuse,
    ]);
    assert_eq!(kinds_for_draws(&[1, 1, 1, 1, 1, 1]), Vec::<PowerUpKind>::new());
    assert_eq!(kinds_for_draws(&[0, 0, 0, 0, 0, 0]), ALL_KINDS.to_vec());
}

#[test]
fn random_spawns_keep_order_without_repeats() {
    for _ in 0..50 {
        let kinds = power_up_spawns();
        let positions: Vec<usize> =
            kinds.iter().map(|k| ALL_KINDS.iter().position(|a| a == k).unwrap()).collect();
        assert!(positions.windows(2).all(|w| w[0] < w[1]));
    }
}

#[test]
fn particle_search_starts_at_last_used() {
    let dead = vec![true, false, false, true];
    let mut last = 2u32;
    assert_eq!(first_unused_particle(&dead, &mut last, 4), 3);
    assert_eq!(last, 3);
    assert_eq!(first_unused_particle(&dead, &mut last, 4), 3);
}

#[test]
fn particle_search_wraps_to_front() {
    let dead = vec![false, true, false, false];
    let mut last = 2u32;
    assert_eq!(first_unused_particle(&dead, &mut last, 4), 1);
    assert_eq!(last, 1);
}

#[test]
fn particle_search_overwrites_first_when_all_live() {
    let dead = vec![false, false, false];
    let mut last = 1u32;
    assert_eq!(first_unused_particle(&dead, &mut last, 3), 0);
    assert_eq!(last, 0);
}

#[test]
fn particle_search_ignores_slots_past_amount() {
    let dead = vec![false, false, true];
    let mut last = 0u32;
    assert_eq!(first_unused_particle(&dead, &mut last, 2), 0);
    assert_eq!(last, 0);
}
