use flight_sim::{stat_add, stat_sub, u8_to_dec, CatStatus, Character, GameState, WorldState};

#[test]
fn stat_add_saturates_at_upper_bound() {
    assert_eq!(stat_add(98, 5), 100);
    assert_eq!(stat_add(100, 100), 100);
    assert_eq!(stat_add(0, 15), 15);
    assert_eq!(stat_add(50, 15), 65);
}

#[test]
fn stat_sub_saturates_at_zero() {
    assert_eq!(stat_sub(3, 5), 0);
    assert_eq!(stat_sub(0, 10), 0);
    assert_eq!(stat_sub(50, 5), 45);
}

#[test]
fn decimal_rendering_is_exact() {
    assert_eq!(u8_to_dec(0).as_str(), "0");
    assert_eq!(u8_to_dec(7).as_str(), "7");
    assert_eq!(u8_to_dec(42).as_str(), "42");
    assert_eq!(u8_to_dec(100).as_str(), "100");
    assert_eq!(u8_to_dec(255).as_str(), "255");
}

#[test]
fn initial_world_locations() {
    let w = WorldState::initialize();
    let vm = w.locations.get(&String::from("Victory Mansions")).expect("home exists");
    assert_eq!(vm.safety, 3);
    let conns: Vec<&str> = vm.connections.iter().map(|s| s.as_str()).collect();
    assert_eq!(conns, vec!["Ministry of Truth", "Victory Square"]);

    let mol = w.locations.get(&String::from("Ministry of Love")).expect("exists");
    assert_eq!(mol.safety, 0);
    assert!(mol.connections.is_empty());

    let vs = w.locations.get(&String::from("Victory Square")).expect("exists");
    assert_eq!(vs.connections.len(), 4);
    assert_eq!(w.locations.len(), 7);
}

#[test]
fn initial_world_npcs_and_flags() {
    let w = WorldState::initialize();
    assert_eq!(w.npcs.len(), 6);
    let charrington = w.npcs.get(&String::from("Charrington")).expect("exists");
    assert_eq!(charrington.trust, -100);
    assert_eq!(charrington.location.as_str(), "Charrington's Shop");
    let julia = w.npcs.get(&String::from("Julia")).expect("exists");
    assert_eq!(julia.trust, 80);
    assert_eq!(w.current_date.as_str(), "April 4, 1984");
    assert_eq!(w.current_enemy.as_str(), "Eurasia");
    assert_eq!(w.chocolate_ration, 30);
    assert!(w.two_minutes_hate_today);
}

#[test]
fn initial_world_forbidden_texts() {
    let w = WorldState::initialize();
    assert_eq!(w.forbidden_texts.len(), 4);
    let t = w.forbidden_texts.get(&String::from("state_myth")).expect("exists");
    assert_eq!(t.difficulty, 7);
    assert_eq!(t.suspicion_risk, 10);
    let placed = w.text_locations.get(&String::from("Prole District")).expect("exists");
    let ids: Vec<&str> = placed.iter().map(|s| s.as_str()).collect();
    assert_eq!(ids, vec!["free_market"]);
    let shop = w.text_locations.get(&String::from("Charrington's Shop")).expect("exists");
    assert_eq!(shop.len(), 2);
}

#[test]
fn new_character_defaults() {
    let c = Character::new(9, String::from("Julia"), String::from("Machine Operator"));
    assert_eq!(c.loyalty, 50);
    assert_eq!(c.suspicion, 0);
    assert_eq!(c.thoughtcrime, 0);
    assert_eq!(c.health, 100);
    assert_eq!(c.rebellion_score, 0);
    assert_eq!(c.location.as_str(), "Victory Mansions");
    assert!(c.inventory.is_empty());
    assert!(c.journal_entries.is_empty());
    assert_eq!(c.anarcho_knowledge.len(), 5);
    assert_eq!(
        *c.anarcho_knowledge.get(&String::from("Voluntary Exchange")).expect("seeded"),
        0
    );
    let cat = c.cat_companion.expect("a cat companion from the start");
    assert_eq!(cat.name.as_str(), "Kocourek");
    assert_eq!(cat.health, 100);
    assert!(matches!(cat.status, CatStatus::Following));
    assert!(c.kocourka_quest_active);
    assert!(!c.kocourka_quest_failed);
}

#[test]
fn occupation_adjustments() {
    let records = Character::new(1, String::from("Winston"), String::from("Records Department Worker"));
    assert_eq!(records.loyalty, 45);
    assert_eq!(records.thoughtcrime, 10);

    let spy = Character::new(2, String::from("Parsons"), String::from("Junior Spy Instructor"));
    assert_eq!(spy.loyalty, 65);
    assert_eq!(spy.suspicion, 0);

    let writer = Character::new(3, String::from("Julia"), String::from("Fiction Department Writer"));
    assert_eq!(writer.thoughtcrime, 15);
    assert_eq!(writer.loyalty, 50);
}

#[test]
fn fresh_game_state() {
    let s = GameState::new();
    assert_eq!(s.day, 1);
    assert!(s.players.get(1).is_none());
    assert!(s.world_state.locations.get(&String::from("Victory Mansions")).is_some());
}
