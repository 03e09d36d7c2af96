use flight_sim::{apply, tick_terminations, ClientMessage, DeepClone, GameState, TickEvent};

fn creation(name: &str, occupation: &str) -> ClientMessage {
    ClientMessage::RequestCharacterCreation {
        name: String::from(name),
        occupation: String::from(occupation),
    }
}

fn set_health(state: &mut GameState, id: u128, health: u8) {
    let mut c = state.players.get(id).expect("character exists").deep_clone();
    c.health = health;
    state.players.replace(id, c);
}

fn set_suspicion(state: &mut GameState, id: u128, suspicion: u8) {
    let mut c = state.players.get(id).expect("character exists").deep_clone();
    c.suspicion = suspicion;
    state.players.replace(id, c);
}

#[test]
fn healthy_characters_survive_a_tick() {
    let mut state = GameState::new();
    let _ = apply(&mut state, 1, creation("Winston", "Machine Operator"));
    let events = tick_terminations(&mut state);
    assert!(events.is_empty());
    assert!(state.players.get(1).is_some());
}

#[test]
fn death_removes_character_with_narrative_then_single_departure() {
    // A character whose health reaches zero is removed; the death
    // narrative precedes removal and exactly one departure notice and one
    // close signal follow.
    let mut state = GameState::new();
    let _ = apply(&mut state, 1, creation("Winston", "Machine Operator"));
    set_health(&mut state, 1, 0);

    let events = tick_terminations(&mut state);
    assert!(state.players.get(1).is_none());
    assert_eq!(events.len(), 3);
    match &events[0] {
        TickEvent::Narrative { player_id, text } => {
            assert_eq!(*player_id, 1);
            assert_eq!(
                text.as_str(),
                "Your health reached zero. You succumb to the harsh realities of Oceania."
            );
        },
        _ => panic!("the narrative comes before removal"),
    }
    assert!(matches!(events[1], TickEvent::PlayerLeftNotice { player_id: 1 }));
    assert!(matches!(events[2], TickEvent::CloseConnection { player_id: 1 }));

    // termination is handled at most once: the next tick emits nothing
    let later = tick_terminations(&mut state);
    assert!(later.is_empty());
}

#[test]
fn peak_suspicion_means_arrest() {
    let mut state = GameState::new();
    let _ = apply(&mut state, 1, creation("Winston", "Machine Operator"));
    set_suspicion(&mut state, 1, 100);
    let events = tick_terminations(&mut state);
    assert!(state.players.get(1).is_none());
    match &events[0] {
        TickEvent::Narrative { player_id, text } => {
            assert_eq!(*player_id, 1);
            assert!(text.as_str().starts_with("Your suspicion level reached its peak."));
        },
        _ => panic!("expected an arrest narrative"),
    }
}

#[test]
fn only_terminated_characters_are_removed() {
    let mut state = GameState::new();
    let _ = apply(&mut state, 1, creation("Winston", "Machine Operator"));
    let _ = apply(&mut state, 2, creation("Julia", "Fiction Department Writer"));
    set_health(&mut state, 1, 0);
    let events = tick_terminations(&mut state);
    assert!(state.players.get(1).is_none());
    let survivor = state.players.get(2).expect("untouched");
    assert_eq!(survivor.name.as_str(), "Julia");
    assert_eq!(survivor.health, 100);
    let departures = events
        .iter()
        .filter(|e| matches!(e, TickEvent::PlayerLeftNotice { .. }))
        .count();
    assert_eq!(departures, 1);
}

#[test]
fn death_takes_precedence_over_arrest_in_the_narrative() {
    let mut state = GameState::new();
    let _ = apply(&mut state, 1, creation("Winston", "Machine Operator"));
    set_health(&mut state, 1, 0);
    set_suspicion(&mut state, 1, 100);
    let events = tick_terminations(&mut state);
    match &events[0] {
        TickEvent::Narrative { text, .. } => {
            assert!(text.as_str().starts_with("Your health reached zero."));
        },
        _ => panic!("expected a narrative"),
    }
}
