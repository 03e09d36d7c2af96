use flight_sim::{apply, ClientMessage, DeepClone, GameState, Recipient, ServerMessage};

fn creation(name: &str, occupation: &str) -> ClientMessage {
    ClientMessage::RequestCharacterCreation {
        name: String::from(name),
        occupation: String::from(occupation),
    }
}

#[test]
fn creation_inserts_and_notifies() {
    let mut state = GameState::new();
    let out = apply(&mut state, 7, creation("Winston", "Records Department Worker"));
    let c = state.players.get(7).expect("character created");
    assert_eq!(c.loyalty, 45);
    assert_eq!(c.thoughtcrime, 10);
    assert_eq!(c.location.as_str(), "Victory Mansions");

    assert_eq!(out.len(), 2);
    assert!(matches!(out[0].0, Recipient::AllButSender));
    match &out[0].1 {
        ServerMessage::PlayerJoined { player_id, character } => {
            assert_eq!(*player_id, 7);
            assert_eq!(character.name.as_str(), "Winston");
            assert_eq!(character.loyalty, 45);
        },
        _ => panic!("expected a join announcement"),
    }
    assert!(matches!(out[1].0, Recipient::SenderOnly));
    match &out[1].1 {
        ServerMessage::GameStateUpdate(s) => {
            assert!(s.players.get(7).is_some());
        },
        _ => panic!("expected a full-state confirmation"),
    }
}

#[test]
fn duplicate_creation_rejected() {
    let mut state = GameState::new();
    let _ = apply(&mut state, 7, creation("Winston", "Records Department Worker"));
    let out = apply(&mut state, 7, creation("Other", "Junior Spy Instructor"));
    assert_eq!(out.len(), 1);
    assert!(matches!(out[0].0, Recipient::SenderOnly));
    match &out[0].1 {
        ServerMessage::Error(m) => assert_eq!(m.as_str(), "Character already created."),
        _ => panic!("expected an error"),
    }
    // the first character's data is intact
    let c = state.players.get(7).expect("still there");
    assert_eq!(c.name.as_str(), "Winston");
    assert_eq!(c.loyalty, 45);
}

#[test]
fn valid_move_updates_location_and_broadcasts() {
    let mut state = GameState::new();
    let _ = apply(&mut state, 7, creation("Winston", "Records Department Worker"));
    let out = apply(
        &mut state,
        7,
        ClientMessage::MoveRequest { target_location: String::from("Ministry of Truth") },
    );
    assert_eq!(state.players.get(7).unwrap().location.as_str(), "Ministry of Truth");
    assert_eq!(out.len(), 1);
    assert!(matches!(out[0].0, Recipient::All));
    match &out[0].1 {
        ServerMessage::GameStateUpdate(s) => {
            assert_eq!(s.players.get(7).unwrap().location.as_str(), "Ministry of Truth");
        },
        _ => panic!("expected a state broadcast"),
    }
}

#[test]
fn move_to_unconnected_location_rejected() {
    // Victory Mansions connects to Ministry of Truth and Victory Square
    // only; Canteen exists but is not adjacent.
    let mut state = GameState::new();
    let _ = apply(&mut state, 7, creation("Winston", "Records Department Worker"));
    let out = apply(
        &mut state,
        7,
        ClientMessage::MoveRequest { target_location: String::from("Canteen") },
    );
    assert_eq!(out.len(), 1);
    assert!(matches!(out[0].0, Recipient::SenderOnly));
    match &out[0].1 {
        ServerMessage::Error(m) => {
            assert_eq!(m.as_str(), "Cannot move from Victory Mansions to Canteen")
        },
        _ => panic!("expected an error"),
    }
    assert_eq!(state.players.get(7).unwrap().location.as_str(), "Victory Mansions");
}

#[test]
fn move_without_character_rejected() {
    let mut state = GameState::new();
    let out = apply(
        &mut state,
        7,
        ClientMessage::MoveRequest { target_location: String::from("Canteen") },
    );
    assert_eq!(out.len(), 1);
    match &out[0].1 {
        ServerMessage::Error(m) => assert_eq!(m.as_str(), "No character created."),
        _ => panic!("expected an error"),
    }
}

#[test]
fn journal_write_appends_and_raises_thoughtcrime() {
    let mut state = GameState::new();
    let _ = apply(&mut state, 7, creation("Winston", "Machine Operator"));
    let out = apply(
        &mut state,
        7,
        ClientMessage::JournalWriteRequest { entry: String::from("Down with Big Brother") },
    );
    let c = state.players.get(7).unwrap();
    assert_eq!(c.thoughtcrime, 5);
    assert_eq!(c.journal_entries.len(), 1);
    assert_eq!(c.journal_entries[0].as_str(), "Down with Big Brother");
    assert_eq!(out.len(), 2);
    match &out[0].1 {
        ServerMessage::NarrativeUpdate(m) => {
            assert_eq!(m.as_str(), "You write in your secret journal. Your thoughtcrime increases.")
        },
        _ => panic!("expected a narrative"),
    }
    assert!(matches!(out[1].0, Recipient::All));
}

#[test]
fn repeated_journal_writes_keep_thoughtcrime_bounded() {
    let mut state = GameState::new();
    let _ = apply(&mut state, 7, creation("Winston", "Machine Operator"));
    let mut i = 0;
    while i < 40 {
        let _ = apply(
            &mut state,
            7,
            ClientMessage::JournalWriteRequest { entry: String::from("entry") },
        );
        i += 1;
    }
    let c = state.players.get(7).unwrap();
    assert_eq!(c.thoughtcrime, 100);
    assert_eq!(c.journal_entries.len(), 40);
}

#[test]
fn rest_restores_health_capped() {
    let mut state = GameState::new();
    let _ = apply(&mut state, 7, creation("Winston", "Machine Operator"));
    let mut hurt = state.players.get(7).unwrap().deep_clone();
    hurt.health = 97;
    state.players.replace(7, hurt);
    let out = apply(&mut state, 7, ClientMessage::RestRequest);
    assert_eq!(state.players.get(7).unwrap().health, 100);
    assert_eq!(out.len(), 2);
    match &out[0].1 {
        ServerMessage::NarrativeUpdate(m) => {
            assert_eq!(m.as_str(), "You rest for a while, recovering slightly.")
        },
        _ => panic!("expected a narrative"),
    }
    // resting at full health stays at the cap
    let _ = apply(&mut state, 7, ClientMessage::RestRequest);
    assert_eq!(state.players.get(7).unwrap().health, 100);
}

#[test]
fn interact_produces_placeholder_narrative() {
    let mut state = GameState::new();
    let out = apply(
        &mut state,
        7,
        ClientMessage::InteractRequest { npc_name: String::from("Julia"), interaction_type: 2 },
    );
    assert_eq!(out.len(), 1);
    assert!(matches!(out[0].0, Recipient::SenderOnly));
    match &out[0].1 {
        ServerMessage::NarrativeUpdate(m) => assert_eq!(
            m.as_str(),
            "You interact with Julia. (Interaction type 2 - logic not implemented yet)"
        ),
        _ => panic!("expected a narrative"),
    }
}

#[test]
fn search_and_work_produce_placeholder_narratives() {
    let mut state = GameState::new();
    let out = apply(&mut state, 7, ClientMessage::SearchRequest);
    match &out[0].1 {
        ServerMessage::NarrativeUpdate(m) => assert_eq!(
            m.as_str(),
            "You search the area, but find nothing of interest (logic not implemented yet)."
        ),
        _ => panic!("expected a narrative"),
    }
    let out = apply(&mut state, 7, ClientMessage::WorkRequest);
    match &out[0].1 {
        ServerMessage::NarrativeUpdate(m) => assert_eq!(
            m.as_str(),
            "You perform your duties for the Party (logic not implemented yet)."
        ),
        _ => panic!("expected a narrative"),
    }
}

#[test]
fn fly_input_changes_nothing_in_the_world() {
    let mut state = GameState::new();
    let _ = apply(&mut state, 7, creation("Winston", "Machine Operator"));
    let before = state.players.get(7).unwrap().health;
    let out = apply(&mut state, 7, ClientMessage::FlyInput);
    assert!(out.is_empty());
    assert_eq!(state.players.get(7).unwrap().health, before);
}
