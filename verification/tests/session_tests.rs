use flight_sim::{
    apply, handle_connect, handle_disconnect, ClientMessage, GameState, Recipient,
    ServerMessage, SessionRegistry, TickEvent,
};
use tokio::sync::mpsc::{unbounded_channel, UnboundedReceiver};
use tokio_tungstenite::tungstenite::Message;

fn creation(name: &str, occupation: &str) -> ClientMessage {
    ClientMessage::RequestCharacterCreation {
        name: String::from(name),
        occupation: String::from(occupation),
    }
}

fn recv_text(rx: &mut UnboundedReceiver<Message>) -> Option<String> {
    match rx.try_recv() {
        Ok(Message::Text(t)) => Some(t.as_str().to_owned()),
        _ => None,
    }
}

#[test]
fn welcome_carries_identity_and_empty_snapshot() {
    let mut registry = SessionRegistry::new();
    let state = GameState::new();
    let (tx, _rx) = unbounded_channel::<Message>();
    let welcome = handle_connect(&mut registry, &state, 42, tx);
    assert!(registry.contains(42));
    match welcome {
        ServerMessage::Welcome { player_id, initial_game_state } => {
            assert_eq!(player_id, 42);
            assert!(initial_game_state.players.get(42).is_none());
            assert_eq!(initial_game_state.day, 1);
            assert!(initial_game_state
                .world_state
                .locations
                .get(&String::from("Victory Mansions"))
                .is_some());
        },
        _ => panic!("expected a welcome"),
    }
}

#[test]
fn broadcast_excludes_the_originator() {
    let mut registry = SessionRegistry::new();
    let state = GameState::new();
    let (tx1, mut rx1) = unbounded_channel::<Message>();
    let (tx2, mut rx2) = unbounded_channel::<Message>();
    let _ = handle_connect(&mut registry, &state, 1, tx1);
    let _ = handle_connect(&mut registry, &state, 2, tx2);

    registry.broadcast(&String::from("joined"), Some(1));
    assert_eq!(recv_text(&mut rx2).as_deref(), Some("joined"));
    assert!(recv_text(&mut rx1).is_none());

    registry.broadcast(&String::from("to-everyone"), None);
    assert_eq!(recv_text(&mut rx1).as_deref(), Some("to-everyone"));
    assert_eq!(recv_text(&mut rx2).as_deref(), Some("to-everyone"));
}

#[test]
fn unicast_reaches_only_the_addressee() {
    let mut registry = SessionRegistry::new();
    let state = GameState::new();
    let (tx1, mut rx1) = unbounded_channel::<Message>();
    let (tx2, mut rx2) = unbounded_channel::<Message>();
    let _ = handle_connect(&mut registry, &state, 1, tx1);
    let _ = handle_connect(&mut registry, &state, 2, tx2);

    assert!(registry.unicast(1, &String::from("private")));
    assert_eq!(recv_text(&mut rx1).as_deref(), Some("private"));
    assert!(recv_text(&mut rx2).is_none());
    // an unknown identity is dropped, not an error
    assert!(!registry.unicast(99, &String::from("nowhere")));
}

#[test]
fn unicast_to_closed_sink_fails_quietly() {
    let mut registry = SessionRegistry::new();
    let state = GameState::new();
    let (tx, rx) = unbounded_channel::<Message>();
    let _ = handle_connect(&mut registry, &state, 1, tx);
    drop(rx);
    assert!(!registry.unicast(1, &String::from("gone")));
}

#[test]
fn join_broadcast_observed_by_second_client() {
    // A fresh world: one player connects, creates a character, and the
    // other connected client sees the join announcement.
    let mut registry = SessionRegistry::new();
    let mut state = GameState::new();
    let (tx1, mut rx1) = unbounded_channel::<Message>();
    let (tx2, mut rx2) = unbounded_channel::<Message>();
    let _ = handle_connect(&mut registry, &state, 1, tx1);
    let _ = handle_connect(&mut registry, &state, 2, tx2);

    let out = apply(&mut state, 1, creation("Winston", "Records Department Worker"));
    for (recipient, message) in &out {
        let encoded = match message {
            ServerMessage::PlayerJoined { player_id, .. } => format!("joined:{player_id}"),
            ServerMessage::GameStateUpdate(_) => String::from("state"),
            _ => String::from("other"),
        };
        match recipient {
            Recipient::SenderOnly => {
                let _ = registry.unicast(1, &encoded);
            },
            Recipient::AllButSender => registry.broadcast(&encoded, Some(1)),
            Recipient::All => registry.broadcast(&encoded, None),
        }
    }
    assert_eq!(recv_text(&mut rx2).as_deref(), Some("joined:1"));
    assert_eq!(recv_text(&mut rx1).as_deref(), Some("state"));
    assert!(recv_text(&mut rx1).is_none());
}

#[test]
fn disconnect_cleans_up_both_sides_once() {
    let mut registry = SessionRegistry::new();
    let mut state = GameState::new();
    let (tx1, _rx1) = unbounded_channel::<Message>();
    let _ = handle_connect(&mut registry, &state, 1, tx1);
    let _ = apply(&mut state, 1, creation("Winston", "Machine Operator"));

    let notice = handle_disconnect(&mut registry, &mut state, 1);
    match notice {
        Some(ServerMessage::PlayerLeft { player_id }) => assert_eq!(player_id, 1),
        _ => panic!("expected exactly one departure notice"),
    }
    assert!(!registry.contains(1));
    assert!(state.players.get(1).is_none());

    // removal is idempotent: a second disconnect owes nothing
    let again = handle_disconnect(&mut registry, &mut state, 1);
    assert!(again.is_none());
}

#[test]
fn disconnect_before_character_creation_sends_no_notice() {
    let mut registry = SessionRegistry::new();
    let mut state = GameState::new();
    let (tx1, _rx1) = unbounded_channel::<Message>();
    let _ = handle_connect(&mut registry, &state, 1, tx1);
    let notice = handle_disconnect(&mut registry, &mut state, 1);
    assert!(notice.is_none());
    assert!(!registry.contains(1));
}

#[test]
fn close_signal_is_deliverable() {
    let mut registry = SessionRegistry::new();
    let state = GameState::new();
    let (tx, mut rx) = unbounded_channel::<Message>();
    let _ = handle_connect(&mut registry, &state, 1, tx);
    assert!(registry.send_close(1));
    assert!(matches!(rx.try_recv(), Ok(Message::Close(None))));
}

#[test]
fn tick_event_variants_carry_their_identity() {
    let e = TickEvent::PlayerLeftNotice { player_id: 5 };
    match e {
        TickEvent::PlayerLeftNotice { player_id } => assert_eq!(player_id, 5),
        _ => panic!("wrong variant"),
    }
}
