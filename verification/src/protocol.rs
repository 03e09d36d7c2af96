//! The two closed message families of the wire protocol and the
//! recipient selector attached to every outbound message.
//!
//! Flight-input magnitudes (pitch, roll, yaw, throttle delta) act only on
//! the floating-point flight sub-state, which lives outside the verified
//! core; the inbound flight variant therefore carries no payload here and
//! the shell applies the magnitudes itself.

use vstd::prelude::*;
use crate::character::{Character, CharacterV};
use crate::state::{GameState, GameStateV};

verus! {

/// Who an outbound message is for, relative to the command's sender.
#[derive(Clone, Copy, PartialEq, Eq, Structural)]
pub enum Recipient {
    SenderOnly,
    AllButSender,
    All,
}

impl DeepView for Recipient {
    type V = Recipient;

    open spec fn deep_view(&self) -> Recipient {
        *self
    }
}

/// A message sent from a client to the server.
pub enum ClientMessage {
    RequestCharacterCreation { name: String, occupation: String },
    MoveRequest { target_location: String },
    FlyInput,
    InteractRequest { npc_name: String, interaction_type: u8 },
    JournalWriteRequest { entry: String },
    SearchRequest,
    WorkRequest,
    RestRequest,
}

/// A message sent from the server to a client.
pub enum ServerMessage {
    Welcome { player_id: u128, initial_game_state: GameState },
    PlayerJoined { player_id: u128, character: Character },
    PlayerLeft { player_id: u128 },
    GameStateUpdate(GameState),
    NarrativeUpdate(String),
    Error(String),
}

/// Ghost value of a [`ServerMessage`].
#[verifier::ext_equal]
pub enum ServerMessageV {
    Welcome { player_id: u128, initial_game_state: GameStateV },
    PlayerJoined { player_id: u128, character: CharacterV },
    PlayerLeft { player_id: u128 },
    GameStateUpdate(GameStateV),
    NarrativeUpdate(Seq<char>),
    Error(Seq<char>),
}

impl View for ServerMessage {
    type V = ServerMessageV;

    open spec fn view(&self) -> ServerMessageV {
        match self {
            ServerMessage::Welcome { player_id, initial_game_state } => ServerMessageV::Welcome {
                player_id: *player_id,
                initial_game_state: initial_game_state@,
            },
            ServerMessage::PlayerJoined { player_id, character } => ServerMessageV::PlayerJoined {
                player_id: *player_id,
                character: character@,
            },
            ServerMessage::PlayerLeft { player_id } => ServerMessageV::PlayerLeft {
                player_id: *player_id,
            },
            ServerMessage::GameStateUpdate(s) => ServerMessageV::GameStateUpdate(s@),
            ServerMessage::NarrativeUpdate(t) => ServerMessageV::NarrativeUpdate(t@),
            ServerMessage::Error(t) => ServerMessageV::Error(t@),
        }
    }
}

impl DeepView for ServerMessage {
    type V = ServerMessageV;

    open spec fn deep_view(&self) -> ServerMessageV {
        self.view()
    }
}

/// A sender-only structured error with this text.
pub open spec fn is_error_to_sender(o: (Recipient, ServerMessageV), text: Seq<char>) -> bool {
    o.0 == Recipient::SenderOnly && o.1 == ServerMessageV::Error(text)
}

/// A sender-only narrative line with this text.
pub open spec fn is_narrative_to_sender(o: (Recipient, ServerMessageV), text: Seq<char>) -> bool {
    o.0 == Recipient::SenderOnly && o.1 == ServerMessageV::NarrativeUpdate(text)
}

/// A full-state broadcast to every connection carrying this snapshot.
pub open spec fn is_state_update_to_all(o: (Recipient, ServerMessageV), s: GameStateV) -> bool {
    o.0 == Recipient::All && o.1 == ServerMessageV::GameStateUpdate(s)
}

} // verus!
