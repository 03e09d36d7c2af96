//! Connection lifecycle: registering a fresh connection with its welcome
//! snapshot, and the cleanup owed when a connection closes.

use vstd::prelude::*;
use tokio::sync::mpsc::UnboundedSender;
use tokio_tungstenite::tungstenite::Message;
use crate::maps::{lemma_deep_id_map_dom, lemma_deep_id_map_remove};
use crate::protocol::{ServerMessage, ServerMessageV};
use crate::session::SessionRegistry;
use crate::state::{state_inv, GameState};

verus! {

/// Register a fresh connection's sink and build the welcome message: the
/// assigned identity together with a snapshot of the world as it stands.
/// Identity is assigned by the connection layer before any character
/// exists.
pub fn handle_connect(
    registry: &mut SessionRegistry,
    state: &GameState,
    player_id: u128,
    sink: UnboundedSender<Message>,
) -> (welcome: ServerMessage)
    requires
        old(registry).wf(),
        !old(registry).ids().contains(player_id),
        state.wf(),
    ensures
        final(registry).wf(),
        final(registry).ids() == old(registry).ids().insert(player_id),
        welcome@ == (ServerMessageV::Welcome { player_id, initial_game_state: state@ }),
{
    registry.register(player_id, sink);
    ServerMessage::Welcome { player_id, initial_game_state: state.snapshot() }
}

/// Cleanup when a connection closes: the identity leaves the registry and,
/// if a character existed, the roster too, in which case the returned
/// "player left" message is owed to every remaining player — exactly one
/// departure notice per disconnect.
pub fn handle_disconnect(
    registry: &mut SessionRegistry,
    state: &mut GameState,
    player_id: u128,
) -> (notice: Option<ServerMessage>)
    requires
        old(registry).wf(),
        old(state).wf(),
        state_inv(old(state)@),
    ensures
        final(registry).wf(),
        final(state).wf(),
        state_inv(final(state)@),
        final(registry).ids() == old(registry).ids().remove(player_id),
        !final(registry).ids().contains(player_id),
        final(state)@.players == old(state)@.players.remove(player_id),
        !final(state)@.players.contains_key(player_id),
        final(state)@.world_state == old(state)@.world_state,
        final(state)@.day == old(state)@.day,
        notice is Some <==> old(state)@.players.contains_key(player_id),
        match notice {
            Some(m) => m@ == (ServerMessageV::PlayerLeft { player_id }),
            None => true,
        },
{
    registry.remove(player_id);
    proof {
        lemma_deep_id_map_dom(state.players@);
    }
    let existed = state.players.contains_key(player_id);
    let ghost pre = state.players@;
    state.players.remove(player_id);
    proof {
        lemma_deep_id_map_remove(pre, player_id);
        assert(final(state)@.players == old(state)@.players.remove(player_id));
        assert(!final(state)@.players.contains_key(player_id));
        assert forall|id: u128| #[trigger] final(state)@.players.contains_key(id) implies
            crate::state::char_invariant(final(state)@.players[id], final(state)@.world_state) by {
            assert(old(state)@.players.contains_key(id));
            assert(final(state)@.players[id] == old(state)@.players[id]);
        }
    }
    if existed {
        Some(ServerMessage::PlayerLeft { player_id })
    } else {
        None
    }
}

} // verus!
