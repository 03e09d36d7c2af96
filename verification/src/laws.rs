//! The library's global laws, stated and proved over the same spec
//! functions that the executable functions' contracts use.

use vstd::prelude::*;
use crate::character::{char_stats_in_range, new_character_view};
use crate::commands::{apply_spec, creation_applies, err_already_created, err_bad_target, err_not_connected, move_applies};
use crate::init::home_location;
use crate::protocol::{is_error_to_sender, ClientMessage, Recipient, ServerMessageV};
use crate::state::{char_invariant, state_inv, GameStateV};

verus! {

/// A freshly created character starts within bounds at the home location,
/// whatever the name and occupation.
pub proof fn lemma_new_character_well_formed(player_id: u128, name: Seq<char>, occupation: Seq<char>)
    ensures
        char_stats_in_range(new_character_view(player_id, name, occupation)),
        new_character_view(player_id, name, occupation).location == home_location(),
        new_character_view(player_id, name, occupation).health == 100,
{
}

/// Every command application preserves the state invariant: each
/// character's bounded stats stay within their declared ranges, and each
/// character's location stays a key of the world's location map. Applied
/// inductively, this holds after any sequence of commands from any mix of
/// connections.
pub proof fn lemma_apply_preserves_invariant(
    pre: GameStateV,
    sender: u128,
    msg: ClientMessage,
    post: GameStateV,
    out: Seq<(Recipient, ServerMessageV)>,
)
    requires
        state_inv(pre),
        apply_spec(pre, sender, msg, post, out),
    ensures
        state_inv(post),
{
    match msg {
        ClientMessage::RequestCharacterCreation { name, occupation } => {
            if !pre.players.contains_key(sender) {
                let c = new_character_view(sender, name@, occupation@);
                lemma_new_character_well_formed(sender, name@, occupation@);
                assert forall|id: u128| #[trigger] post.players.contains_key(id) implies
                    char_invariant(post.players[id], post.world_state) by {
                    if id != sender {
                        assert(pre.players.contains_key(id));
                    }
                }
            }
        },
        ClientMessage::MoveRequest { target_location } => {
            if pre.players.contains_key(sender) {
                let c = pre.players[sender];
                if pre.world_state.locations.contains_key(c.location)
                    && pre.world_state.locations[c.location].connections.contains(
                    target_location@,
                ) && pre.world_state.locations.contains_key(target_location@) {
                    assert forall|id: u128| #[trigger] post.players.contains_key(id) implies
                        char_invariant(post.players[id], post.world_state) by {
                        if id != sender {
                            assert(pre.players.contains_key(id));
                        }
                    }
                }
            }
        },
        ClientMessage::JournalWriteRequest { entry } => {
            if pre.players.contains_key(sender) {
                assert forall|id: u128| #[trigger] post.players.contains_key(id) implies
                    char_invariant(post.players[id], post.world_state) by {
                    if id != sender {
                        assert(pre.players.contains_key(id));
                    }
                }
            }
        },
        ClientMessage::RestRequest => {
            if pre.players.contains_key(sender) {
                assert forall|id: u128| #[trigger] post.players.contains_key(id) implies
                    char_invariant(post.players[id], post.world_state) by {
                    if id != sender {
                        assert(pre.players.contains_key(id));
                    }
                }
            }
        },
        _ => {},
    }
}

/// One character per player: a creation request from an identity that
/// already owns a character leaves the whole state — the first character's
/// data included — untouched, and yields only an error to the sender.
pub proof fn lemma_single_character_per_player(
    pre: GameStateV,
    sender: u128,
    name: Seq<char>,
    occupation: Seq<char>,
    post: GameStateV,
    out: Seq<(Recipient, ServerMessageV)>,
)
    requires
        pre.players.contains_key(sender),
        creation_applies(pre, sender, name, occupation, post, out),
    ensures
        post == pre,
        post.players[sender] == pre.players[sender],
        out.len() == 1,
        is_error_to_sender(out[0], err_already_created()),
{
}

/// A move to a location that is absent or not connected to the character's
/// current location leaves the location — and the whole state — unchanged
/// and yields only an error to the sender.
pub proof fn lemma_invalid_move_rejected(
    pre: GameStateV,
    sender: u128,
    target: Seq<char>,
    post: GameStateV,
    out: Seq<(Recipient, ServerMessageV)>,
)
    requires
        pre.players.contains_key(sender),
        pre.world_state.locations.contains_key(pre.players[sender].location),
        !(pre.world_state.locations[pre.players[sender].location].connections.contains(target)
            && pre.world_state.locations.contains_key(target)),
        move_applies(pre, sender, target, post, out),
    ensures
        post == pre,
        post.players[sender].location == pre.players[sender].location,
        out.len() == 1,
        is_error_to_sender(out[0], err_not_connected(pre.players[sender].location, target))
            || is_error_to_sender(out[0], err_bad_target(target)),
{
}

} // verus!
