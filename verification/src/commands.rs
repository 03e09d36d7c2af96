//! The command processor: the synchronous state transition applied, under
//! the world lock, for every inbound message. It returns the outbound
//! messages to deliver, each tagged with a recipient selector.

use vstd::prelude::*;
use crate::character::{Character, CharacterV, new_character_view};
use crate::maps::{lemma_deep_id_map_dom, lemma_deep_id_map_insert, DeepClone};
use crate::protocol::{
    is_error_to_sender, is_narrative_to_sender, is_state_update_to_all, ClientMessage, Recipient,
    ServerMessage, ServerMessageV,
};
use crate::state::{char_invariant, state_inv, GameState, GameStateV};
use crate::stats::{spec_stat_add, stat_add};
use crate::text::{u8_dec, u8_to_dec};

verus! {

/// Error text for a second character-creation request.
pub open spec fn err_already_created() -> Seq<char> {
    "Character already created."@
}

/// Error text for a command that needs a character when none exists.
pub open spec fn err_no_character() -> Seq<char> {
    "No character created."@
}

/// Error text when the character's current location is not in the world.
pub open spec fn err_bad_current_location() -> Seq<char> {
    "Internal server error: Current location invalid."@
}

/// Error text when the target is not connected to the current location.
pub open spec fn err_not_connected(current: Seq<char>, target: Seq<char>) -> Seq<char> {
    "Cannot move from "@ + current + " to "@ + target
}

/// Error text when the target is not a location of the world.
pub open spec fn err_bad_target(target: Seq<char>) -> Seq<char> {
    "Invalid move target: "@ + target
}

/// Narrative for a journal entry.
pub open spec fn narr_journal() -> Seq<char> {
    "You write in your secret journal. Your thoughtcrime increases."@
}

/// Narrative for a search.
pub open spec fn narr_search() -> Seq<char> {
    "You search the area, but find nothing of interest (logic not implemented yet)."@
}

/// Narrative for a work shift.
pub open spec fn narr_work() -> Seq<char> {
    "You perform your duties for the Party (logic not implemented yet)."@
}

/// Narrative for a rest.
pub open spec fn narr_rest() -> Seq<char> {
    "You rest for a while, recovering slightly."@
}

/// Narrative for an interaction with a non-player character.
pub open spec fn narr_interact(npc: Seq<char>, interaction_type: u8) -> Seq<char> {
    "You interact with "@ + npc + ". (Interaction type "@ + u8_dec(interaction_type)
        + " - logic not implemented yet)"@
}

/// What a character-creation request does: rejected if a character
/// already exists; otherwise the new character is inserted, everyone else
/// learns of the join, and the sender gets the full new state.
pub open spec fn creation_applies(
    pre: GameStateV,
    sender: u128,
    name: Seq<char>,
    occupation: Seq<char>,
    post: GameStateV,
    out: Seq<(Recipient, ServerMessageV)>,
) -> bool {
    if pre.players.contains_key(sender) {
        &&& post == pre
        &&& out.len() == 1
        &&& is_error_to_sender(out[0], err_already_created())
    } else {
        let c = new_character_view(sender, name, occupation);
        &&& post == GameStateV { players: pre.players.insert(sender, c), ..pre }
        &&& out.len() == 2
        &&& out[0].0 == Recipient::AllButSender
        &&& out[0].1 == ServerMessageV::PlayerJoined { player_id: sender, character: c }
        &&& out[1].0 == Recipient::SenderOnly
        &&& out[1].1 == ServerMessageV::GameStateUpdate(post)
    }
}

/// What a move request does: with no character or an invalid move it
/// leaves the state unchanged and tells only the sender why, with a
/// distinct message for each failure; otherwise only the sender's
/// location changes and everyone gets the new state.
pub open spec fn move_applies(
    pre: GameStateV,
    sender: u128,
    target: Seq<char>,
    post: GameStateV,
    out: Seq<(Recipient, ServerMessageV)>,
) -> bool {
    if !pre.players.contains_key(sender) {
        &&& post == pre
        &&& out.len() == 1
        &&& is_error_to_sender(out[0], err_no_character())
    } else {
        let c = pre.players[sender];
        if !pre.world_state.locations.contains_key(c.location) {
            &&& post == pre
            &&& out.len() == 1
            &&& is_error_to_sender(out[0], err_bad_current_location())
        } else if !pre.world_state.locations[c.location].connections.contains(target) {
            &&& post == pre
            &&& out.len() == 1
            &&& is_error_to_sender(out[0], err_not_connected(c.location, target))
        } else if !pre.world_state.locations.contains_key(target) {
            &&& post == pre
            &&& out.len() == 1
            &&& is_error_to_sender(out[0], err_bad_target(target))
        } else {
            &&& post == GameStateV {
                players: pre.players.insert(sender, CharacterV { location: target, ..c }),
                ..pre
            }
            &&& out.len() == 1
            &&& is_state_update_to_all(out[0], post)
        }
    }
}

/// What a journal write does: appends the entry, raises thoughtcrime by a
/// fixed saturating increment, narrates to the sender, and broadcasts the
/// new state; with no character it only reports the error.
pub open spec fn journal_applies(
    pre: GameStateV,
    sender: u128,
    entry: Seq<char>,
    post: GameStateV,
    out: Seq<(Recipient, ServerMessageV)>,
) -> bool {
    if !pre.players.contains_key(sender) {
        &&& post == pre
        &&& out.len() == 1
        &&& is_error_to_sender(out[0], err_no_character())
    } else {
        let c = pre.players[sender];
        let c2 = CharacterV {
            journal_entries: c.journal_entries.push(entry),
            thoughtcrime: spec_stat_add(c.thoughtcrime, 5),
            ..c
        };
        &&& post == GameStateV { players: pre.players.insert(sender, c2), ..pre }
        &&& out.len() == 2
        &&& is_narrative_to_sender(out[0], narr_journal())
        &&& is_state_update_to_all(out[1], post)
    }
}

/// What a rest does: restores a fixed saturating health increment,
/// narrates to the sender, and broadcasts the new state; with no
/// character it only reports the error.
pub open spec fn rest_applies(
    pre: GameStateV,
    sender: u128,
    post: GameStateV,
    out: Seq<(Recipient, ServerMessageV)>,
) -> bool {
    if !pre.players.contains_key(sender) {
        &&& post == pre
        &&& out.len() == 1
        &&& is_error_to_sender(out[0], err_no_character())
    } else {
        let c = pre.players[sender];
        let c2 = CharacterV { health: spec_stat_add(c.health, 5), ..c };
        &&& post == GameStateV { players: pre.players.insert(sender, c2), ..pre }
        &&& out.len() == 2
        &&& is_narrative_to_sender(out[0], narr_rest())
        &&& is_state_update_to_all(out[1], post)
    }
}

/// What one command application does to the state and what it emits.
pub open spec fn apply_spec(
    pre: GameStateV,
    sender: u128,
    msg: ClientMessage,
    post: GameStateV,
    out: Seq<(Recipient, ServerMessageV)>,
) -> bool {
    match msg {
        ClientMessage::RequestCharacterCreation { name, occupation } => creation_applies(
            pre,
            sender,
            name@,
            occupation@,
            post,
            out,
        ),
        ClientMessage::MoveRequest { target_location } => move_applies(
            pre,
            sender,
            target_location@,
            post,
            out,
        ),
        ClientMessage::FlyInput => post == pre && out.len() == 0,
        ClientMessage::InteractRequest { npc_name, interaction_type } => {
            &&& post == pre
            &&& out.len() == 1
            &&& is_narrative_to_sender(out[0], narr_interact(npc_name@, interaction_type))
        },
        ClientMessage::JournalWriteRequest { entry } => journal_applies(
            pre,
            sender,
            entry@,
            post,
            out,
        ),
        ClientMessage::SearchRequest => {
            &&& post == pre
            &&& out.len() == 1
            &&& is_narrative_to_sender(out[0], narr_search())
        },
        ClientMessage::WorkRequest => {
            &&& post == pre
            &&& out.len() == 1
            &&& is_narrative_to_sender(out[0], narr_work())
        },
        ClientMessage::RestRequest => rest_applies(pre, sender, post, out),
    }
}

fn sender_error(text: String) -> (r: Vec<(Recipient, ServerMessage)>)
    ensures
        r.deep_view() == seq![(Recipient::SenderOnly, ServerMessageV::Error(text@))],
{
    let mut r: Vec<(Recipient, ServerMessage)> = Vec::new();
    r.push((Recipient::SenderOnly, ServerMessage::Error(text)));
    proof {
        assert(r.deep_view() =~= seq![(Recipient::SenderOnly, ServerMessageV::Error(r@[0].1->Error_0@))]);
    }
    r
}

fn sender_narrative(text: String) -> (r: Vec<(Recipient, ServerMessage)>)
    ensures
        r.deep_view() == seq![(Recipient::SenderOnly, ServerMessageV::NarrativeUpdate(text@))],
{
    let mut r: Vec<(Recipient, ServerMessage)> = Vec::new();
    r.push((Recipient::SenderOnly, ServerMessage::NarrativeUpdate(text)));
    proof {
        assert(r.deep_view() =~= seq![
            (Recipient::SenderOnly, ServerMessageV::NarrativeUpdate(r@[0].1->NarrativeUpdate_0@)),
        ]);
    }
    r
}

/// True when this vector of strings holds one whose characters are those
/// of the key.
fn contains_string(v: &Vec<String>, key: &String) -> (r: bool)
    ensures
        r == v.deep_view().contains(key@),
{
    let n = v.len();
    let mut i: usize = 0;
    while i < n
        invariant
            n == v@.len(),
            0 <= i <= n,
            forall|j: int| 0 <= j < i ==> v.deep_view()[j] != key@,
        decreases n - i,
    {
        if v[i] == *key {
            proof {
                assert(v.deep_view()[i as int] == key@);
            }
            return true;
        }
        i += 1;
    }
    proof {
        if v.deep_view().contains(key@) {
            let j = choose|j: int| 0 <= j < v.deep_view().len() && v.deep_view()[j] == key@;
            assert(v.deep_view()[j] != key@);
        }
    }
    false
}

/// Apply one inbound command to the world on behalf of a connection's
/// player, returning the outbound messages it produces. Identity is bound
/// to the connection, never taken from the payload.
pub fn apply(state: &mut GameState, player_id: u128, msg: ClientMessage) -> (out: Vec<
    (Recipient, ServerMessage),
>)
    requires
        old(state).wf(),
        state_inv(old(state)@),
    ensures
        final(state).wf(),
        state_inv(final(state)@),
        apply_spec(old(state)@, player_id, msg, final(state)@, out.deep_view()),
{
    match msg {
        ClientMessage::RequestCharacterCreation { name, occupation } => apply_creation(
            state,
            player_id,
            name,
            occupation,
        ),
        ClientMessage::MoveRequest { target_location } => apply_move(
            state,
            player_id,
            target_location,
        ),
        ClientMessage::FlyInput => Vec::new(),
        ClientMessage::InteractRequest { npc_name, interaction_type } => {
            let mut text = String::from_str("You interact with ");
            text.append(npc_name.as_str());
            text.append(". (Interaction type ");
            let dec = u8_to_dec(interaction_type);
            text.append(dec.as_str());
            text.append(" - logic not implemented yet)");
            proof {
                assert(text@ =~= narr_interact(npc_name@, interaction_type));
            }
            sender_narrative(text)
        },
        ClientMessage::JournalWriteRequest { entry } => apply_journal(state, player_id, entry),
        ClientMessage::SearchRequest => sender_narrative(
            String::from_str(
                "You search the area, but find nothing of interest (logic not implemented yet).",
            ),
        ),
        ClientMessage::WorkRequest => sender_narrative(
            String::from_str("You perform your duties for the Party (logic not implemented yet)."),
        ),
        ClientMessage::RestRequest => apply_rest(state, player_id),
    }
}

fn apply_creation(state: &mut GameState, player_id: u128, name: String, occupation: String) -> (out:
    Vec<(Recipient, ServerMessage)>)
    requires
        old(state).wf(),
        state_inv(old(state)@),
    ensures
        final(state).wf(),
        state_inv(final(state)@),
        creation_applies(old(state)@, player_id, name@, occupation@, final(state)@, out.deep_view()),
{
    proof {
        lemma_deep_id_map_dom(state.players@);
    }
    if state.players.contains_key(player_id) {
        sender_error(String::from_str("Character already created."))
    } else {
        let c = Character::new(player_id, name, occupation);
        let c_for_msg = c.deep_clone();
        let ghost cv = c@;
        let ghost pre = state.players@;
        state.players.insert(player_id, c);
        proof {
            lemma_deep_id_map_insert(pre, player_id, state.players@[player_id]);
            assert(final(state)@ =~= GameStateV {
                players: old(state)@.players.insert(player_id, cv),
                ..old(state)@
            });
            assert forall|id: u128| #[trigger] final(state)@.players.contains_key(id) implies
                char_invariant(final(state)@.players[id], final(state)@.world_state) by {
                if id != player_id {
                    assert(old(state)@.players.contains_key(id));
                }
            }
        }
        let snap = state.snapshot();
        let mut out: Vec<(Recipient, ServerMessage)> = Vec::new();
        out.push(
            (Recipient::AllButSender, ServerMessage::PlayerJoined { player_id, character: c_for_msg }),
        );
        out.push((Recipient::SenderOnly, ServerMessage::GameStateUpdate(snap)));
        proof {
            assert(out.deep_view() =~= seq![
                (
                    Recipient::AllButSender,
                    ServerMessageV::PlayerJoined { player_id: player_id, character: cv },
                ),
                (Recipient::SenderOnly, ServerMessageV::GameStateUpdate(final(state)@)),
            ]);
        }
        out
    }
}

fn apply_move(state: &mut GameState, player_id: u128, target_location: String) -> (out: Vec<
    (Recipient, ServerMessage),
>)
    requires
        old(state).wf(),
        state_inv(old(state)@),
    ensures
        final(state).wf(),
        state_inv(final(state)@),
        move_applies(old(state)@, player_id, target_location@, final(state)@, out.deep_view()),
{
    proof {
        lemma_deep_id_map_dom(state.players@);
        crate::maps::lemma_deep_str_map_dom(state.world_state.locations@);
    }
    let current: Option<&Character> = state.players.get(player_id);
    match current {
        None => sender_error(String::from_str("No character created.")),
        Some(ch) => {
            let mut moved = ch.deep_clone();
            let ghost c = old(state)@.players[player_id];
            proof {
                crate::maps::lemma_deep_id_map_index(state.players@, player_id);
                assert(moved@ == c);
            }
            match state.world_state.locations.get(&moved.location) {
                None => sender_error(
                    String::from_str("Internal server error: Current location invalid."),
                ),
                Some(current_loc) => {
                    proof {
                        crate::maps::lemma_deep_str_map_index(
                            state.world_state.locations@,
                            moved.location@,
                        );
                    }
                    if contains_string(&current_loc.connections, &target_location) {
                        if state.world_state.locations.contains_key(&target_location) {
                            let ghost pre = state.players@;
                            let ghost tv = target_location@;
                            moved.location = target_location;
                            proof {
                                assert(moved@ =~= CharacterV { location: tv, ..c });
                            }
                            state.players.replace(player_id, moved);
                            proof {
                                lemma_deep_id_map_insert(pre, player_id, state.players@[player_id]);
                                assert(final(state)@ =~= GameStateV {
                                    players: old(state)@.players.insert(
                                        player_id,
                                        CharacterV { location: tv, ..c },
                                    ),
                                    ..old(state)@
                                });
                                assert forall|id: u128| #[trigger]
                                    final(state)@.players.contains_key(id) implies char_invariant(
                                    final(state)@.players[id],
                                    final(state)@.world_state,
                                ) by {
                                    if id != player_id {
                                        assert(old(state)@.players.contains_key(id));
                                    }
                                }
                            }
                            let snap = state.snapshot();
                            let mut out: Vec<(Recipient, ServerMessage)> = Vec::new();
                            out.push((Recipient::All, ServerMessage::GameStateUpdate(snap)));
                            proof {
                                assert(out.deep_view() =~= seq![
                                    (Recipient::All, ServerMessageV::GameStateUpdate(final(state)@)),
                                ]);
                            }
                            out
                        } else {
                            let mut text = String::from_str("Invalid move target: ");
                            text.append(target_location.as_str());
                            proof {
                                assert(text@ =~= err_bad_target(target_location@));
                            }
                            sender_error(text)
                        }
                    } else {
                        let mut text = String::from_str("Cannot move from ");
                        text.append(moved.location.as_str());
                        text.append(" to ");
                        text.append(target_location.as_str());
                        proof {
                            assert(text@ =~= err_not_connected(c.location, target_location@));
                        }
                        sender_error(text)
                    }
                },
            }
        },
    }
}

fn apply_journal(state: &mut GameState, player_id: u128, entry: String) -> (out: Vec<
    (Recipient, ServerMessage),
>)
    requires
        old(state).wf(),
        state_inv(old(state)@),
    ensures
        final(state).wf(),
        state_inv(final(state)@),
        journal_applies(old(state)@, player_id, entry@, final(state)@, out.deep_view()),
{
    proof {
        lemma_deep_id_map_dom(state.players@);
    }
    let current: Option<&Character> = state.players.get(player_id);
    match current {
        None => sender_error(String::from_str("No character created.")),
        Some(ch) => {
            let mut updated = ch.deep_clone();
            let ghost c = old(state)@.players[player_id];
            proof {
                crate::maps::lemma_deep_id_map_index(state.players@, player_id);
                assert(updated@ == c);
            }
            let ghost pre = state.players@;
            let ghost ev = entry@;
            updated.journal_entries.push(entry);
            updated.thoughtcrime = stat_add(updated.thoughtcrime, 5);
            proof {
                assert(updated.journal_entries.deep_view() =~= c.journal_entries.push(ev));
                assert(updated@ =~= CharacterV {
                    journal_entries: c.journal_entries.push(ev),
                    thoughtcrime: spec_stat_add(c.thoughtcrime, 5),
                    ..c
                });
            }
            state.players.replace(player_id, updated);
            proof {
                lemma_deep_id_map_insert(pre, player_id, state.players@[player_id]);
                assert(final(state)@ =~= GameStateV {
                    players: old(state)@.players.insert(
                        player_id,
                        CharacterV {
                            journal_entries: c.journal_entries.push(ev),
                            thoughtcrime: spec_stat_add(c.thoughtcrime, 5),
                            ..c
                        },
                    ),
                    ..old(state)@
                });
                assert forall|id: u128| #[trigger] final(state)@.players.contains_key(id) implies
                    char_invariant(final(state)@.players[id], final(state)@.world_state) by {
                    if id != player_id {
                        assert(old(state)@.players.contains_key(id));
                    }
                }
            }
            let snap = state.snapshot();
            let mut out: Vec<(Recipient, ServerMessage)> = Vec::new();
            out.push(
                (
                    Recipient::SenderOnly,
                    ServerMessage::NarrativeUpdate(
                        String::from_str(
                            "You write in your secret journal. Your thoughtcrime increases.",
                        ),
                    ),
                ),
            );
            out.push((Recipient::All, ServerMessage::GameStateUpdate(snap)));
            proof {
                assert(out.deep_view() =~= seq![
                    (Recipient::SenderOnly, ServerMessageV::NarrativeUpdate(narr_journal())),
                    (Recipient::All, ServerMessageV::GameStateUpdate(final(state)@)),
                ]);
            }
            out
        },
    }
}

fn apply_rest(state: &mut GameState, player_id: u128) -> (out: Vec<(Recipient, ServerMessage)>)
    requires
        old(state).wf(),
        state_inv(old(state)@),
    ensures
        final(state).wf(),
        state_inv(final(state)@),
        rest_applies(old(state)@, player_id, final(state)@, out.deep_view()),
{
    proof {
        lemma_deep_id_map_dom(state.players@);
    }
    let current: Option<&Character> = state.players.get(player_id);
    match current {
        None => sender_error(String::from_str("No character created.")),
        Some(ch) => {
            let mut updated = ch.deep_clone();
            let ghost c = old(state)@.players[player_id];
            proof {
                crate::maps::lemma_deep_id_map_index(state.players@, player_id);
                assert(updated@ == c);
            }
            let ghost pre = state.players@;
            updated.health = stat_add(updated.health, 5);
            proof {
                assert(updated@ =~= CharacterV { health: spec_stat_add(c.health, 5), ..c });
            }
            state.players.replace(player_id, updated);
            proof {
                lemma_deep_id_map_insert(pre, player_id, state.players@[player_id]);
                assert(final(state)@ =~= GameStateV {
                    players: old(state)@.players.insert(
                        player_id,
                        CharacterV { health: spec_stat_add(c.health, 5), ..c },
                    ),
                    ..old(state)@
                });
                assert forall|id: u128| #[trigger] final(state)@.players.contains_key(id) implies
                    char_invariant(final(state)@.players[id], final(state)@.world_state) by {
                    if id != player_id {
                        assert(old(state)@.players.contains_key(id));
                    }
                }
            }
            let snap = state.snapshot();
            let mut out: Vec<(Recipient, ServerMessage)> = Vec::new();
            out.push(
                (
                    Recipient::SenderOnly,
                    ServerMessage::NarrativeUpdate(
                        String::from_str("You rest for a while, recovering slightly."),
                    ),
                ),
            );
            out.push((Recipient::All, ServerMessage::GameStateUpdate(snap)));
            proof {
                assert(out.deep_view() =~= seq![
                    (Recipient::SenderOnly, ServerMessageV::NarrativeUpdate(narr_rest())),
                    (Recipient::All, ServerMessageV::GameStateUpdate(final(state)@)),
                ]);
            }
            out
        },
    }
}

} // verus!
