//! Authoritative core of a small multiplayer text-and-flight role-playing
//! game server: the shared world model, the command processor that mutates
//! it, the session registry that routes outbound messages, and the
//! simulation tick that evaluates end-of-life conditions.

mod character;
mod commands;
mod connection;
mod flight;
mod init;
mod laws;
mod maps;
mod protocol;
mod raster;
mod session;
mod sim;
mod stats;
mod state;
mod text;
mod world;

pub use commands::apply;
pub use commands::apply_spec;
pub use commands::creation_applies;
pub use commands::move_applies;
pub use commands::journal_applies;
pub use commands::rest_applies;
pub use commands::err_already_created;
pub use commands::err_no_character;
pub use commands::err_bad_current_location;
pub use commands::err_not_connected;
pub use commands::err_bad_target;
pub use commands::narr_interact;
pub use commands::narr_journal;
pub use commands::narr_rest;
pub use commands::narr_search;
pub use commands::narr_work;
pub use flight::FlightSimInput;
pub use flight::InputState;
pub use connection::handle_connect;
pub use connection::handle_disconnect;
pub use laws::lemma_apply_preserves_invariant;
pub use laws::lemma_invalid_move_rejected;
pub use laws::lemma_new_character_well_formed;
pub use laws::lemma_single_character_per_player;
pub use protocol::is_error_to_sender;
pub use protocol::is_narrative_to_sender;
pub use protocol::is_state_update_to_all;
pub use protocol::ClientMessage;
pub use protocol::Recipient;
pub use protocol::ServerMessage;
pub use protocol::ServerMessageV;
pub use raster::draw_line;
pub use session::SessionRegistry;
pub use sim::arrest_text;
pub use sim::cause_text;
pub use sim::count_closes;
pub use sim::count_left_notices;
pub use sim::count_occurrences;
pub use sim::death_text;
pub use sim::lemma_marked_count;
pub use sim::lemma_marked_ids_membership;
pub use sim::lemma_termination_once;
pub use sim::marked_ids;
pub use sim::removal_events;
pub use sim::scan_events;
pub use sim::terminated;
pub use sim::tick_events;
pub use sim::tick_terminations;
pub use sim::TickEvent;
pub use sim::TickEventV;
pub use state::char_invariant;
pub use state::state_inv;
pub use state::GameState;
pub use state::GameStateV;

pub use character::base_character_view;
pub use character::char_stats_in_range;
pub use character::new_character_view;
pub use character::initial_knowledge;
pub use character::Character;
pub use character::CharacterV;
pub use text::str_is;
pub use text::u8_to_dec;

pub use init::home_location;
pub use init::initial_forbidden_texts;
pub use init::initial_locations;
pub use init::initial_npcs;
pub use init::initial_text_locations;
pub use init::initial_world;
pub use init::lemma_initial_world_has_home;

pub use maps::DeepClone;
pub use maps::IdMap;
pub use maps::StrMap;
pub use stats::stat_add;
pub use stats::stat_sub;
pub use world::CatState;
pub use world::CatStateV;
pub use world::CatStatus;
pub use world::ForbiddenText;
pub use world::ForbiddenTextV;
pub use world::Location;
pub use world::LocationV;
pub use world::Npc;
pub use world::NpcV;
pub use world::SharingApproach;
pub use world::TextLanguage;
pub use world::ThoughtcrimeConsequence;
pub use world::WorldState;
pub use world::WorldStateV;
