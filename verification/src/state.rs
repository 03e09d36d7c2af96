//! The single authoritative game-state aggregate: every player's
//! character, the world, and the day counter, together with the invariant
//! that every command and tick preserves.

use vstd::prelude::*;
use crate::character::{char_stats_in_range, Character, CharacterV};
use crate::maps::{deep_id_map, DeepClone, IdMap};
use crate::world::{WorldState, WorldStateV};
use crate::init::{home_location, initial_world};

verus! {

/// The overall state of the game, including all players.
pub struct GameState {
    pub players: IdMap<Character>,
    pub world_state: WorldState,
    pub day: u32,
}

/// Ghost value of a [`GameState`].
#[verifier::ext_equal]
pub struct GameStateV {
    pub players: Map<u128, CharacterV>,
    pub world_state: WorldStateV,
    pub day: u32,
}

impl View for GameState {
    type V = GameStateV;

    open spec fn view(&self) -> GameStateV {
        GameStateV {
            players: deep_id_map(self.players@),
            world_state: self.world_state@,
            day: self.day,
        }
    }
}

impl DeepView for GameState {
    type V = GameStateV;

    open spec fn deep_view(&self) -> GameStateV {
        self.view()
    }
}

/// A character is consistent with the world: its bounded stats are in
/// range and it stands at a key of the location map.
pub open spec fn char_invariant(c: CharacterV, w: WorldStateV) -> bool {
    &&& char_stats_in_range(c)
    &&& w.locations.contains_key(c.location)
}

/// The state invariant: the world offers the home location that new
/// characters start at, and every character in the world is consistent
/// with it. It holds of the fresh state and is preserved by every command
/// and every simulation tick.
pub open spec fn state_inv(s: GameStateV) -> bool {
    &&& s.world_state.locations.contains_key(home_location())
    &&& forall|id: u128| #[trigger]
        s.players.contains_key(id) ==> char_invariant(s.players[id], s.world_state)
}

impl GameState {
    /// The underlying maps keep their keys distinct.
    pub open spec fn wf(&self) -> bool {
        &&& self.players.wf()
        &&& self.world_state.wf()
    }

    /// A fresh game: no players, the seeded world, day one.
    pub fn new() -> (r: GameState)
        ensures
            r.wf(),
            r@.players == Map::<u128, CharacterV>::empty(),
            r@.world_state == initial_world(),
            r@.day == 1,
            state_inv(r@),
    {
        let r = GameState {
            players: IdMap::new(),
            world_state: WorldState::initialize(),
            day: 1,
        };
        proof {
            assert(r@.players =~= Map::<u128, CharacterV>::empty());
            crate::init::lemma_initial_world_has_home();
        }
        r
    }

    /// A copy with the same deep view, for inclusion in outbound
    /// snapshots.
    pub fn snapshot(&self) -> (r: GameState)
        requires
            self.wf(),
        ensures
            r.wf(),
            r@ == self@,
    {
        let r = GameState {
            players: self.players.deep_clone(),
            world_state: self.world_state.duplicate(),
            day: self.day,
        };
        proof {
            assert(r@ =~= self@);
        }
        r
    }

    /// Whether a character exists for this identity.
    pub fn has_player(&self, player_id: u128) -> (r: bool)
        ensures
            r == self@.players.contains_key(player_id),
    {
        proof {
            crate::maps::lemma_deep_id_map_dom(self.players@);
        }
        self.players.contains_key(player_id)
    }
}

} // verus!
