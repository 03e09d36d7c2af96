//! Static world content: locations, non-player characters, forbidden
//! texts, and the aggregate world state with its seeded initial value.

use vstd::prelude::*;
use crate::maps::{deep_str_map, DeepClone, StrMap};

verus! {

/// Disposition of a character's cat companion.
#[derive(Clone, Copy, PartialEq, Eq, Structural)]
pub enum CatStatus {
    Following,
    Waiting,
    Injured,
    Lost,
}

/// State of a character's cat companion.
pub struct CatState {
    pub name: String,
    pub health: u8,
    pub status: CatStatus,
}

/// Ghost value of a [`CatState`].
pub struct CatStateV {
    pub name: Seq<char>,
    pub health: u8,
    pub status: CatStatus,
}

impl View for CatState {
    type V = CatStateV;

    open spec fn view(&self) -> CatStateV {
        CatStateV { name: self.name@, health: self.health, status: self.status }
    }
}

impl DeepView for CatState {
    type V = CatStateV;

    open spec fn deep_view(&self) -> CatStateV {
        self.view()
    }
}

impl DeepClone for CatState {
    fn deep_clone(&self) -> (r: Self)
        ensures
            r.deep_view() == self.deep_view(),
    {
        CatState { name: self.name.clone(), health: self.health, status: self.status }
    }
}

/// Language a forbidden text is written in.
#[derive(Clone, Copy, PartialEq, Eq, Structural)]
pub enum TextLanguage {
    Czech,
    English,
}

/// A fragment of forbidden knowledge hidden in the world.
pub struct ForbiddenText {
    pub id: String,
    pub title: String,
    pub content: String,
    pub language: TextLanguage,
    pub difficulty: u8,
    pub suspicion_risk: u8,
}

/// Ghost value of a [`ForbiddenText`].
pub struct ForbiddenTextV {
    pub id: Seq<char>,
    pub title: Seq<char>,
    pub content: Seq<char>,
    pub language: TextLanguage,
    pub difficulty: u8,
    pub suspicion_risk: u8,
}

impl View for ForbiddenText {
    type V = ForbiddenTextV;

    open spec fn view(&self) -> ForbiddenTextV {
        ForbiddenTextV {
            id: self.id@,
            title: self.title@,
            content: self.content@,
            language: self.language,
            difficulty: self.difficulty,
            suspicion_risk: self.suspicion_risk,
        }
    }
}

impl DeepView for ForbiddenText {
    type V = ForbiddenTextV;

    open spec fn deep_view(&self) -> ForbiddenTextV {
        self.view()
    }
}

impl DeepClone for ForbiddenText {
    fn deep_clone(&self) -> (r: Self)
        ensures
            r.deep_view() == self.deep_view(),
    {
        ForbiddenText {
            id: self.id.clone(),
            title: self.title.clone(),
            content: self.content.clone(),
            language: self.language,
            difficulty: self.difficulty,
            suspicion_risk: self.suspicion_risk,
        }
    }
}

/// How a character approaches sharing forbidden knowledge.
#[derive(Clone, Copy, PartialEq, Eq, Structural)]
pub enum SharingApproach {
    Subtle,
    Direct,
    Metaphoric,
    Questioning,
}

/// Consequence of engaging with forbidden knowledge.
pub enum ThoughtcrimeConsequence {
    NoConsequence,
    Suspicion { amount: u8 },
    Surveillance { duration_days: u8 },
    Interrogation { location: String, interrogator: String },
    Arrest { reason: String },
}

/// A narrative location; movement is validated against `connections`.
pub struct Location {
    pub name: String,
    pub description: String,
    pub connections: Vec<String>,
    pub safety: u8,
}

/// Ghost value of a [`Location`].
pub struct LocationV {
    pub name: Seq<char>,
    pub description: Seq<char>,
    pub connections: Seq<Seq<char>>,
    pub safety: u8,
}

impl View for Location {
    type V = LocationV;

    open spec fn view(&self) -> LocationV {
        LocationV {
            name: self.name@,
            description: self.description@,
            connections: self.connections.deep_view(),
            safety: self.safety,
        }
    }
}

impl DeepView for Location {
    type V = LocationV;

    open spec fn deep_view(&self) -> LocationV {
        self.view()
    }
}

impl DeepClone for Location {
    fn deep_clone(&self) -> (r: Self)
        ensures
            r.deep_view() == self.deep_view(),
    {
        let r = Location {
            name: self.name.clone(),
            description: self.description.clone(),
            connections: self.connections.deep_clone(),
            safety: self.safety,
        };
        proof {
            assert(r@ =~= self@);
        }
        r
    }
}

/// A non-player character.
pub struct Npc {
    pub name: String,
    pub description: String,
    pub trust: i8,
    pub location: String,
}

/// Ghost value of an [`Npc`].
pub struct NpcV {
    pub name: Seq<char>,
    pub description: Seq<char>,
    pub trust: i8,
    pub location: Seq<char>,
}

impl View for Npc {
    type V = NpcV;

    open spec fn view(&self) -> NpcV {
        NpcV {
            name: self.name@,
            description: self.description@,
            trust: self.trust,
            location: self.location@,
        }
    }
}

impl DeepView for Npc {
    type V = NpcV;

    open spec fn deep_view(&self) -> NpcV {
        self.view()
    }
}

impl DeepClone for Npc {
    fn deep_clone(&self) -> (r: Self)
        ensures
            r.deep_view() == self.deep_view(),
    {
        Npc {
            name: self.name.clone(),
            description: self.description.clone(),
            trust: self.trust,
            location: self.location.clone(),
        }
    }
}

/// The static and world-level mutable state of the game world.
pub struct WorldState {
    pub locations: StrMap<Location>,
    pub npcs: StrMap<Npc>,
    pub current_date: String,
    pub two_minutes_hate_today: bool,
    pub chocolate_ration: u8,
    pub current_enemy: String,
    pub forbidden_texts: StrMap<ForbiddenText>,
    pub text_locations: StrMap<Vec<String>>,
}

/// Ghost value of a [`WorldState`].
pub struct WorldStateV {
    pub locations: Map<Seq<char>, LocationV>,
    pub npcs: Map<Seq<char>, NpcV>,
    pub current_date: Seq<char>,
    pub two_minutes_hate_today: bool,
    pub chocolate_ration: u8,
    pub current_enemy: Seq<char>,
    pub forbidden_texts: Map<Seq<char>, ForbiddenTextV>,
    pub text_locations: Map<Seq<char>, Seq<Seq<char>>>,
}

impl View for WorldState {
    type V = WorldStateV;

    open spec fn view(&self) -> WorldStateV {
        WorldStateV {
            locations: deep_str_map(self.locations@),
            npcs: deep_str_map(self.npcs@),
            current_date: self.current_date@,
            two_minutes_hate_today: self.two_minutes_hate_today,
            chocolate_ration: self.chocolate_ration,
            current_enemy: self.current_enemy@,
            forbidden_texts: deep_str_map(self.forbidden_texts@),
            text_locations: deep_str_map(self.text_locations@),
        }
    }
}

impl DeepView for WorldState {
    type V = WorldStateV;

    open spec fn deep_view(&self) -> WorldStateV {
        self.view()
    }
}

impl WorldState {
    /// The underlying maps keep their keys distinct.
    pub open spec fn wf(&self) -> bool {
        &&& self.locations.wf()
        &&& self.npcs.wf()
        &&& self.forbidden_texts.wf()
        &&& self.text_locations.wf()
    }

    /// A copy with the same deep view.
    pub fn duplicate(&self) -> (r: WorldState)
        requires
            self.wf(),
        ensures
            r.wf(),
            r@ == self@,
    {
        let r = WorldState {
            locations: self.locations.deep_clone(),
            npcs: self.npcs.deep_clone(),
            current_date: self.current_date.clone(),
            two_minutes_hate_today: self.two_minutes_hate_today,
            chocolate_ration: self.chocolate_ration,
            current_enemy: self.current_enemy.clone(),
            forbidden_texts: self.forbidden_texts.deep_clone(),
            text_locations: self.text_locations.deep_clone(),
        };
        proof {
            assert(r@ =~= self@);
        }
        r
    }
}

} // verus!
