//! A player's character: narrative stats, inventory, relationships, and
//! the occupation-specific adjustments applied at creation.

use vstd::prelude::*;
use crate::init::home_location;
use crate::maps::{deep_str_map, DeepClone, StrMap};
use crate::stats::{spec_stat_add, spec_stat_sub, stat_add, stat_in_range, stat_sub};
use crate::text::str_is;
use crate::world::{CatState, CatStateV, CatStatus};

verus! {

/// A player's persistent in-world avatar and stat sheet.
pub struct Character {
    pub player_id: u128,
    pub name: String,
    pub occupation: String,
    pub loyalty: u8,
    pub suspicion: u8,
    pub thoughtcrime: u8,
    pub health: u8,
    pub inventory: Vec<String>,
    pub relationships: StrMap<i8>,
    pub location: String,
    pub journal_entries: Vec<String>,
    pub tasks_completed: u32,
    pub rebellion_score: u8,
    pub anarcho_knowledge: StrMap<u8>,
    pub economic_freedom_score: u8,
    pub voluntary_actions: u32,
    pub cat_companion: Option<CatState>,
    pub kocourka_quest_active: bool,
    pub kocourka_quest_failed: bool,
}

/// Ghost value of a [`Character`].
pub struct CharacterV {
    pub player_id: u128,
    pub name: Seq<char>,
    pub occupation: Seq<char>,
    pub loyalty: u8,
    pub suspicion: u8,
    pub thoughtcrime: u8,
    pub health: u8,
    pub inventory: Seq<Seq<char>>,
    pub relationships: Map<Seq<char>, i8>,
    pub location: Seq<char>,
    pub journal_entries: Seq<Seq<char>>,
    pub tasks_completed: u32,
    pub rebellion_score: u8,
    pub anarcho_knowledge: Map<Seq<char>, u8>,
    pub economic_freedom_score: u8,
    pub voluntary_actions: u32,
    pub cat_companion: Option<CatStateV>,
    pub kocourka_quest_active: bool,
    pub kocourka_quest_failed: bool,
}

impl View for Character {
    type V = CharacterV;

    open spec fn view(&self) -> CharacterV {
        CharacterV {
            player_id: self.player_id,
            name: self.name@,
            occupation: self.occupation@,
            loyalty: self.loyalty,
            suspicion: self.suspicion,
            thoughtcrime: self.thoughtcrime,
            health: self.health,
            inventory: self.inventory.deep_view(),
            relationships: deep_str_map(self.relationships@),
            location: self.location@,
            journal_entries: self.journal_entries.deep_view(),
            tasks_completed: self.tasks_completed,
            rebellion_score: self.rebellion_score,
            anarcho_knowledge: deep_str_map(self.anarcho_knowledge@),
            economic_freedom_score: self.economic_freedom_score,
            voluntary_actions: self.voluntary_actions,
            cat_companion: self.cat_companion.deep_view(),
            kocourka_quest_active: self.kocourka_quest_active,
            kocourka_quest_failed: self.kocourka_quest_failed,
        }
    }
}

impl DeepView for Character {
    type V = CharacterV;

    open spec fn deep_view(&self) -> CharacterV {
        self.view()
    }
}

impl Character {
    /// The character's own maps keep their keys distinct.
    pub open spec fn wf(&self) -> bool {
        &&& self.relationships.wf()
        &&& self.anarcho_knowledge.wf()
    }
}

impl DeepClone for Character {
    fn deep_clone(&self) -> (r: Self)
        ensures
            r.deep_view() == self.deep_view(),
    {
        let r = Character {
            player_id: self.player_id,
            name: self.name.clone(),
            occupation: self.occupation.clone(),
            loyalty: self.loyalty,
            suspicion: self.suspicion,
            thoughtcrime: self.thoughtcrime,
            health: self.health,
            inventory: self.inventory.deep_clone(),
            relationships: self.relationships.deep_clone(),
            location: self.location.clone(),
            journal_entries: self.journal_entries.deep_clone(),
            tasks_completed: self.tasks_completed,
            rebellion_score: self.rebellion_score,
            anarcho_knowledge: self.anarcho_knowledge.deep_clone(),
            economic_freedom_score: self.economic_freedom_score,
            voluntary_actions: self.voluntary_actions,
            cat_companion: self.cat_companion.deep_clone(),
            kocourka_quest_active: self.kocourka_quest_active,
            kocourka_quest_failed: self.kocourka_quest_failed,
        };
        proof {
            assert(r@ =~= self@);
        }
        r
    }
}

/// Every bounded stat of the character lies in its declared range.
pub open spec fn char_stats_in_range(c: CharacterV) -> bool {
    &&& stat_in_range(c.loyalty)
    &&& stat_in_range(c.suspicion)
    &&& stat_in_range(c.thoughtcrime)
    &&& stat_in_range(c.health)
    &&& stat_in_range(c.rebellion_score)
}

/// The knowledge topics every character starts with, at no understanding.
pub open spec fn initial_knowledge() -> Map<Seq<char>, u8> {
    Map::empty().insert("Principles of Non-Aggression"@, 0u8).insert(
        "Voluntary Exchange"@,
        0u8,
    ).insert("Free Market Economy"@, 0u8).insert("Private Property Rights"@, 0u8).insert(
        "Decentralization"@,
        0u8,
    )
}

/// What a freshly created character looks like, before occupation
/// adjustments.
pub open spec fn base_character_view(player_id: u128, name: Seq<char>, occupation: Seq<char>) -> CharacterV {
    CharacterV {
        player_id: player_id,
        name: name,
        occupation: occupation,
        loyalty: 50,
        suspicion: 0,
        thoughtcrime: 0,
        health: 100,
        inventory: Seq::empty(),
        relationships: Map::empty(),
        location: home_location(),
        journal_entries: Seq::empty(),
        tasks_completed: 0,
        rebellion_score: 0,
        anarcho_knowledge: initial_knowledge(),
        economic_freedom_score: 0,
        voluntary_actions: 0,
        cat_companion: Some(
            CatStateV { name: "Kocourek"@, health: 100, status: CatStatus::Following },
        ),
        kocourka_quest_active: true,
        kocourka_quest_failed: false,
    }
}

/// What a freshly created character looks like, the occupation's fixed
/// stat adjustments applied; an unrecognized occupation gets none.
pub open spec fn new_character_view(player_id: u128, name: Seq<char>, occupation: Seq<char>) -> CharacterV {
    let base = base_character_view(player_id, name, occupation);
    if occupation == "Records Department Worker"@ {
        CharacterV {
            loyalty: spec_stat_sub(50, 5),
            thoughtcrime: spec_stat_add(0, 10),
            ..base
        }
    } else if occupation == "Junior Spy Instructor"@ {
        CharacterV { loyalty: spec_stat_add(50, 15), suspicion: spec_stat_sub(0, 10), ..base }
    } else if occupation == "Fiction Department Writer"@ {
        CharacterV { thoughtcrime: spec_stat_add(0, 15), ..base }
    } else {
        base
    }
}

proof fn lemma_knowledge_keys_distinct()
    ensures
        "Principles of Non-Aggression"@ != "Voluntary Exchange"@,
        "Principles of Non-Aggression"@ != "Free Market Economy"@,
        "Principles of Non-Aggression"@ != "Private Property Rights"@,
        "Principles of Non-Aggression"@ != "Decentralization"@,
        "Voluntary Exchange"@ != "Free Market Economy"@,
        "Voluntary Exchange"@ != "Private Property Rights"@,
        "Voluntary Exchange"@ != "Decentralization"@,
        "Free Market Economy"@ != "Private Property Rights"@,
        "Free Market Economy"@ != "Decentralization"@,
        "Private Property Rights"@ != "Decentralization"@,
{
    reveal_strlit("Principles of Non-Aggression");
    reveal_strlit("Voluntary Exchange");
    reveal_strlit("Free Market Economy");
    reveal_strlit("Private Property Rights");
    reveal_strlit("Decentralization");
    assert("Principles of Non-Aggression"@.len() == 28);
    assert("Voluntary Exchange"@.len() == 18);
    assert("Free Market Economy"@.len() == 19);
    assert("Private Property Rights"@.len() == 23);
    assert("Decentralization"@.len() == 16);
}

impl Character {
    /// A new character with default stats, the designated home location,
    /// the starting knowledge topics, a cat companion, and the
    /// occupation's fixed stat adjustments applied.
    pub fn new(player_id: u128, name: String, occupation: String) -> (r: Character)
        ensures
            r.wf(),
            r@ == new_character_view(player_id, name@, occupation@),
            char_stats_in_range(r@),
    {
        proof {
            lemma_knowledge_keys_distinct();
        }
        let mut anarcho_knowledge: StrMap<u8> = StrMap::new();
        anarcho_knowledge.insert(String::from_str("Principles of Non-Aggression"), 0);
        anarcho_knowledge.insert(String::from_str("Voluntary Exchange"), 0);
        anarcho_knowledge.insert(String::from_str("Free Market Economy"), 0);
        anarcho_knowledge.insert(String::from_str("Private Property Rights"), 0);
        anarcho_knowledge.insert(String::from_str("Decentralization"), 0);

        let mut character = Character {
            player_id,
            name,
            occupation,
            loyalty: 50,
            suspicion: 0,
            thoughtcrime: 0,
            health: 100,
            inventory: Vec::new(),
            relationships: StrMap::new(),
            location: String::from_str("Victory Mansions"),
            journal_entries: Vec::new(),
            tasks_completed: 0,
            rebellion_score: 0,
            anarcho_knowledge,
            economic_freedom_score: 0,
            voluntary_actions: 0,
            cat_companion: Some(
                CatState {
                    name: String::from_str("Kocourek"),
                    health: 100,
                    status: CatStatus::Following,
                },
            ),
            kocourka_quest_active: true,
            kocourka_quest_failed: false,
        };
        proof {
            assert(deep_str_map(character.anarcho_knowledge@) =~= initial_knowledge());
            assert(deep_str_map(character.relationships@) =~= Map::<Seq<char>, i8>::empty());
            assert(character.inventory.deep_view() =~= Seq::<Seq<char>>::empty());
            assert(character.journal_entries.deep_view() =~= Seq::<Seq<char>>::empty());
            assert(character@ =~= base_character_view(
                player_id,
                character.name@,
                character.occupation@,
            ));
        }
        if str_is(&character.occupation, "Records Department Worker") {
            character.loyalty = stat_sub(character.loyalty, 5);
            character.thoughtcrime = stat_add(character.thoughtcrime, 10);
        } else if str_is(&character.occupation, "Junior Spy Instructor") {
            character.loyalty = stat_add(character.loyalty, 15);
            character.suspicion = stat_sub(character.suspicion, 10);
        } else if str_is(&character.occupation, "Fiction Department Writer") {
            character.thoughtcrime = stat_add(character.thoughtcrime, 15);
        }
        character
    }
}

} // verus!
