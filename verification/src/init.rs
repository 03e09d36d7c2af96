//! The seeded initial world: a fixed graph of locations, a fixed cast of
//! non-player characters, and the forbidden texts hidden among them.

use vstd::prelude::*;
use crate::maps::{deep_str_map, StrMap};
use crate::world::{ForbiddenText, ForbiddenTextV, Location, LocationV, Npc, NpcV, TextLanguage, WorldState, WorldStateV};

verus! {

/// The deep value of a map of locations.
pub open spec fn locations_view(m: Map<Seq<char>, Location>) -> Map<Seq<char>, LocationV> {
    deep_str_map(m)
}

/// The deep value of a map of non-player characters.
pub open spec fn npcs_view(m: Map<Seq<char>, Npc>) -> Map<Seq<char>, NpcV> {
    deep_str_map(m)
}

/// The deep value of a map of forbidden texts.
pub open spec fn texts_view(m: Map<Seq<char>, ForbiddenText>) -> Map<Seq<char>, ForbiddenTextV> {
    deep_str_map(m)
}

/// The deep value of a map of text placements.
pub open spec fn placements_view(m: Map<Seq<char>, Vec<String>>) -> Map<Seq<char>, Seq<Seq<char>>> {
    deep_str_map(m)
}

/// The location every new character starts at.
pub open spec fn home_location() -> Seq<char> {
    "Victory Mansions"@
}

fn conns0() -> (r: Vec<String>)
    ensures
        r.deep_view() == Seq::<Seq<char>>::empty(),
{
    let r: Vec<String> = Vec::new();
    proof {
        assert(r.deep_view() =~= Seq::<Seq<char>>::empty());
    }
    r
}

fn conns1(a: &str) -> (r: Vec<String>)
    ensures
        r.deep_view() == seq![a@],
{
    let mut r: Vec<String> = Vec::new();
    r.push(String::from_str(a));
    proof {
        assert(r.deep_view() =~= seq![a@]);
    }
    r
}

fn conns2(a: &str, b: &str) -> (r: Vec<String>)
    ensures
        r.deep_view() == seq![a@, b@],
{
    let mut r: Vec<String> = Vec::new();
    r.push(String::from_str(a));
    r.push(String::from_str(b));
    proof {
        assert(r.deep_view() =~= seq![a@, b@]);
    }
    r
}

fn conns3(a: &str, b: &str, c: &str) -> (r: Vec<String>)
    ensures
        r.deep_view() == seq![a@, b@, c@],
{
    let mut r: Vec<String> = Vec::new();
    r.push(String::from_str(a));
    r.push(String::from_str(b));
    r.push(String::from_str(c));
    proof {
        assert(r.deep_view() =~= seq![a@, b@, c@]);
    }
    r
}

fn conns4(a: &str, b: &str, c: &str, d: &str) -> (r: Vec<String>)
    ensures
        r.deep_view() == seq![a@, b@, c@, d@],
{
    let mut r: Vec<String> = Vec::new();
    r.push(String::from_str(a));
    r.push(String::from_str(b));
    r.push(String::from_str(c));
    r.push(String::from_str(d));
    proof {
        assert(r.deep_view() =~= seq![a@, b@, c@, d@]);
    }
    r
}

fn add_location(
    m: &mut StrMap<Location>,
    name: &str,
    description: &str,
    connections: Vec<String>,
    safety: u8,
)
    requires
        old(m).wf(),
        !old(m)@.contains_key(name@),
    ensures
        final(m).wf(),
        final(m)@.dom() == old(m)@.dom().insert(name@),
        locations_view(final(m)@) == locations_view(old(m)@).insert(
            name@,
            LocationV {
                name: name@,
                description: description@,
                connections: connections.deep_view(),
                safety: safety,
            },
        ),
{
    let ghost cv = connections.deep_view();
    let loc = Location {
        name: String::from_str(name),
        description: String::from_str(description),
        connections,
        safety,
    };
    m.insert(String::from_str(name), loc);
    proof {
        assert(final(m)@.dom() =~= old(m)@.dom().insert(name@));
        assert(locations_view(m@) =~= locations_view(old(m)@).insert(
            name@,
            LocationV { name: name@, description: description@, connections: cv, safety: safety },
        ));
    }
}

fn add_npc(m: &mut StrMap<Npc>, name: &str, description: &str, trust: i8, location: &str)
    requires
        old(m).wf(),
        !old(m)@.contains_key(name@),
    ensures
        final(m).wf(),
        final(m)@.dom() == old(m)@.dom().insert(name@),
        npcs_view(final(m)@) == npcs_view(old(m)@).insert(
            name@,
            NpcV { name: name@, description: description@, trust: trust, location: location@ },
        ),
{
    let npc = Npc {
        name: String::from_str(name),
        description: String::from_str(description),
        trust,
        location: String::from_str(location),
    };
    m.insert(String::from_str(name), npc);
    proof {
        assert(final(m)@.dom() =~= old(m)@.dom().insert(name@));
        assert(npcs_view(m@) =~= npcs_view(old(m)@).insert(
            name@,
            NpcV { name: name@, description: description@, trust: trust, location: location@ },
        ));
    }
}

fn add_text(
    m: &mut StrMap<ForbiddenText>,
    id: &str,
    title: &str,
    content: &str,
    language: TextLanguage,
    difficulty: u8,
    suspicion_risk: u8,
)
    requires
        old(m).wf(),
        !old(m)@.contains_key(id@),
    ensures
        final(m).wf(),
        final(m)@.dom() == old(m)@.dom().insert(id@),
        texts_view(final(m)@) == texts_view(old(m)@).insert(
            id@,
            ForbiddenTextV {
                id: id@,
                title: title@,
                content: content@,
                language: language,
                difficulty: difficulty,
                suspicion_risk: suspicion_risk,
            },
        ),
{
    let text = ForbiddenText {
        id: String::from_str(id),
        title: String::from_str(title),
        content: String::from_str(content),
        language,
        difficulty,
        suspicion_risk,
    };
    m.insert(String::from_str(id), text);
    proof {
        assert(final(m)@.dom() =~= old(m)@.dom().insert(id@));
        assert(texts_view(m@) =~= texts_view(old(m)@).insert(
            id@,
            ForbiddenTextV {
                id: id@,
                title: title@,
                content: content@,
                language: language,
                difficulty: difficulty,
                suspicion_risk: suspicion_risk,
            },
        ));
    }
}

fn add_placement(m: &mut StrMap<Vec<String>>, location: &str, text_ids: Vec<String>)
    requires
        old(m).wf(),
        !old(m)@.contains_key(location@),
    ensures
        final(m).wf(),
        final(m)@.dom() == old(m)@.dom().insert(location@),
        placements_view(final(m)@) == placements_view(old(m)@).insert(
            location@,
            text_ids.deep_view(),
        ),
{
    let ghost tv = text_ids.deep_view();
    m.insert(String::from_str(location), text_ids);
    proof {
        assert(final(m)@.dom() =~= old(m)@.dom().insert(location@));
        assert(placements_view(m@) =~= placements_view(old(m)@).insert(location@, tv));
    }
}

/// The locations the world is seeded with.
pub open spec fn initial_locations() -> Map<Seq<char>, LocationV> {
    Map::empty().insert(
        "Victory Mansions"@,
        LocationV {
            name: "Victory Mansions"@,
            description: "Your dilapidated apartment building. The telescreen on the wall continuously broadcasts Party propaganda."@,
            connections: seq!["Ministry of Truth"@, "Victory Square"@],
            safety: 3,
        },
    ).insert(
        "Ministry of Truth"@,
        LocationV {
            name: "Ministry of Truth"@,
            description: "A massive pyramidal structure where historical documents are rewritten to match Party narratives."@,
            connections: seq!["Victory Mansions"@, "Victory Square"@, "Canteen"@],
            safety: 1,
        },
    ).insert(
        "Canteen"@,
        LocationV {
            name: "Canteen"@,
            description: "A gray cafeteria serving tasteless Victory meals and Victory Gin."@,
            connections: seq!["Ministry of Truth"@],
            safety: 2,
        },
    ).insert(
        "Victory Square"@,
        LocationV {
            name: "Victory Square"@,
            description: "The central square where public executions and rallies are held."@,
            connections: seq![
                "Victory Mansions"@,
                "Ministry of Truth"@,
                "Prole District"@,
                "Charrington's Shop"@,
            ],
            safety: 1,
        },
    ).insert(
        "Prole District"@,
        LocationV {
            name: "Prole District"@,
            description: "The rundown area where the proles (working class) live with less surveillance."@,
            connections: seq!["Victory Square"@, "Charrington's Shop"@],
            safety: 4,
        },
    ).insert(
        "Charrington's Shop"@,
        LocationV {
            name: "Charrington's Shop"@,
            description: "An antique shop run by an elderly man. It has a room upstairs without a telescreen."@,
            connections: seq!["Victory Square"@, "Prole District"@],
            safety: 3,
        },
    ).insert(
        "Ministry of Love"@,
        LocationV {
            name: "Ministry of Love"@,
            description: "The terrifying windowless building where enemies of the Party are taken. Room 101 is inside."@,
            connections: Seq::empty(),
            safety: 0,
        },
    )
}

/// The non-player characters the world is seeded with.
pub open spec fn initial_npcs() -> Map<Seq<char>, NpcV> {
    Map::empty().insert(
        "O'Brien"@,
        NpcV {
            name: "O'Brien"@,
            description: "A high-ranking Inner Party member who seems to have rebellious tendencies."@,
            trust: 0,
            location: "Ministry of Truth"@,
        },
    ).insert(
        "Julia"@,
        NpcV {
            name: "Julia"@,
            description: "A young woman who works in the Fiction Department of the Ministry of Truth."@,
            trust: 80,
            location: "Ministry of Truth"@,
        },
    ).insert(
        "Charrington"@,
        NpcV {
            name: "Charrington"@,
            description: "The seemingly friendly old man who runs the antique shop."@,
            trust: -100 as i8,
            location: "Charrington's Shop"@,
        },
    ).insert(
        "Parsons"@,
        NpcV {
            name: "Parsons"@,
            description: "Your neighbor, an enthusiastic Party supporter whose children spy on adults."@,
            trust: 20,
            location: "Victory Mansions"@,
        },
    ).insert(
        "Syme"@,
        NpcV {
            name: "Syme"@,
            description: "A philologist working on the 11th edition of the Newspeak dictionary."@,
            trust: 50,
            location: "Canteen"@,
        },
    ).insert(
        "Old Trader"@,
        NpcV {
            name: "Old Trader"@,
            description: "An elderly prole who trades in black market goods and seems to remember life before the Party."@,
            trust: 70,
            location: "Prole District"@,
        },
    )
}

/// The forbidden texts the world is seeded with.
pub open spec fn initial_forbidden_texts() -> Map<Seq<char>, ForbiddenTextV> {
    Map::empty().insert(
        "ankap_principles"@,
        ForbiddenTextV {
            id: "ankap_principles"@,
            title: "Principy dobrovolnosti"@,
            content: "Anarchokapitalismus je založen na myšlence oboustranné dobrovolnosti: Nikdo by neměl být nucen a nikomu by nemělo být bráněno nabízet ostatním produkty své práce za libovolných podmínek..."@,
            language: TextLanguage::Czech,
            difficulty: 5,
            suspicion_risk: 8,
        },
    ).insert(
        "free_market"@,
        ForbiddenTextV {
            id: "free_market"@,
            title: "Volný trh a svoboda jednotlivce"@,
            content: "Chceme jen svobodně žít v klidu a míru; chceme milovat, bavit se, pracovat, rozhodovat o sobě. Nechceme a nepotřebujeme nikoho, kdo si bude násilím brát plody naší práce..."@,
            language: TextLanguage::Czech,
            difficulty: 6,
            suspicion_risk: 9,
        },
    ).insert(
        "state_myth"@,
        ForbiddenTextV {
            id: "state_myth"@,
            title: "Mýtus nezbytnosti státu"@,
            content: "To je sice hezká pohádka, ale bez státu by naše společnost prostě nefungovala. Tak zněla má reakce, když jsem o anarchokapitalismu slyšel poprvé..."@,
            language: TextLanguage::Czech,
            difficulty: 7,
            suspicion_risk: 10,
        },
    ).insert(
        "freedom_eng"@,
        ForbiddenTextV {
            id: "freedom_eng"@,
            title: "The Path to Freedom"@,
            content: "We want only to live freely in peace; we want to love, have fun, work, and make our own decisions. We don't want or need anyone who would forcibly take the fruits of our labor..."@,
            language: TextLanguage::English,
            difficulty: 3,
            suspicion_risk: 7,
        },
    )
}

/// Where the forbidden texts are hidden.
pub open spec fn initial_text_locations() -> Map<Seq<char>, Seq<Seq<char>>> {
    Map::empty().insert("Charrington's Shop"@, seq!["ankap_principles"@, "freedom_eng"@]).insert(
        "Prole District"@,
        seq!["free_market"@],
    ).insert("Ministry of Truth"@, seq!["state_myth"@])
}

/// The whole seeded world.
pub open spec fn initial_world() -> WorldStateV {
    WorldStateV {
        locations: initial_locations(),
        npcs: initial_npcs(),
        current_date: "April 4, 1984"@,
        two_minutes_hate_today: true,
        chocolate_ration: 30,
        current_enemy: "Eurasia"@,
        forbidden_texts: initial_forbidden_texts(),
        text_locations: initial_text_locations(),
    }
}

proof fn lemma_location_keys_distinct()
    ensures
        "Victory Mansions"@ != "Ministry of Truth"@,
        "Victory Mansions"@ != "Canteen"@,
        "Victory Mansions"@ != "Victory Square"@,
        "Victory Mansions"@ != "Prole District"@,
        "Victory Mansions"@ != "Charrington's Shop"@,
        "Victory Mansions"@ != "Ministry of Love"@,
        "Ministry of Truth"@ != "Canteen"@,
        "Ministry of Truth"@ != "Victory Square"@,
        "Ministry of Truth"@ != "Prole District"@,
        "Ministry of Truth"@ != "Charrington's Shop"@,
        "Ministry of Truth"@ != "Ministry of Love"@,
        "Canteen"@ != "Victory Square"@,
        "Canteen"@ != "Prole District"@,
        "Canteen"@ != "Charrington's Shop"@,
        "Canteen"@ != "Ministry of Love"@,
        "Victory Square"@ != "Prole District"@,
        "Victory Square"@ != "Charrington's Shop"@,
        "Victory Square"@ != "Ministry of Love"@,
        "Prole District"@ != "Charrington's Shop"@,
        "Prole District"@ != "Ministry of Love"@,
        "Charrington's Shop"@ != "Ministry of Love"@,
{
    reveal_strlit("Victory Mansions");
    reveal_strlit("Ministry of Truth");
    reveal_strlit("Canteen");
    reveal_strlit("Victory Square");
    reveal_strlit("Prole District");
    reveal_strlit("Charrington's Shop");
    reveal_strlit("Ministry of Love");
    assert("Victory Mansions"@.len() == 16);
    assert("Ministry of Truth"@.len() == 17);
    assert("Canteen"@.len() == 7);
    assert("Victory Square"@.len() == 14);
    assert("Prole District"@.len() == 14);
    assert("Charrington's Shop"@.len() == 18);
    assert("Ministry of Love"@.len() == 16);
    assert("Victory Mansions"@[0] == 'V' && "Ministry of Love"@[0] == 'M');
    assert("Victory Square"@[0] == 'V' && "Prole District"@[0] == 'P');
}

proof fn lemma_npc_keys_distinct()
    ensures
        "O'Brien"@ != "Julia"@,
        "O'Brien"@ != "Charrington"@,
        "O'Brien"@ != "Parsons"@,
        "O'Brien"@ != "Syme"@,
        "O'Brien"@ != "Old Trader"@,
        "Julia"@ != "Charrington"@,
        "Julia"@ != "Parsons"@,
        "Julia"@ != "Syme"@,
        "Julia"@ != "Old Trader"@,
        "Charrington"@ != "Parsons"@,
        "Charrington"@ != "Syme"@,
        "Charrington"@ != "Old Trader"@,
        "Parsons"@ != "Syme"@,
        "Parsons"@ != "Old Trader"@,
        "Syme"@ != "Old Trader"@,
{
    reveal_strlit("O'Brien");
    reveal_strlit("Julia");
    reveal_strlit("Charrington");
    reveal_strlit("Parsons");
    reveal_strlit("Syme");
    reveal_strlit("Old Trader");
    assert("O'Brien"@.len() == 7);
    assert("Julia"@.len() == 5);
    assert("Charrington"@.len() == 11);
    assert("Parsons"@.len() == 7);
    assert("Syme"@.len() == 4);
    assert("Old Trader"@.len() == 10);
    assert("O'Brien"@[0] == 'O' && "Parsons"@[0] == 'P');
}

proof fn lemma_text_keys_distinct()
    ensures
        "ankap_principles"@ != "free_market"@,
        "ankap_principles"@ != "state_myth"@,
        "ankap_principles"@ != "freedom_eng"@,
        "free_market"@ != "state_myth"@,
        "free_market"@ != "freedom_eng"@,
        "state_myth"@ != "freedom_eng"@,
{
    reveal_strlit("ankap_principles");
    reveal_strlit("free_market");
    reveal_strlit("state_myth");
    reveal_strlit("freedom_eng");
    assert("ankap_principles"@.len() == 16);
    assert("free_market"@.len() == 11);
    assert("state_myth"@.len() == 10);
    assert("freedom_eng"@.len() == 11);
    assert("free_market"@[4] == '_' && "freedom_eng"@[4] == 'd');
}

impl WorldState {
    /// Seed the fixed graph of locations, the cast of non-player
    /// characters, the forbidden texts, and the world-level flags.
    pub fn initialize() -> (r: WorldState)
        ensures
            r.wf(),
            r@ == initial_world(),
    {
        proof {
            lemma_location_keys_distinct();
            lemma_npc_keys_distinct();
            lemma_text_keys_distinct();
        }
        let mut locations: StrMap<Location> = StrMap::new();
        proof {
            assert(locations_view(locations@) =~= Map::<Seq<char>, LocationV>::empty());
        }
        add_location(
            &mut locations,
            "Victory Mansions",
            "Your dilapidated apartment building. The telescreen on the wall continuously broadcasts Party propaganda.",
            conns2("Ministry of Truth", "Victory Square"),
            3,
        );
        add_location(
            &mut locations,
            "Ministry of Truth",
            "A massive pyramidal structure where historical documents are rewritten to match Party narratives.",
            conns3("Victory Mansions", "Victory Square", "Canteen"),
            1,
        );
        add_location(
            &mut locations,
            "Canteen",
            "A gray cafeteria serving tasteless Victory meals and Victory Gin.",
            conns1("Ministry of Truth"),
            2,
        );
        add_location(
            &mut locations,
            "Victory Square",
            "The central square where public executions and rallies are held.",
            conns4("Victory Mansions", "Ministry of Truth", "Prole District", "Charrington's Shop"),
            1,
        );
        add_location(
            &mut locations,
            "Prole District",
            "The rundown area where the proles (working class) live with less surveillance.",
            conns2("Victory Square", "Charrington's Shop"),
            4,
        );
        add_location(
            &mut locations,
            "Charrington's Shop",
            "An antique shop run by an elderly man. It has a room upstairs without a telescreen.",
            conns2("Victory Square", "Prole District"),
            3,
        );
        add_location(
            &mut locations,
            "Ministry of Love",
            "The terrifying windowless building where enemies of the Party are taken. Room 101 is inside.",
            conns0(),
            0,
        );

        let mut npcs: StrMap<Npc> = StrMap::new();
        proof {
            assert(npcs_view(npcs@) =~= Map::<Seq<char>, NpcV>::empty());
        }
        add_npc(
            &mut npcs,
            "O'Brien",
            "A high-ranking Inner Party member who seems to have rebellious tendencies.",
            0,
            "Ministry of Truth",
        );
        add_npc(
            &mut npcs,
            "Julia",
            "A young woman who works in the Fiction Department of the Ministry of Truth.",
            80,
            "Ministry of Truth",
        );
        add_npc(
            &mut npcs,
            "Charrington",
            "The seemingly friendly old man who runs the antique shop.",
            -100,
            "Charrington's Shop",
        );
        add_npc(
            &mut npcs,
            "Parsons",
            "Your neighbor, an enthusiastic Party supporter whose children spy on adults.",
            20,
            "Victory Mansions",
        );
        add_npc(
            &mut npcs,
            "Syme",
            "A philologist working on the 11th edition of the Newspeak dictionary.",
            50,
            "Canteen",
        );
        add_npc(
            &mut npcs,
            "Old Trader",
            "An elderly prole who trades in black market goods and seems to remember life before the Party.",
            70,
            "Prole District",
        );

        let mut forbidden_texts: StrMap<ForbiddenText> = StrMap::new();
        proof {
            assert(texts_view(forbidden_texts@) =~= Map::<Seq<char>, ForbiddenTextV>::empty());
        }
        add_text(
            &mut forbidden_texts,
            "ankap_principles",
            "Principy dobrovolnosti",
            "Anarchokapitalismus je založen na myšlence oboustranné dobrovolnosti: Nikdo by neměl být nucen a nikomu by nemělo být bráněno nabízet ostatním produkty své práce za libovolných podmínek...",
            TextLanguage::Czech,
            5,
            8,
        );
        add_text(
            &mut forbidden_texts,
            "free_market",
            "Volný trh a svoboda jednotlivce",
            "Chceme jen svobodně žít v klidu a míru; chceme milovat, bavit se, pracovat, rozhodovat o sobě. Nechceme a nepotřebujeme nikoho, kdo si bude násilím brát plody naší práce...",
            TextLanguage::Czech,
            6,
            9,
        );
        add_text(
            &mut forbidden_texts,
            "state_myth",
            "Mýtus nezbytnosti státu",
            "To je sice hezká pohádka, ale bez státu by naše společnost prostě nefungovala. Tak zněla má reakce, když jsem o anarchokapitalismu slyšel poprvé...",
            TextLanguage::Czech,
            7,
            10,
        );
        add_text(
            &mut forbidden_texts,
            "freedom_eng",
            "The Path to Freedom",
            "We want only to live freely in peace; we want to love, have fun, work, and make our own decisions. We don't want or need anyone who would forcibly take the fruits of our labor...",
            TextLanguage::English,
            3,
            7,
        );

        let mut text_locations: StrMap<Vec<String>> = StrMap::new();
        proof {
            assert(placements_view(text_locations@) =~= Map::<Seq<char>, Seq<Seq<char>>>::empty());
        }
        add_placement(
            &mut text_locations,
            "Charrington's Shop",
            conns2("ankap_principles", "freedom_eng"),
        );
        add_placement(&mut text_locations, "Prole District", conns1("free_market"));
        add_placement(&mut text_locations, "Ministry of Truth", conns1("state_myth"));

        let r = WorldState {
            locations,
            npcs,
            current_date: String::from_str("April 4, 1984"),
            two_minutes_hate_today: true,
            chocolate_ration: 30,
            current_enemy: String::from_str("Eurasia"),
            forbidden_texts,
            text_locations,
        };
        proof {
            assert(r@ =~= initial_world());
        }
        r
    }
}

/// The seeded world contains the designated home location, so a freshly
/// created character always stands at a valid key of the location map.
pub proof fn lemma_initial_world_has_home()
    ensures
        initial_world().locations.contains_key(home_location()),
{
    lemma_location_keys_distinct();
}

} // verus!
