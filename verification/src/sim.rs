//! The termination pass of the simulation tick: every character whose
//! health has reached zero or whose suspicion has peaked is narrated to,
//! removed from the world, announced to the remaining players, and has its
//! connection closed — each exactly once.

use vstd::prelude::*;
use crate::character::Character;
use crate::maps::{
    id_keys_distinct, lemma_deep_id_map_dom, lemma_deep_id_map_index, lemma_id_assoc_contains,
    lemma_id_assoc_index,
};
use crate::state::{state_inv, GameState};

verus! {

/// A delivery the tick asks the shell to make.
pub enum TickEvent {
    /// A sender-only narrative explaining the cause, sent before removal.
    Narrative { player_id: u128, text: String },
    /// A "player left" announcement for everyone but the removed player.
    PlayerLeftNotice { player_id: u128 },
    /// A best-effort connection-close signal to the removed player.
    CloseConnection { player_id: u128 },
}

/// Ghost value of a [`TickEvent`].
#[verifier::ext_equal]
pub enum TickEventV {
    Narrative { player_id: u128, text: Seq<char> },
    PlayerLeftNotice { player_id: u128 },
    CloseConnection { player_id: u128 },
}

impl View for TickEvent {
    type V = TickEventV;

    open spec fn view(&self) -> TickEventV {
        match self {
            TickEvent::Narrative { player_id, text } => TickEventV::Narrative {
                player_id: *player_id,
                text: text@,
            },
            TickEvent::PlayerLeftNotice { player_id } => TickEventV::PlayerLeftNotice {
                player_id: *player_id,
            },
            TickEvent::CloseConnection { player_id } => TickEventV::CloseConnection {
                player_id: *player_id,
            },
        }
    }
}

impl DeepView for TickEvent {
    type V = TickEventV;

    open spec fn deep_view(&self) -> TickEventV {
        self.view()
    }
}

/// A character meets a termination condition: death or arrest.
pub open spec fn terminated(c: crate::character::CharacterV) -> bool {
    c.health == 0 || c.suspicion >= 100
}

/// The narrative sent to a player whose health reached zero.
pub open spec fn death_text() -> Seq<char> {
    "Your health reached zero. You succumb to the harsh realities of Oceania."@
}

/// The narrative sent to a player arrested by the Thought Police.
pub open spec fn arrest_text() -> Seq<char> {
    "Your suspicion level reached its peak. You are arrested by the Thought Police and taken to the Ministry of Love. Your journey ends here."@
}

/// The narrative owed to a terminated character, by cause.
pub open spec fn cause_text(c: crate::character::CharacterV) -> Seq<char> {
    if c.health == 0 {
        death_text()
    } else {
        arrest_text()
    }
}

/// The narratives of the scan phase, in roster order.
pub open spec fn scan_events(s: Seq<(u128, Character)>) -> Seq<TickEventV>
    decreases s.len(),
{
    if s.len() == 0 {
        Seq::empty()
    } else {
        (if terminated(s[0].1@) {
            seq![TickEventV::Narrative { player_id: s[0].0, text: cause_text(s[0].1@) }]
        } else {
            Seq::empty()
        }) + scan_events(s.drop_first())
    }
}

/// The identities marked for removal, in roster order.
pub open spec fn marked_ids(s: Seq<(u128, Character)>) -> Seq<u128>
    decreases s.len(),
{
    if s.len() == 0 {
        Seq::empty()
    } else {
        (if terminated(s[0].1@) {
            seq![s[0].0]
        } else {
            Seq::empty()
        }) + marked_ids(s.drop_first())
    }
}

/// The announcement and close signal of the removal phase, per marked
/// identity in order.
pub open spec fn removal_events(ids: Seq<u128>) -> Seq<TickEventV>
    decreases ids.len(),
{
    if ids.len() == 0 {
        Seq::empty()
    } else {
        seq![
            TickEventV::PlayerLeftNotice { player_id: ids[0] },
            TickEventV::CloseConnection { player_id: ids[0] },
        ] + removal_events(ids.drop_first())
    }
}

/// Everything one termination pass emits, in order: all narratives of the
/// scan, then one announcement and one close per removed player.
pub open spec fn tick_events(s: Seq<(u128, Character)>) -> Seq<TickEventV> {
    scan_events(s) + removal_events(marked_ids(s))
}

proof fn lemma_scan_events_snoc(s: Seq<(u128, Character)>, p: (u128, Character))
    ensures
        scan_events(s.push(p)) == scan_events(s) + (if terminated(p.1@) {
            seq![TickEventV::Narrative { player_id: p.0, text: cause_text(p.1@) }]
        } else {
            Seq::<TickEventV>::empty()
        }),
        marked_ids(s.push(p)) == marked_ids(s) + (if terminated(p.1@) {
            seq![p.0]
        } else {
            Seq::<u128>::empty()
        }),
    decreases s.len(),
{
    let t = s.push(p);
    assert(scan_events(Seq::<(u128, Character)>::empty()) == Seq::<TickEventV>::empty());
    assert(marked_ids(Seq::<(u128, Character)>::empty()) == Seq::<u128>::empty());
    if s.len() == 0 {
        assert(t.len() == 1);
        assert(t[0] == p);
        assert(t.drop_first() =~= Seq::<(u128, Character)>::empty());
        assert(t.drop_first() == Seq::<(u128, Character)>::empty());
        assert(scan_events(t) =~= scan_events(s) + (if terminated(p.1@) {
            seq![TickEventV::Narrative { player_id: p.0, text: cause_text(p.1@) }]
        } else {
            Seq::<TickEventV>::empty()
        }));
        assert(marked_ids(t) =~= marked_ids(s) + (if terminated(p.1@) {
            seq![p.0]
        } else {
            Seq::<u128>::empty()
        }));
    } else {
        assert(t[0] == s[0]);
        assert(t.drop_first() =~= s.drop_first().push(p));
        lemma_scan_events_snoc(s.drop_first(), p);
        assert(scan_events(t) =~= scan_events(s) + (if terminated(p.1@) {
            seq![TickEventV::Narrative { player_id: p.0, text: cause_text(p.1@) }]
        } else {
            Seq::<TickEventV>::empty()
        }));
        assert(marked_ids(t) =~= marked_ids(s) + (if terminated(p.1@) {
            seq![p.0]
        } else {
            Seq::<u128>::empty()
        }));
    }
}

proof fn lemma_removal_events_take(ids: Seq<u128>, j: int)
    requires
        0 <= j < ids.len(),
    ensures
        removal_events(ids.take(j + 1)) == removal_events(ids.take(j)) + seq![
            TickEventV::PlayerLeftNotice { player_id: ids[j] },
            TickEventV::CloseConnection { player_id: ids[j] },
        ],
    decreases j,
{
    assert(removal_events(Seq::<u128>::empty()) == Seq::<TickEventV>::empty());
    if j == 0 {
        assert(ids.take(1).len() == 1);
        assert(ids.take(1)[0] == ids[0]);
        assert(ids.take(1).drop_first() =~= Seq::<u128>::empty());
        assert(ids.take(1).drop_first() == Seq::<u128>::empty());
        assert(ids.take(0) =~= Seq::<u128>::empty());
        assert(removal_events(ids.take(0)) =~= Seq::<TickEventV>::empty());
        assert(removal_events(ids.take(1)) =~= removal_events(ids.take(0)) + seq![
            TickEventV::PlayerLeftNotice { player_id: ids[0] },
            TickEventV::CloseConnection { player_id: ids[0] },
        ]);
    } else {
        lemma_removal_events_take(ids.drop_first(), j - 1);
        assert(ids.take(j + 1)[0] == ids[0]);
        assert(ids.take(j)[0] == ids[0]);
        assert(ids.take(j + 1).drop_first() =~= ids.drop_first().take(j));
        assert(ids.take(j).drop_first() =~= ids.drop_first().take(j - 1));
        assert(ids.drop_first()[j - 1] == ids[j]);
        assert(removal_events(ids.take(j + 1)) =~= removal_events(ids.take(j)) + seq![
            TickEventV::PlayerLeftNotice { player_id: ids[j] },
            TickEventV::CloseConnection { player_id: ids[j] },
        ]);
    }
}

/// How many "player left" announcements a sequence of events holds for one
/// identity.
pub open spec fn count_left_notices(es: Seq<TickEventV>, id: u128) -> nat
    decreases es.len(),
{
    if es.len() == 0 {
        0
    } else {
        (if es[0] == (TickEventV::PlayerLeftNotice { player_id: id }) {
            1 as nat
        } else {
            0 as nat
        }) + count_left_notices(es.drop_first(), id)
    }
}

/// How many connection-close signals a sequence of events holds for one
/// identity.
pub open spec fn count_closes(es: Seq<TickEventV>, id: u128) -> nat
    decreases es.len(),
{
    if es.len() == 0 {
        0
    } else {
        (if es[0] == (TickEventV::CloseConnection { player_id: id }) {
            1 as nat
        } else {
            0 as nat
        }) + count_closes(es.drop_first(), id)
    }
}

/// How often an identity occurs in a sequence of identities.
pub open spec fn count_occurrences(ids: Seq<u128>, id: u128) -> nat
    decreases ids.len(),
{
    if ids.len() == 0 {
        0
    } else {
        (if ids[0] == id {
            1 as nat
        } else {
            0 as nat
        }) + count_occurrences(ids.drop_first(), id)
    }
}

proof fn lemma_count_concat(a: Seq<TickEventV>, b: Seq<TickEventV>, id: u128)
    ensures
        count_left_notices(a + b, id) == count_left_notices(a, id) + count_left_notices(b, id),
        count_closes(a + b, id) == count_closes(a, id) + count_closes(b, id),
    decreases a.len(),
{
    if a.len() == 0 {
        assert(a + b =~= b);
    } else {
        lemma_count_concat(a.drop_first(), b, id);
        assert((a + b)[0] == a[0]);
        assert((a + b).drop_first() =~= a.drop_first() + b);
    }
}

proof fn lemma_scan_counts_zero(s: Seq<(u128, Character)>, id: u128)
    ensures
        count_left_notices(scan_events(s), id) == 0,
        count_closes(scan_events(s), id) == 0,
    decreases s.len(),
{
    assert(count_left_notices(Seq::<TickEventV>::empty(), id) == 0);
    assert(count_closes(Seq::<TickEventV>::empty(), id) == 0);
    if s.len() == 0 {
        assert(scan_events(s) == Seq::<TickEventV>::empty());
    } else {
        lemma_scan_counts_zero(s.drop_first(), id);
        if terminated(s[0].1@) {
            let head = seq![
                TickEventV::Narrative { player_id: s[0].0, text: cause_text(s[0].1@) },
            ];
            assert(scan_events(s) == head + scan_events(s.drop_first()));
            lemma_count_concat(head, scan_events(s.drop_first()), id);
            assert(head.drop_first() =~= Seq::<TickEventV>::empty());
            assert(head.drop_first() == Seq::<TickEventV>::empty());
            assert(count_left_notices(head, id) == 0);
            assert(count_closes(head, id) == 0);
        } else {
            assert(scan_events(s) == Seq::<TickEventV>::empty() + scan_events(s.drop_first()));
            assert(Seq::<TickEventV>::empty() + scan_events(s.drop_first()) =~= scan_events(
                s.drop_first(),
            ));
        }
    }
}

proof fn lemma_removal_counts(ids: Seq<u128>, id: u128)
    ensures
        count_left_notices(removal_events(ids), id) == count_occurrences(ids, id),
        count_closes(removal_events(ids), id) == count_occurrences(ids, id),
    decreases ids.len(),
{
    reveal_with_fuel(count_left_notices, 4);
    reveal_with_fuel(count_closes, 4);
    assert(count_left_notices(Seq::<TickEventV>::empty(), id) == 0);
    assert(count_closes(Seq::<TickEventV>::empty(), id) == 0);
    if ids.len() == 0 {
        assert(removal_events(ids) == Seq::<TickEventV>::empty());
        assert(count_occurrences(ids, id) == 0);
    } else {
        lemma_removal_counts(ids.drop_first(), id);
        let head = seq![
            TickEventV::PlayerLeftNotice { player_id: ids[0] },
            TickEventV::CloseConnection { player_id: ids[0] },
        ];
        assert(removal_events(ids) == head + removal_events(ids.drop_first()));
        lemma_count_concat(head, removal_events(ids.drop_first()), id);
        assert(head.drop_first() =~= seq![TickEventV::CloseConnection { player_id: ids[0] }]);
        assert(head.drop_first() == seq![TickEventV::CloseConnection { player_id: ids[0] }]);
        assert(head.drop_first().drop_first() =~= Seq::<TickEventV>::empty());
        assert(head.drop_first().drop_first() == Seq::<TickEventV>::empty());
        assert(count_left_notices(head, id) == (if ids[0] == id {
            1 as nat
        } else {
            0 as nat
        }));
        assert(count_closes(head, id) == (if ids[0] == id {
            1 as nat
        } else {
            0 as nat
        }));
    }
}

/// An identity is marked exactly when some roster entry with that identity
/// is terminated.
pub proof fn lemma_marked_ids_membership(s: Seq<(u128, Character)>, id: u128)
    ensures
        marked_ids(s).contains(id) <==> exists|i: int|
            0 <= i < s.len() && s[i].0 == id && terminated(s[i].1@),
    decreases s.len(),
{
    if s.len() > 0 {
        let rest = s.drop_first();
        lemma_marked_ids_membership(rest, id);
        let m = marked_ids(s);
        if terminated(s[0].1@) {
            assert(m == seq![s[0].0] + marked_ids(rest));
            if s[0].0 == id {
                assert(m[0] == id);
                assert(m.contains(id));
                assert(s[0].0 == id && terminated(s[0].1@));
            } else {
                if m.contains(id) {
                    let j = choose|j: int| 0 <= j < m.len() && m[j] == id;
                    assert(marked_ids(rest)[j - 1] == id);
                    assert(marked_ids(rest).contains(id));
                    let i = choose|i: int|
                        0 <= i < rest.len() && rest[i].0 == id && terminated(rest[i].1@);
                    assert(s[i + 1].0 == id && terminated(s[i + 1].1@));
                }
                if exists|i: int| 0 <= i < s.len() && s[i].0 == id && terminated(s[i].1@) {
                    let i = choose|i: int| 0 <= i < s.len() && s[i].0 == id && terminated(s[i].1@);
                    assert(i > 0);
                    assert(rest[i - 1].0 == id && terminated(rest[i - 1].1@));
                    assert(marked_ids(rest).contains(id));
                    let j = choose|j: int|
                        0 <= j < marked_ids(rest).len() && marked_ids(rest)[j] == id;
                    assert(m[j + 1] == id);
                    assert(m.contains(id));
                }
            }
        } else {
            assert(m =~= marked_ids(rest));
            if m.contains(id) {
                let i = choose|i: int|
                    0 <= i < rest.len() && rest[i].0 == id && terminated(rest[i].1@);
                assert(s[i + 1].0 == id && terminated(s[i + 1].1@));
            }
            if exists|i: int| 0 <= i < s.len() && s[i].0 == id && terminated(s[i].1@) {
                let i = choose|i: int| 0 <= i < s.len() && s[i].0 == id && terminated(s[i].1@);
                assert(i > 0);
                assert(rest[i - 1].0 == id && terminated(rest[i - 1].1@));
            }
        }
    }
}

proof fn lemma_count_zero_if_absent(ids: Seq<u128>, id: u128)
    requires
        !ids.contains(id),
    ensures
        count_occurrences(ids, id) == 0,
    decreases ids.len(),
{
    if ids.len() > 0 {
        assert(ids[0] != id);
        assert forall|j: int| 0 <= j < ids.drop_first().len() implies ids.drop_first()[j]
            != id by {
            assert(ids.drop_first()[j] == ids[j + 1]);
        }
        lemma_count_zero_if_absent(ids.drop_first(), id);
    }
}

/// In a roster with distinct identities, each terminated identity is
/// marked exactly once, and no other identity is marked at all.
pub proof fn lemma_marked_count(s: Seq<(u128, Character)>, id: u128)
    requires
        id_keys_distinct(s),
    ensures
        count_occurrences(marked_ids(s), id) == (if exists|i: int|
            0 <= i < s.len() && s[i].0 == id && terminated(s[i].1@) {
            1 as nat
        } else {
            0 as nat
        }),
    decreases s.len(),
{
    lemma_marked_ids_membership(s, id);
    if s.len() > 0 {
        let rest = s.drop_first();
        assert(id_keys_distinct(rest)) by {
            assert forall|a: int, b: int| 0 <= a < b < rest.len() implies rest[a].0
                != rest[b].0 by {
                assert(rest[a] == s[a + 1] && rest[b] == s[b + 1]);
            }
        }
        lemma_marked_count(rest, id);
        lemma_marked_ids_membership(rest, id);
        if terminated(s[0].1@) {
            let m = marked_ids(s);
            assert(m == seq![s[0].0] + marked_ids(rest));
            assert(m[0] == s[0].0);
            assert(m.drop_first() =~= marked_ids(rest));
            if s[0].0 == id {
                assert(!marked_ids(rest).contains(id)) by {
                    if exists|i: int|
                        0 <= i < rest.len() && rest[i].0 == id && terminated(rest[i].1@) {
                        let i = choose|i: int|
                            0 <= i < rest.len() && rest[i].0 == id && terminated(rest[i].1@);
                        assert(s[i + 1].0 == s[0].0);
                        assert(false);
                    }
                }
                lemma_count_zero_if_absent(marked_ids(rest), id);
            } else {
                if exists|i: int| 0 <= i < s.len() && s[i].0 == id && terminated(s[i].1@) {
                    let i = choose|i: int| 0 <= i < s.len() && s[i].0 == id && terminated(s[i].1@);
                    assert(i > 0);
                    assert(rest[i - 1].0 == id && terminated(rest[i - 1].1@));
                }
            }
        } else {
            assert(marked_ids(s) =~= marked_ids(rest));
            assert(count_occurrences(marked_ids(s), id) == count_occurrences(
                marked_ids(rest),
                id,
            ));
            if exists|i: int| 0 <= i < s.len() && s[i].0 == id && terminated(s[i].1@) {
                let i = choose|i: int| 0 <= i < s.len() && s[i].0 == id && terminated(s[i].1@);
                assert(i > 0);
                assert(rest[i - 1].0 == id && terminated(rest[i - 1].1@));
            }
        }
    }
}

/// Termination is handled exactly once: for a roster with distinct
/// identities, one pass announces each terminated player's departure
/// exactly once and closes that player's connection exactly once, and
/// touches nobody else. Once the player is gone from the roster, a further
/// pass emits nothing for that identity at all.
pub proof fn lemma_termination_once(s: Seq<(u128, Character)>, id: u128)
    requires
        id_keys_distinct(s),
    ensures
        count_left_notices(tick_events(s), id) == count_occurrences(marked_ids(s), id),
        count_closes(tick_events(s), id) == count_occurrences(marked_ids(s), id),
        (exists|i: int| 0 <= i < s.len() && s[i].0 == id && terminated(s[i].1@))
            ==> count_left_notices(tick_events(s), id) == 1,
        !(exists|i: int| 0 <= i < s.len() && s[i].0 == id) ==> count_left_notices(
            tick_events(s),
            id,
        ) == 0 && count_closes(tick_events(s), id) == 0,
{
    lemma_scan_counts_zero(s, id);
    lemma_removal_counts(marked_ids(s), id);
    lemma_count_concat(scan_events(s), removal_events(marked_ids(s)), id);
    lemma_marked_count(s, id);
}

/// One termination pass over the world, made under the world lock each
/// tick: narrate to every character whose health is zero or whose
/// suspicion has peaked, remove each from the roster, and emit one
/// departure announcement and one close signal per removed player, in that
/// order. Everyone else is untouched.
#[verifier::loop_isolation(false)]
pub fn tick_terminations(state: &mut GameState) -> (events: Vec<TickEvent>)
    requires
        old(state).wf(),
        state_inv(old(state)@),
    ensures
        final(state).wf(),
        state_inv(final(state)@),
        final(state)@.world_state == old(state)@.world_state,
        final(state)@.day == old(state)@.day,
        events.deep_view() == tick_events(old(state).players.kvs()),
        id_keys_distinct(old(state).players.kvs()),
        forall|id: u128| #[trigger]
            final(state)@.players.contains_key(id) <==> (old(state)@.players.contains_key(id)
                && !terminated(old(state)@.players[id])),
        forall|id: u128| #[trigger]
            final(state)@.players.contains_key(id) ==> final(state)@.players[id]
                == old(state)@.players[id],
        forall|id: u128| #[trigger]
            marked_ids(old(state).players.kvs()).contains(id) <==> (old(state)@.players.contains_key(id)
                && terminated(old(state)@.players[id])),
{
    let ghost kvs = old(state).players.kvs();
    let n = state.players.len();
    let mut marked: Vec<u128> = Vec::new();
    let mut events: Vec<TickEvent> = Vec::new();
    let mut i: usize = 0;
    proof {
        assert(kvs.take(0) =~= Seq::<(u128, Character)>::empty());
        assert(events.deep_view() =~= scan_events(kvs.take(0)));
        assert(marked@ =~= marked_ids(kvs.take(0)));
    }
    while i < n
        invariant
            *state == *old(state),
            state.players.wf(),
            kvs == state.players.kvs(),
            n == kvs.len(),
            0 <= i <= n,
            events.deep_view() == scan_events(kvs.take(i as int)),
            marked@ == marked_ids(kvs.take(i as int)),
        decreases n - i,
    {
        let id = state.players.key_at(i);
        let terminal: bool = {
            let ch = state.players.value_at(i);
            if ch.health == 0 {
                events.push(
                    TickEvent::Narrative {
                        player_id: id,
                        text: String::from_str(
                            "Your health reached zero. You succumb to the harsh realities of Oceania.",
                        ),
                    },
                );
                true
            } else if ch.suspicion >= 100 {
                events.push(
                    TickEvent::Narrative {
                        player_id: id,
                        text: String::from_str(
                            "Your suspicion level reached its peak. You are arrested by the Thought Police and taken to the Ministry of Love. Your journey ends here.",
                        ),
                    },
                );
                true
            } else {
                false
            }
        };
        if terminal {
            marked.push(id);
        }
        proof {
            assert(kvs.take(i + 1 as int) =~= kvs.take(i as int).push(kvs[i as int]));
            lemma_scan_events_snoc(kvs.take(i as int), kvs[i as int]);
            assert(events.deep_view() =~= scan_events(kvs.take(i + 1 as int)));
            assert(marked@ =~= marked_ids(kvs.take(i + 1 as int)));
        }
        i += 1;
    }
    proof {
        assert(kvs.take(n as int) =~= kvs);
    }
    let m = marked.len();
    let mut j: usize = 0;
    proof {
        assert(marked@.take(0) =~= Seq::<u128>::empty());
        assert(removal_events(marked@.take(0)) == Seq::<TickEventV>::empty());
        assert(events.deep_view() =~= scan_events(kvs) + removal_events(marked@.take(0)));
        assert(marked@ == marked_ids(kvs));
    }
    while j < m
        invariant
            state.players.wf(),
            state.world_state == old(state).world_state,
            state.day == old(state).day,
            marked@ == marked_ids(kvs),
            m == marked@.len(),
            0 <= j <= m,
            events.deep_view() == scan_events(kvs) + removal_events(marked@.take(j as int)),
            forall|id: u128| #[trigger]
                state.players@.contains_key(id) <==> (old(state).players@.contains_key(id)
                    && !marked@.take(j as int).contains(id)),
            forall|id: u128| #[trigger]
                state.players@.contains_key(id) ==> state.players@[id]
                    == old(state).players@[id],
        decreases m - j,
    {
        let id = marked[j];
        let ghost pre = state.players@;
        let ghost evs0 = events.deep_view();
        state.players.remove(id);
        events.push(TickEvent::PlayerLeftNotice { player_id: id });
        events.push(TickEvent::CloseConnection { player_id: id });
        proof {
            lemma_removal_events_take(marked@, j as int);
            assert(events.deep_view() =~= evs0.push(
                TickEventV::PlayerLeftNotice { player_id: id },
            ).push(TickEventV::CloseConnection { player_id: id }));
            assert(evs0.push(TickEventV::PlayerLeftNotice { player_id: id }).push(
                TickEventV::CloseConnection { player_id: id },
            ) =~= scan_events(kvs) + removal_events(marked@.take(j + 1 as int)));
            assert(events.deep_view() == scan_events(kvs) + removal_events(
                marked@.take(j + 1 as int),
            ));
            assert(marked@.take(j + 1 as int) =~= marked@.take(j as int).push(marked@[j as int]));
            assert forall|q: u128| #[trigger]
                state.players@.contains_key(q) <==> (old(state).players@.contains_key(q)
                    && !marked@.take(j + 1 as int).contains(q)) by {
                if marked@.take(j + 1 as int).contains(q) {
                    let x = choose|x: int|
                        0 <= x < j + 1 && #[trigger] marked@.take(j + 1 as int)[x] == q;
                    if x < j {
                        assert(marked@.take(j as int)[x] == q);
                        assert(marked@.take(j as int).contains(q));
                    }
                }
                if marked@.take(j as int).contains(q) {
                    let x = choose|x: int| 0 <= x < j && #[trigger] marked@.take(j as int)[x] == q;
                    assert(marked@.take(j + 1 as int)[x] == q);
                }
                if q == id {
                    assert(marked@.take(j + 1 as int)[j as int] == q);
                }
            }
        }
        j += 1;
    }
    proof {
        assert(marked@.take(m as int) =~= marked@);
        lemma_deep_id_map_dom(state.players@);
        lemma_deep_id_map_dom(old(state).players@);
        assert(old(state).players@ == crate::maps::id_assoc_map(kvs));
        assert(id_keys_distinct(kvs));
        assert forall|id: u128| #[trigger]
            marked_ids(kvs).contains(id) <==> (old(state)@.players.contains_key(id)
                && terminated(old(state)@.players[id])) by {
            lemma_marked_ids_membership(kvs, id);
            lemma_id_assoc_contains(kvs, id);
            if marked_ids(kvs).contains(id) {
                assert(exists|i: int|
                    0 <= i < kvs.len() && kvs[i].0 == id && terminated(kvs[i].1@));
                let x = choose|x: int|
                    0 <= x < kvs.len() && kvs[x].0 == id && terminated(kvs[x].1@);
                assert(0 <= x < kvs.len());
                lemma_id_assoc_index(kvs, x);
                assert(old(state).players@.contains_key(id));
                lemma_deep_id_map_index(old(state).players@, id);
                assert(old(state)@.players[id] == kvs[x].1@);
            }
            if old(state)@.players.contains_key(id) && terminated(old(state)@.players[id]) {
                assert(old(state).players@.contains_key(id));
                assert(exists|i: int| 0 <= i < kvs.len() && kvs[i].0 == id);
                let x = choose|x: int| 0 <= x < kvs.len() && kvs[x].0 == id;
                assert(0 <= x < kvs.len());
                lemma_id_assoc_index(kvs, x);
                lemma_deep_id_map_index(old(state).players@, id);
                assert(terminated(kvs[x].1@));
            }
        }
        assert forall|id: u128| #[trigger]
            final(state)@.players.contains_key(id) <==> (old(state)@.players.contains_key(id)
                && !terminated(old(state)@.players[id])) by {
            if state.players@.contains_key(id) {
                lemma_deep_id_map_index(state.players@, id);
            }
            if old(state).players@.contains_key(id) {
                lemma_deep_id_map_index(old(state).players@, id);
            }
        }
        assert forall|id: u128| #[trigger] final(state)@.players.contains_key(id) implies
            final(state)@.players[id] == old(state)@.players[id] by {
            lemma_deep_id_map_index(state.players@, id);
            lemma_deep_id_map_index(old(state).players@, id);
        }
    }
    events
}

} // verus!
