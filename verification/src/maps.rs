//! Association maps backing the world model.
//!
//! The world keeps several small mappings (locations by name, characters by
//! player identity, NPC trust by name). Each is a vector of key/value pairs
//! whose keys are pairwise distinct; the abstract value of such a map is a
//! `Map` from the keys' views to the values.

use vstd::prelude::*;

verus! {

/// The map denoted by a sequence of string-keyed pairs; a later pair with
/// the same key view would win, but well-formed maps keep keys distinct.
pub open spec fn str_assoc_map<T>(s: Seq<(String, T)>) -> Map<Seq<char>, T>
    decreases s.len(),
{
    if s.len() == 0 {
        Map::empty()
    } else {
        str_assoc_map(s.drop_last()).insert(s.last().0@, s.last().1)
    }
}

/// The map denoted by a sequence of identity-keyed pairs.
pub open spec fn id_assoc_map<T>(s: Seq<(u128, T)>) -> Map<u128, T>
    decreases s.len(),
{
    if s.len() == 0 {
        Map::empty()
    } else {
        id_assoc_map(s.drop_last()).insert(s.last().0, s.last().1)
    }
}

pub open spec fn str_keys_distinct<T>(s: Seq<(String, T)>) -> bool {
    forall|i: int, j: int| 0 <= i < j < s.len() ==> s[i].0@ != s[j].0@
}

pub open spec fn id_keys_distinct<T>(s: Seq<(u128, T)>) -> bool {
    forall|i: int, j: int| 0 <= i < j < s.len() ==> s[i].0 != s[j].0
}

pub proof fn lemma_str_assoc_contains<T>(s: Seq<(String, T)>, k: Seq<char>)
    ensures
        str_assoc_map(s).contains_key(k) <==> exists|i: int| 0 <= i < s.len() && s[i].0@ == k,
    decreases s.len(),
{
    if s.len() > 0 {
        let prefix = s.drop_last();
        lemma_str_assoc_contains(prefix, k);
        if s.last().0@ == k {
            assert(s[s.len() - 1].0@ == k);
        } else {
            if str_assoc_map(s).contains_key(k) {
                let i = choose|i: int| 0 <= i < prefix.len() && prefix[i].0@ == k;
                assert(s[i].0@ == k);
            }
            if exists|i: int| 0 <= i < s.len() && s[i].0@ == k {
                let i = choose|i: int| 0 <= i < s.len() && s[i].0@ == k;
                assert(prefix[i].0@ == k);
            }
        }
    }
}

pub proof fn lemma_str_assoc_index<T>(s: Seq<(String, T)>, i: int)
    requires
        str_keys_distinct(s),
        0 <= i < s.len(),
    ensures
        str_assoc_map(s).contains_key(s[i].0@),
        str_assoc_map(s)[s[i].0@] == s[i].1,
    decreases s.len(),
{
    if i < s.len() - 1 {
        let prefix = s.drop_last();
        lemma_str_assoc_index(prefix, i);
    }
}

pub proof fn lemma_str_assoc_len<T>(s: Seq<(String, T)>)
    requires
        str_keys_distinct(s),
    ensures
        str_assoc_map(s).dom().finite(),
        str_assoc_map(s).dom().len() == s.len(),
    decreases s.len(),
{
    if s.len() > 0 {
        let prefix = s.drop_last();
        lemma_str_assoc_len(prefix);
        lemma_str_assoc_contains(prefix, s.last().0@);
        assert(!str_assoc_map(prefix).contains_key(s.last().0@));
    }
}

pub proof fn lemma_str_assoc_remove_at<T>(s: Seq<(String, T)>, i: int)
    requires
        str_keys_distinct(s),
        0 <= i < s.len(),
    ensures
        str_keys_distinct(s.remove(i)),
        str_assoc_map(s.remove(i)) == str_assoc_map(s).remove(s[i].0@),
    decreases s.len(),
{
    let k = s[i].0@;
    let t = s.remove(i);
    assert(str_keys_distinct(t));
    if i == s.len() - 1 {
        assert(t =~= s.drop_last());
        lemma_str_assoc_contains(t, k);
        assert(!str_assoc_map(t).contains_key(k));
        assert(str_assoc_map(s) == str_assoc_map(t).insert(k, s[i].1));
        assert(str_assoc_map(t) =~= str_assoc_map(s).remove(k));
    } else {
        let prefix = s.drop_last();
        lemma_str_assoc_remove_at(prefix, i);
        assert(t.drop_last() =~= prefix.remove(i));
        assert(t.last() == s.last());
        assert(str_assoc_map(t) == str_assoc_map(prefix.remove(i)).insert(
            s.last().0@,
            s.last().1,
        ));
        assert(s.last().0@ != k);
        assert(str_assoc_map(t) =~= str_assoc_map(s).remove(k));
    }
}

pub proof fn lemma_id_assoc_contains<T>(s: Seq<(u128, T)>, k: u128)
    ensures
        id_assoc_map(s).contains_key(k) <==> exists|i: int| 0 <= i < s.len() && s[i].0 == k,
    decreases s.len(),
{
    if s.len() > 0 {
        let prefix = s.drop_last();
        lemma_id_assoc_contains(prefix, k);
        if s.last().0 == k {
            assert(s[s.len() - 1].0 == k);
        } else {
            if id_assoc_map(s).contains_key(k) {
                let i = choose|i: int| 0 <= i < prefix.len() && prefix[i].0 == k;
                assert(s[i].0 == k);
            }
            if exists|i: int| 0 <= i < s.len() && s[i].0 == k {
                let i = choose|i: int| 0 <= i < s.len() && s[i].0 == k;
                assert(prefix[i].0 == k);
            }
        }
    }
}

pub proof fn lemma_id_assoc_index<T>(s: Seq<(u128, T)>, i: int)
    requires
        id_keys_distinct(s),
        0 <= i < s.len(),
    ensures
        id_assoc_map(s).contains_key(s[i].0),
        id_assoc_map(s)[s[i].0] == s[i].1,
    decreases s.len(),
{
    if i < s.len() - 1 {
        let prefix = s.drop_last();
        lemma_id_assoc_index(prefix, i);
    }
}

pub proof fn lemma_id_assoc_len<T>(s: Seq<(u128, T)>)
    requires
        id_keys_distinct(s),
    ensures
        id_assoc_map(s).dom().finite(),
        id_assoc_map(s).dom().len() == s.len(),
    decreases s.len(),
{
    if s.len() > 0 {
        let prefix = s.drop_last();
        lemma_id_assoc_len(prefix);
        lemma_id_assoc_contains(prefix, s.last().0);
        assert(!id_assoc_map(prefix).contains_key(s.last().0));
    }
}

pub proof fn lemma_id_assoc_remove_at<T>(s: Seq<(u128, T)>, i: int)
    requires
        id_keys_distinct(s),
        0 <= i < s.len(),
    ensures
        id_keys_distinct(s.remove(i)),
        id_assoc_map(s.remove(i)) == id_assoc_map(s).remove(s[i].0),
    decreases s.len(),
{
    let k = s[i].0;
    let t = s.remove(i);
    assert(id_keys_distinct(t));
    if i == s.len() - 1 {
        assert(t =~= s.drop_last());
        lemma_id_assoc_contains(t, k);
        assert(!id_assoc_map(t).contains_key(k));
        assert(id_assoc_map(s) == id_assoc_map(t).insert(k, s[i].1));
        assert(id_assoc_map(t) =~= id_assoc_map(s).remove(k));
    } else {
        let prefix = s.drop_last();
        lemma_id_assoc_remove_at(prefix, i);
        assert(t.drop_last() =~= prefix.remove(i));
        assert(t.last() == s.last());
        assert(id_assoc_map(t) == id_assoc_map(prefix.remove(i)).insert(s.last().0, s.last().1));
        assert(s.last().0 != k);
        assert(id_assoc_map(t) =~= id_assoc_map(s).remove(k));
    }
}

pub proof fn lemma_str_assoc_update_value<T>(s: Seq<(String, T)>, i: int, v: T)
    requires
        str_keys_distinct(s),
        0 <= i < s.len(),
    ensures
        str_keys_distinct(s.update(i, (s[i].0, v))),
        str_assoc_map(s.update(i, (s[i].0, v))) == str_assoc_map(s).insert(s[i].0@, v),
    decreases s.len(),
{
    let k = s[i].0@;
    let t = s.update(i, (s[i].0, v));
    assert(str_keys_distinct(t));
    if i == s.len() - 1 {
        assert(t.drop_last() =~= s.drop_last());
        assert(str_assoc_map(t) == str_assoc_map(s.drop_last()).insert(k, v));
        assert(str_assoc_map(s.drop_last()).insert(k, v) =~= str_assoc_map(s).insert(k, v));
    } else {
        let prefix = s.drop_last();
        lemma_str_assoc_update_value(prefix, i, v);
        assert(t.drop_last() =~= prefix.update(i, (s[i].0, v)));
        assert(t.last() == s.last());
        assert(str_assoc_map(t) == str_assoc_map(prefix).insert(k, v).insert(
            s.last().0@,
            s.last().1,
        ));
        assert(s.last().0@ != k);
        assert(str_assoc_map(prefix).insert(k, v).insert(s.last().0@, s.last().1)
            =~= str_assoc_map(s).insert(k, v));
    }
}

pub proof fn lemma_id_assoc_update_value<T>(s: Seq<(u128, T)>, i: int, v: T)
    requires
        id_keys_distinct(s),
        0 <= i < s.len(),
    ensures
        id_keys_distinct(s.update(i, (s[i].0, v))),
        id_assoc_map(s.update(i, (s[i].0, v))) == id_assoc_map(s).insert(s[i].0, v),
    decreases s.len(),
{
    let k = s[i].0;
    let t = s.update(i, (s[i].0, v));
    assert(id_keys_distinct(t));
    if i == s.len() - 1 {
        assert(t.drop_last() =~= s.drop_last());
        assert(id_assoc_map(t) == id_assoc_map(s.drop_last()).insert(k, v));
        assert(id_assoc_map(s.drop_last()).insert(k, v) =~= id_assoc_map(s).insert(k, v));
    } else {
        let prefix = s.drop_last();
        lemma_id_assoc_update_value(prefix, i, v);
        assert(t.drop_last() =~= prefix.update(i, (s[i].0, v)));
        assert(t.last() == s.last());
        assert(id_assoc_map(t) == id_assoc_map(prefix).insert(k, v).insert(
            s.last().0,
            s.last().1,
        ));
        assert(s.last().0 != k);
        assert(id_assoc_map(prefix).insert(k, v).insert(s.last().0, s.last().1)
            =~= id_assoc_map(s).insert(k, v));
    }
}

/// The deep value of a string-keyed map: each value replaced by its view.
pub open spec fn deep_str_map<T: DeepView>(m: Map<Seq<char>, T>) -> Map<Seq<char>, T::V> {
    m.map_values(|t: T| t.deep_view())
}

/// The deep value of an identity-keyed map.
pub open spec fn deep_id_map<T: DeepView>(m: Map<u128, T>) -> Map<u128, T::V> {
    m.map_values(|t: T| t.deep_view())
}

pub proof fn lemma_deep_str_map_dom<T: DeepView>(m: Map<Seq<char>, T>)
    ensures
        deep_str_map(m).dom() == m.dom(),
{
    assert(deep_str_map(m).dom() =~= m.dom());
}

pub proof fn lemma_deep_str_map_insert<T: DeepView>(m: Map<Seq<char>, T>, k: Seq<char>, v: T)
    ensures
        deep_str_map(m.insert(k, v)) == deep_str_map(m).insert(k, v.deep_view()),
{
    assert(deep_str_map(m.insert(k, v)) =~= deep_str_map(m).insert(k, v.deep_view()));
}

pub proof fn lemma_deep_id_map_dom<T: DeepView>(m: Map<u128, T>)
    ensures
        deep_id_map(m).dom() == m.dom(),
{
    assert(deep_id_map(m).dom() =~= m.dom());
}

pub proof fn lemma_deep_id_map_insert<T: DeepView>(m: Map<u128, T>, k: u128, v: T)
    ensures
        deep_id_map(m.insert(k, v)) == deep_id_map(m).insert(k, v.deep_view()),
{
    assert(deep_id_map(m.insert(k, v)) =~= deep_id_map(m).insert(k, v.deep_view()));
}

pub proof fn lemma_deep_id_map_remove<T: DeepView>(m: Map<u128, T>, k: u128)
    ensures
        deep_id_map(m.remove(k)) == deep_id_map(m).remove(k),
{
    assert(deep_id_map(m.remove(k)) =~= deep_id_map(m).remove(k));
}

pub proof fn lemma_deep_str_map_index<T: DeepView>(m: Map<Seq<char>, T>, k: Seq<char>)
    requires
        m.contains_key(k),
    ensures
        deep_str_map(m).contains_key(k),
        deep_str_map(m)[k] == m[k].deep_view(),
{
}

pub proof fn lemma_deep_id_map_index<T: DeepView>(m: Map<u128, T>, k: u128)
    requires
        m.contains_key(k),
    ensures
        deep_id_map(m).contains_key(k),
        deep_id_map(m)[k] == m[k].deep_view(),
{
}

/// A value that can be copied so that the copy has the same deep view.
pub trait DeepClone: DeepView + Sized {
    fn deep_clone(&self) -> (r: Self)
        ensures
            r.deep_view() == self.deep_view(),
    ;
}

impl DeepClone for String {
    fn deep_clone(&self) -> (r: Self)
        ensures
            r.deep_view() == self.deep_view(),
    {
        self.clone()
    }
}

impl DeepClone for u8 {
    fn deep_clone(&self) -> (r: Self)
        ensures
            r.deep_view() == self.deep_view(),
    {
        *self
    }
}

impl DeepClone for i8 {
    fn deep_clone(&self) -> (r: Self)
        ensures
            r.deep_view() == self.deep_view(),
    {
        *self
    }
}

impl DeepClone for u32 {
    fn deep_clone(&self) -> (r: Self)
        ensures
            r.deep_view() == self.deep_view(),
    {
        *self
    }
}

impl<T: DeepClone> DeepClone for Vec<T> {
    fn deep_clone(&self) -> (r: Self)
        ensures
            r.deep_view() == self.deep_view(),
    {
        let mut r: Vec<T> = Vec::new();
        let n = self.len();
        let mut i: usize = 0;
        while i < n
            invariant
                n == self@.len(),
                0 <= i <= n,
                r@.len() == i,
                forall|j: int| 0 <= j < i ==> r@[j].deep_view() == self@[j].deep_view(),
            decreases n - i,
        {
            r.push(self[i].deep_clone());
            i += 1;
        }
        proof {
            assert(r.deep_view() =~= self.deep_view());
        }
        r
    }
}

impl<T: DeepClone> DeepClone for Option<T> {
    fn deep_clone(&self) -> (r: Self)
        ensures
            r.deep_view() == self.deep_view(),
    {
        match self {
            Some(v) => Some(v.deep_clone()),
            None => None,
        }
    }
}

proof fn lemma_str_assoc_deep_congruent<T: DeepView>(s1: Seq<(String, T)>, s2: Seq<(String, T)>)
    requires
        s1.len() == s2.len(),
        forall|j: int|
            0 <= j < s1.len() ==> s1[j].0 == s2[j].0 && s1[j].1.deep_view()
                == s2[j].1.deep_view(),
    ensures
        deep_str_map(str_assoc_map(s1)) == deep_str_map(str_assoc_map(s2)),
    decreases s1.len(),
{
    if s1.len() > 0 {
        let p1 = s1.drop_last();
        let p2 = s2.drop_last();
        lemma_str_assoc_deep_congruent(p1, p2);
        lemma_deep_str_map_insert(str_assoc_map(p1), s1.last().0@, s1.last().1);
        lemma_deep_str_map_insert(str_assoc_map(p2), s2.last().0@, s2.last().1);
        assert(s1.last().0 == s2.last().0);
        assert(s1.last().1.deep_view() == s2.last().1.deep_view());
    }
}

proof fn lemma_id_assoc_deep_congruent<T: DeepView>(s1: Seq<(u128, T)>, s2: Seq<(u128, T)>)
    requires
        s1.len() == s2.len(),
        forall|j: int|
            0 <= j < s1.len() ==> s1[j].0 == s2[j].0 && s1[j].1.deep_view()
                == s2[j].1.deep_view(),
    ensures
        deep_id_map(id_assoc_map(s1)) == deep_id_map(id_assoc_map(s2)),
    decreases s1.len(),
{
    if s1.len() > 0 {
        let p1 = s1.drop_last();
        let p2 = s2.drop_last();
        lemma_id_assoc_deep_congruent(p1, p2);
        lemma_deep_id_map_insert(id_assoc_map(p1), s1.last().0, s1.last().1);
        lemma_deep_id_map_insert(id_assoc_map(p2), s2.last().0, s2.last().1);
        assert(s1.last().0 == s2.last().0);
        assert(s1.last().1.deep_view() == s2.last().1.deep_view());
    }
}

/// A map from string names to values, with pairwise-distinct keys.
pub struct StrMap<T> {
    entries: Vec<(String, T)>,
}

impl<T> View for StrMap<T> {
    type V = Map<Seq<char>, T>;

    closed spec fn view(&self) -> Map<Seq<char>, T> {
        str_assoc_map(self.entries@)
    }
}

impl<T> StrMap<T> {
    /// Keys are pairwise distinct; holds of every map the library builds.
    pub closed spec fn wf(&self) -> bool {
        str_keys_distinct(self.entries@)
    }

    /// The pairs in insertion order; the abstract map is their association.
    pub closed spec fn kvs(&self) -> Seq<(String, T)> {
        self.entries@
    }

    /// The abstract map is the association of the underlying pairs.
    pub proof fn lemma_abs(&self)
        ensures
            self@ == str_assoc_map(self.kvs()),
            self.wf() == str_keys_distinct(self.kvs()),
    {
    }

    pub fn new() -> (r: Self)
        ensures
            r@ == Map::<Seq<char>, T>::empty(),
            r.kvs() == Seq::<(String, T)>::empty(),
            r.wf(),
    {
        StrMap { entries: Vec::new() }
    }

    /// Index of the first pair whose key matches, if any.
    fn position_of(&self, k: &String) -> (r: Option<usize>)
        ensures
            match r {
                Some(i) => i < self.kvs().len() && self.kvs()[i as int].0@ == k@,
                None => forall|j: int| 0 <= j < self.kvs().len() ==> self.kvs()[j].0@ != k@,
            },
    {
        let n = self.entries.len();
        let mut i: usize = 0;
        while i < n
            invariant
                n == self.entries@.len(),
                0 <= i <= n,
                forall|j: int| 0 <= j < i ==> self.entries@[j].0@ != k@,
            decreases n - i,
        {
            if self.entries[i].0 == *k {
                return Some(i);
            }
            i += 1;
        }
        None
    }

    pub fn contains_key(&self, k: &String) -> (r: bool)
        ensures
            r == self@.contains_key(k@),
    {
        match self.position_of(k) {
            Some(i) => {
                proof {
                    lemma_str_assoc_contains(self.entries@, k@);
                    assert(self.entries@[i as int].0@ == k@);
                }
                true
            },
            None => {
                proof {
                    lemma_str_assoc_contains(self.entries@, k@);
                    if str_assoc_map(self.entries@).contains_key(k@) {
                        let j = choose|j: int|
                            0 <= j < self.entries@.len() && self.entries@[j].0@ == k@;
                        assert(self.kvs()[j].0@ != k@);
                    }
                }
                false
            },
        }
    }

    pub fn get<'a>(&'a self, k: &String) -> (r: Option<&'a T>)
        requires
            self.wf(),
        ensures
            match r {
                Some(v) => self@.contains_key(k@) && *v == self@[k@],
                None => !self@.contains_key(k@),
            },
    {
        match self.position_of(k) {
            Some(i) => {
                proof {
                    assert(self.entries@[i as int].0@ == k@);
                    lemma_str_assoc_index(self.entries@, i as int);
                }
                Some(&self.entries[i].1)
            },
            None => {
                proof {
                    lemma_str_assoc_contains(self.entries@, k@);
                    if str_assoc_map(self.entries@).contains_key(k@) {
                        let j = choose|j: int|
                            0 <= j < self.entries@.len() && self.entries@[j].0@ == k@;
                        assert(self.kvs()[j].0@ != k@);
                    }
                }
                None
            },
        }
    }

    /// Insert a binding for a key not yet present.
    pub fn insert(&mut self, k: String, v: T)
        requires
            old(self).wf(),
            !old(self)@.contains_key(k@),
        ensures
            final(self)@ == old(self)@.insert(k@, v),
            final(self).kvs() == old(self).kvs().push((k, v)),
            final(self).wf(),
    {
        proof {
            lemma_str_assoc_contains(self.entries@, k@);
        }
        let ghost pre = self.entries@;
        self.entries.push((k, v));
        proof {
            assert(self.entries@.drop_last() =~= pre);
            assert forall|a: int, b: int|
                0 <= a < b < self.entries@.len() implies self.entries@[a].0@
                != self.entries@[b].0@ by {
                if b < pre.len() {
                    assert(self.entries@[a] == pre[a]);
                    assert(self.entries@[b] == pre[b]);
                } else {
                    assert(self.entries@[a] == pre[a]);
                    assert(self.entries@[b].0@ == k@);
                }
            }
        }
    }

    /// Replace the value bound to a key already present.
    pub fn replace(&mut self, k: &String, v: T)
        requires
            old(self).wf(),
            old(self)@.contains_key(k@),
        ensures
            final(self)@ == old(self)@.insert(k@, v),
            final(self).wf(),
    {
        proof {
            lemma_str_assoc_contains(self.entries@, k@);
        }
        let ghost pre = self.entries@;
        match self.position_of(k) {
            Some(i) => {
                self.entries[i].1 = v;
                proof {
                    assert(pre[i as int].0@ == k@);
                    assert(self.entries@ =~= pre.update(i as int, (pre[i as int].0, v)));
                    lemma_str_assoc_update_value(pre, i as int, v);
                }
            },
            None => {
                proof {
                    let j = choose|j: int| 0 <= j < pre.len() && pre[j].0@ == k@;
                    assert(self.kvs()[j].0@ != k@);
                    assert(false);
                }
            },
        }
    }

    /// Remove a binding if present; removing an absent key changes nothing.
    pub fn remove(&mut self, k: &String)
        requires
            old(self).wf(),
        ensures
            final(self)@ == old(self)@.remove(k@),
            final(self).wf(),
    {
        proof {
            lemma_str_assoc_contains(self.entries@, k@);
        }
        let ghost pre = self.entries@;
        match self.position_of(k) {
            Some(i) => {
                proof {
                    lemma_str_assoc_remove_at(pre, i as int);
                }
                self.entries.remove(i);
            },
            None => {
                proof {
                    if str_assoc_map(pre).contains_key(k@) {
                        let j = choose|j: int| 0 <= j < pre.len() && pre[j].0@ == k@;
                        assert(self.kvs()[j].0@ != k@);
                    }
                    assert(str_assoc_map(pre) =~= str_assoc_map(pre).remove(k@));
                }
            },
        }
    }

    pub fn len(&self) -> (r: usize)
        requires
            self.wf(),
        ensures
            r == self.kvs().len(),
            self@.dom().finite(),
            r == self@.dom().len(),
            self@ == str_assoc_map(self.kvs()),
            str_keys_distinct(self.kvs()),
    {
        proof {
            lemma_str_assoc_len(self.entries@);
        }
        self.entries.len()
    }

    pub fn key_at(&self, i: usize) -> (r: &String)
        requires
            self.wf(),
            i < self.kvs().len(),
        ensures
            *r == self.kvs()[i as int].0,
            self@.contains_key(r@),
            self@[r@] == self.kvs()[i as int].1,
    {
        proof {
            lemma_str_assoc_index(self.entries@, i as int);
        }
        &self.entries[i].0
    }

    pub fn value_at(&self, i: usize) -> (r: &T)
        requires
            i < self.kvs().len(),
        ensures
            *r == self.kvs()[i as int].1,
    {
        &self.entries[i].1
    }
}

/// A map from 128-bit player identities to values, with distinct keys.
pub struct IdMap<T> {
    entries: Vec<(u128, T)>,
}

impl<T> View for IdMap<T> {
    type V = Map<u128, T>;

    closed spec fn view(&self) -> Map<u128, T> {
        id_assoc_map(self.entries@)
    }
}

impl<T> IdMap<T> {
    /// Keys are pairwise distinct; holds of every map the library builds.
    pub closed spec fn wf(&self) -> bool {
        id_keys_distinct(self.entries@)
    }

    /// The pairs in insertion order; the abstract map is their association.
    pub closed spec fn kvs(&self) -> Seq<(u128, T)> {
        self.entries@
    }

    /// The abstract map is the association of the underlying pairs.
    pub proof fn lemma_abs(&self)
        ensures
            self@ == id_assoc_map(self.kvs()),
            self.wf() == id_keys_distinct(self.kvs()),
    {
    }

    pub fn new() -> (r: Self)
        ensures
            r@ == Map::<u128, T>::empty(),
            r.kvs() == Seq::<(u128, T)>::empty(),
            r.wf(),
    {
        IdMap { entries: Vec::new() }
    }

    /// Index of the first pair whose key matches, if any.
    fn position_of(&self, k: u128) -> (r: Option<usize>)
        ensures
            match r {
                Some(i) => i < self.kvs().len() && self.kvs()[i as int].0 == k,
                None => forall|j: int| 0 <= j < self.kvs().len() ==> self.kvs()[j].0 != k,
            },
    {
        let n = self.entries.len();
        let mut i: usize = 0;
        while i < n
            invariant
                n == self.entries@.len(),
                0 <= i <= n,
                forall|j: int| 0 <= j < i ==> self.entries@[j].0 != k,
            decreases n - i,
        {
            if self.entries[i].0 == k {
                return Some(i);
            }
            i += 1;
        }
        None
    }

    pub fn contains_key(&self, k: u128) -> (r: bool)
        ensures
            r == self@.contains_key(k),
    {
        match self.position_of(k) {
            Some(i) => {
                proof {
                    lemma_id_assoc_contains(self.entries@, k);
                    assert(self.entries@[i as int].0 == k);
                }
                true
            },
            None => {
                proof {
                    lemma_id_assoc_contains(self.entries@, k);
                    if id_assoc_map(self.entries@).contains_key(k) {
                        let j = choose|j: int|
                            0 <= j < self.entries@.len() && self.entries@[j].0 == k;
                        assert(self.kvs()[j].0 != k);
                    }
                }
                false
            },
        }
    }

    pub fn get<'a>(&'a self, k: u128) -> (r: Option<&'a T>)
        requires
            self.wf(),
        ensures
            match r {
                Some(v) => self@.contains_key(k) && *v == self@[k],
                None => !self@.contains_key(k),
            },
    {
        match self.position_of(k) {
            Some(i) => {
                proof {
                    assert(self.entries@[i as int].0 == k);
                    lemma_id_assoc_index(self.entries@, i as int);
                }
                Some(&self.entries[i].1)
            },
            None => {
                proof {
                    lemma_id_assoc_contains(self.entries@, k);
                    if id_assoc_map(self.entries@).contains_key(k) {
                        let j = choose|j: int|
                            0 <= j < self.entries@.len() && self.entries@[j].0 == k;
                        assert(self.kvs()[j].0 != k);
                    }
                }
                None
            },
        }
    }

    /// Insert a binding for an identity not yet present.
    pub fn insert(&mut self, k: u128, v: T)
        requires
            old(self).wf(),
            !old(self)@.contains_key(k),
        ensures
            final(self)@ == old(self)@.insert(k, v),
            final(self).kvs() == old(self).kvs().push((k, v)),
            final(self).wf(),
    {
        proof {
            lemma_id_assoc_contains(self.entries@, k);
        }
        let ghost pre = self.entries@;
        self.entries.push((k, v));
        proof {
            assert(self.entries@.drop_last() =~= pre);
            assert forall|a: int, b: int|
                0 <= a < b < self.entries@.len() implies self.entries@[a].0
                != self.entries@[b].0 by {
                if b < pre.len() {
                    assert(self.entries@[a] == pre[a]);
                    assert(self.entries@[b] == pre[b]);
                } else {
                    assert(self.entries@[a] == pre[a]);
                    assert(self.entries@[b].0 == k);
                }
            }
        }
    }

    /// Replace the value bound to an identity already present.
    pub fn replace(&mut self, k: u128, v: T)
        requires
            old(self).wf(),
            old(self)@.contains_key(k),
        ensures
            final(self)@ == old(self)@.insert(k, v),
            final(self).wf(),
    {
        proof {
            lemma_id_assoc_contains(self.entries@, k);
        }
        let ghost pre = self.entries@;
        match self.position_of(k) {
            Some(i) => {
                self.entries[i].1 = v;
                proof {
                    assert(pre[i as int].0 == k);
                    assert(self.entries@ =~= pre.update(i as int, (pre[i as int].0, v)));
                    lemma_id_assoc_update_value(pre, i as int, v);
                }
            },
            None => {
                proof {
                    let j = choose|j: int| 0 <= j < pre.len() && pre[j].0 == k;
                    assert(self.kvs()[j].0 != k);
                    assert(false);
                }
            },
        }
    }

    /// Remove a binding if present; removing an absent identity changes
    /// nothing.
    pub fn remove(&mut self, k: u128)
        requires
            old(self).wf(),
        ensures
            final(self)@ == old(self)@.remove(k),
            final(self).wf(),
    {
        proof {
            lemma_id_assoc_contains(self.entries@, k);
        }
        let ghost pre = self.entries@;
        match self.position_of(k) {
            Some(i) => {
                proof {
                    lemma_id_assoc_remove_at(pre, i as int);
                }
                self.entries.remove(i);
            },
            None => {
                proof {
                    if id_assoc_map(pre).contains_key(k) {
                        let j = choose|j: int| 0 <= j < pre.len() && pre[j].0 == k;
                        assert(self.kvs()[j].0 != k);
                    }
                    assert(id_assoc_map(pre) =~= id_assoc_map(pre).remove(k));
                }
            },
        }
    }

    pub fn len(&self) -> (r: usize)
        requires
            self.wf(),
        ensures
            r == self.kvs().len(),
            self@.dom().finite(),
            r == self@.dom().len(),
            self@ == id_assoc_map(self.kvs()),
            id_keys_distinct(self.kvs()),
    {
        proof {
            lemma_id_assoc_len(self.entries@);
        }
        self.entries.len()
    }

    pub fn key_at(&self, i: usize) -> (r: u128)
        requires
            self.wf(),
            i < self.kvs().len(),
        ensures
            r == self.kvs()[i as int].0,
            self@.contains_key(r),
            self@[r] == self.kvs()[i as int].1,
    {
        proof {
            lemma_id_assoc_index(self.entries@, i as int);
        }
        self.entries[i].0
    }

    pub fn value_at(&self, i: usize) -> (r: &T)
        requires
            i < self.kvs().len(),
        ensures
            *r == self.kvs()[i as int].1,
    {
        &self.entries[i].1
    }
}

impl<T: DeepView> DeepView for StrMap<T> {
    type V = Map<Seq<char>, T::V>;

    open spec fn deep_view(&self) -> Map<Seq<char>, T::V> {
        deep_str_map(self@)
    }
}

impl<T: DeepClone> DeepClone for StrMap<T> {
    /// A copy whose keys are the same strings and whose values have the
    /// same deep views.
    fn deep_clone(&self) -> (r: Self)
        ensures
            r.deep_view() == self.deep_view(),
            r@.dom() == self@.dom(),
            self.wf() ==> r.wf(),
    {
        let mut entries: Vec<(String, T)> = Vec::new();
        let n = self.entries.len();
        let mut i: usize = 0;
        while i < n
            invariant
                n == self.entries@.len(),
                0 <= i <= n,
                entries@.len() == i,
                forall|j: int|
                    0 <= j < i ==> entries@[j].0 == self.entries@[j].0
                        && entries@[j].1.deep_view() == self.entries@[j].1.deep_view(),
            decreases n - i,
        {
            let k = self.entries[i].0.clone();
            let v = self.entries[i].1.deep_clone();
            entries.push((k, v));
            i += 1;
        }
        let r = StrMap { entries };
        proof {
            lemma_str_assoc_deep_congruent(r.entries@, self.entries@);
            assert forall|q: Seq<char>| #[trigger] r@.dom().contains(q) == self@.dom().contains(
                q,
            ) by {
                lemma_str_assoc_contains(r.entries@, q);
                lemma_str_assoc_contains(self.entries@, q);
                if r@.dom().contains(q) {
                    let j = choose|j: int| 0 <= j < r.entries@.len() && r.entries@[j].0@ == q;
                    assert(self.entries@[j].0@ == q);
                }
                if self@.dom().contains(q) {
                    let j = choose|j: int|
                        0 <= j < self.entries@.len() && self.entries@[j].0@ == q;
                    assert(r.entries@[j].0@ == q);
                }
            }
            assert(r@.dom() =~= self@.dom());
        }
        r
    }
}

impl<T: DeepView> DeepView for IdMap<T> {
    type V = Map<u128, T::V>;

    open spec fn deep_view(&self) -> Map<u128, T::V> {
        deep_id_map(self@)
    }
}

impl<T: DeepClone> DeepClone for IdMap<T> {
    /// A copy whose keys are the same identities and whose values have the
    /// same deep views.
    fn deep_clone(&self) -> (r: Self)
        ensures
            r.deep_view() == self.deep_view(),
            r@.dom() == self@.dom(),
            self.wf() ==> r.wf(),
    {
        let mut entries: Vec<(u128, T)> = Vec::new();
        let n = self.entries.len();
        let mut i: usize = 0;
        while i < n
            invariant
                n == self.entries@.len(),
                0 <= i <= n,
                entries@.len() == i,
                forall|j: int|
                    0 <= j < i ==> entries@[j].0 == self.entries@[j].0
                        && entries@[j].1.deep_view() == self.entries@[j].1.deep_view(),
            decreases n - i,
        {
            let k = self.entries[i].0;
            let v = self.entries[i].1.deep_clone();
            entries.push((k, v));
            i += 1;
        }
        let r = IdMap { entries };
        proof {
            lemma_id_assoc_deep_congruent(r.entries@, self.entries@);
            assert forall|q: u128| #[trigger] r@.dom().contains(q) == self@.dom().contains(q) by {
                lemma_id_assoc_contains(r.entries@, q);
                lemma_id_assoc_contains(self.entries@, q);
                if r@.dom().contains(q) {
                    let j = choose|j: int| 0 <= j < r.entries@.len() && r.entries@[j].0 == q;
                    assert(self.entries@[j].0 == q);
                }
                if self@.dom().contains(q) {
                    let j = choose|j: int| 0 <= j < self.entries@.len() && self.entries@[j].0 == q;
                    assert(r.entries@[j].0 == q);
                }
            }
            assert(r@.dom() =~= self@.dom());
        }
        r
    }
}

} // verus!
