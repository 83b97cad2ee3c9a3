//! The settings of the desktop client: the account, the hostnames the user
//! picked, and which secrets go to the credential store.
use vstd::prelude::*;

use crate::hosts_api::{json_of, parse_json, text_at, text_member};
use crate::secrets::Slot;
use crate::text::{
    compare_text, lemma_text_less_asymmetric, lemma_text_less_irreflexive,
    lemma_text_less_transitive, text_less, TextOrder,
};

verus! {

/// Entries in strictly increasing order of their names: no name twice.
pub open spec fn keys_sorted(s: Seq<(Seq<char>, bool)>) -> bool {
    forall|i: int, j: int| 0 <= i < j < s.len() ==> text_less(#[trigger] s[i].0, #[trigger] s[j].0)
}

/// Whether some entry has this name.
pub open spec fn has_host(s: Seq<(Seq<char>, bool)>, name: Seq<char>) -> bool {
    exists|i: int| 0 <= i < s.len() && #[trigger] s[i].0 == name
}

/// Whether the entry with this name is selected, if there is one.
pub open spec fn host_value(s: Seq<(Seq<char>, bool)>, name: Seq<char>) -> Option<bool>
    decreases s.len(),
{
    if s.len() == 0 {
        None
    } else if s.last().0 == name {
        Some(s.last().1)
    } else {
        host_value(s.drop_last(), name)
    }
}

/// The names of the selected entries, in order.
pub open spec fn selected_names(s: Seq<(Seq<char>, bool)>) -> Seq<Seq<char>>
    decreases s.len(),
{
    if s.len() == 0 {
        Seq::empty()
    } else if s.last().1 {
        selected_names(s.drop_last()).push(s.last().0)
    } else {
        selected_names(s.drop_last())
    }
}

proof fn lemma_host_value_at(s: Seq<(Seq<char>, bool)>, k: int)
    requires
        keys_sorted(s),
        0 <= k < s.len(),
    ensures
        host_value(s, s[k].0) == Some(s[k].1),
    decreases s.len(),
{
    if k < s.len() - 1 {
        assert(text_less(s[k].0, s[s.len() - 1].0));
        lemma_text_less_asymmetric(s[k].0, s[s.len() - 1].0);
        let t = s.drop_last();
        assert forall|i: int, j: int| 0 <= i < j < t.len() implies text_less(
            #[trigger] t[i].0,
            #[trigger] t[j].0,
        ) by {
            assert(t[i] == s[i] && t[j] == s[j]);
        }
        assert(t[k] == s[k]);
        lemma_host_value_at(t, k);
    }
}

/// In ordered entries, a present name has a selection.
pub proof fn lemma_host_value_present(s: Seq<(Seq<char>, bool)>, name: Seq<char>)
    requires
        keys_sorted(s),
        has_host(s, name),
    ensures
        host_value(s, name) is Some,
{
    let j = choose|j: int| 0 <= j < s.len() && #[trigger] s[j].0 == name;
    lemma_host_value_at(s, j);
}

pub proof fn lemma_host_value_absent(s: Seq<(Seq<char>, bool)>, name: Seq<char>)
    requires
        !has_host(s, name),
    ensures
        host_value(s, name) == None::<bool>,
    decreases s.len(),
{
    if s.len() > 0 {
        assert(s[s.len() - 1].0 != name);
        let t = s.drop_last();
        if has_host(t, name) {
            let i = choose|i: int| 0 <= i < t.len() && #[trigger] t[i].0 == name;
            assert(s[i].0 == name);
        }
        lemma_host_value_absent(t, name);
    }
}

/// The selection of each name after the entry at `i`, named `name`, is set.
proof fn lemma_values_after_update(
    s: Seq<(Seq<char>, bool)>,
    i: int,
    name: Seq<char>,
    on: bool,
    other: Seq<char>,
)
    requires
        keys_sorted(s),
        0 <= i < s.len(),
        s[i].0 == name,
    ensures
        host_value(s.update(i, (name, on)), other) == if other == name {
            Some(on)
        } else {
            host_value(s, other)
        },
{
    let t = s.update(i, (name, on));
    assert forall|a: int, b: int| 0 <= a < b < t.len() implies text_less(
        #[trigger] t[a].0,
        #[trigger] t[b].0,
    ) by {
        assert(t[a].0 == s[a].0 && t[b].0 == s[b].0);
    }
    if other == name {
        lemma_host_value_at(t, i);
    } else if has_host(s, other) {
        let j = choose|j: int| 0 <= j < s.len() && #[trigger] s[j].0 == other;
        assert(t[j] == s[j]);
        lemma_host_value_at(s, j);
        lemma_host_value_at(t, j);
    } else {
        if has_host(t, other) {
            let j = choose|j: int| 0 <= j < t.len() && #[trigger] t[j].0 == other;
            assert(s[j].0 == other);
        }
        lemma_host_value_absent(s, other);
        lemma_host_value_absent(t, other);
    }
}

/// The selection of each name after a new entry is put at `i`.
proof fn lemma_values_after_insert(
    s: Seq<(Seq<char>, bool)>,
    i: int,
    name: Seq<char>,
    on: bool,
    other: Seq<char>,
)
    requires
        keys_sorted(s),
        keys_sorted(s.insert(i, (name, on))),
        0 <= i <= s.len(),
        !has_host(s, name),
    ensures
        host_value(s.insert(i, (name, on)), other) == if other == name {
            Some(on)
        } else {
            host_value(s, other)
        },
{
    let t = s.insert(i, (name, on));
    if other == name {
        lemma_host_value_at(t, i);
    } else if has_host(s, other) {
        let j = choose|j: int| 0 <= j < s.len() && #[trigger] s[j].0 == other;
        let j2 = if j < i {
            j
        } else {
            j + 1
        };
        assert(t[j2] == s[j]);
        lemma_host_value_at(s, j);
        lemma_host_value_at(t, j2);
    } else {
        if has_host(t, other) {
            let j = choose|j: int| 0 <= j < t.len() && #[trigger] t[j].0 == other;
            if j < i {
                assert(s[j].0 == other);
            } else if j > i {
                assert(s[j - 1].0 == other);
            }
        }
        lemma_host_value_absent(s, other);
        lemma_host_value_absent(t, other);
    }
}

/// The selection of each name after the entry at `i`, named `name`, goes.
proof fn lemma_values_after_remove(s: Seq<(Seq<char>, bool)>, i: int, name: Seq<char>, other: Seq<char>)
    requires
        keys_sorted(s),
        keys_sorted(s.remove(i)),
        0 <= i < s.len(),
        s[i].0 == name,
    ensures
        host_value(s.remove(i), other) == if other == name {
            None
        } else {
            host_value(s, other)
        },
{
    let t = s.remove(i);
    if has_host(t, other) {
        let j = choose|j: int| 0 <= j < t.len() && #[trigger] t[j].0 == other;
        let j2 = if j < i {
            j
        } else {
            j + 1
        };
        assert(s[j2] == t[j]);
        if other == name {
            if j2 < i {
                assert(text_less(s[j2].0, s[i].0));
            } else {
                assert(text_less(s[i].0, s[j2].0));
            }
            lemma_text_less_irreflexive(name);
        }
        lemma_host_value_at(s, j2);
        lemma_host_value_at(t, j);
    } else {
        lemma_host_value_absent(t, other);
        if other != name && has_host(s, other) {
            let j = choose|j: int| 0 <= j < s.len() && #[trigger] s[j].0 == other;
            if j < i {
                assert(t[j].0 == other);
            } else {
                assert(j != i);
                assert(t[j - 1].0 == other);
            }
        }
        if other != name {
            lemma_host_value_absent(s, other);
        }
    }
}

proof fn lemma_selected_names_members(s: Seq<(Seq<char>, bool)>, n: Seq<char>)
    ensures
        selected_names(s).contains(n) <==> exists|i: int| 0 <= i < s.len() && #[trigger] s[i].0 == n && s[i].1,
    decreases s.len(),
{
    if s.len() > 0 {
        let t = s.drop_last();
        lemma_selected_names_members(t, n);
        if selected_names(s).contains(n) {
            let k = choose|k: int| 0 <= k < selected_names(s).len() && selected_names(s)[k] == n;
            if s.last().1 && k == selected_names(t).len() {
                assert(s[s.len() - 1].0 == n && s[s.len() - 1].1);
            } else {
                assert(selected_names(t)[k] == n);
                assert(selected_names(t).contains(n));
                let i = choose|i: int| 0 <= i < t.len() && #[trigger] t[i].0 == n && t[i].1;
                assert(s[i] == t[i]);
            }
        }
        if exists|i: int| 0 <= i < s.len() && #[trigger] s[i].0 == n && s[i].1 {
            let i = choose|i: int| 0 <= i < s.len() && #[trigger] s[i].0 == n && s[i].1;
            if i == s.len() - 1 {
                assert(selected_names(s).last() == n);
            } else {
                assert(t[i] == s[i]);
                let k = choose|k: int| 0 <= k < selected_names(t).len() && selected_names(t)[k] == n;
                if s.last().1 {
                    assert(selected_names(s)[k] == n);
                }
            }
        }
    }
}

/// The selected hostnames are exactly the names whose entry is selected.
pub proof fn law_selected_hosts_are_the_selected_names(s: Seq<(Seq<char>, bool)>, n: Seq<char>)
    requires
        keys_sorted(s),
    ensures
        selected_names(s).contains(n) <==> host_value(s, n) == Some(true),
{
    lemma_selected_names_members(s, n);
    if has_host(s, n) {
        let j = choose|j: int| 0 <= j < s.len() && #[trigger] s[j].0 == n;
        lemma_host_value_at(s, j);
        if selected_names(s).contains(n) {
            let i = choose|i: int| 0 <= i < s.len() && #[trigger] s[i].0 == n && s[i].1;
            lemma_host_value_at(s, i);
        }
    } else {
        lemma_host_value_absent(s, n);
    }
}

/// Names in strictly increasing order: no name twice.
pub open spec fn names_ascending(v: Seq<Seq<char>>) -> bool {
    forall|i: int, j: int| 0 <= i < j < v.len() ==> text_less(#[trigger] v[i], #[trigger] v[j])
}

/// Of hostnames kept in the order of their names, the selected ones come
/// in strictly increasing order, none twice.
pub proof fn law_selected_names_ascending(s: Seq<(Seq<char>, bool)>)
    requires
        keys_sorted(s),
    ensures
        names_ascending(selected_names(s)),
    decreases s.len(),
{
    if s.len() > 0 {
        let t = s.drop_last();
        assert forall|i: int, j: int| 0 <= i < j < t.len() implies text_less(
            #[trigger] t[i].0,
            #[trigger] t[j].0,
        ) by {
            assert(t[i] == s[i] && t[j] == s[j]);
        }
        law_selected_names_ascending(t);
        if s.last().1 {
            let u = selected_names(t);
            let r = selected_names(s);
            assert(r == u.push(s.last().0));
            assert forall|i: int, j: int| 0 <= i < j < r.len() implies text_less(
                #[trigger] r[i],
                #[trigger] r[j],
            ) by {
                if j < u.len() {
                    assert(r[i] == u[i] && r[j] == u[j]);
                } else {
                    assert(r[i] == u[i]);
                    assert(u.contains(u[i]));
                    lemma_selected_names_members(t, u[i]);
                    let k = choose|k: int| 0 <= k < t.len() && #[trigger] t[k].0 == u[i] && t[k].1;
                    assert(s[k] == t[k]);
                    assert(text_less(s[k].0, s[s.len() - 1].0));
                }
            }
        }
    }
}

/// The hostnames of the desktop client, each selected for updates or not,
/// kept in the order of their names.
pub struct HostSet {
    entries: Vec<(String, bool)>,
}

impl View for HostSet {
    type V = Seq<(Seq<char>, bool)>;

    closed spec fn view(&self) -> Seq<(Seq<char>, bool)> {
        self.entries@.map_values(|e: (String, bool)| (e.0@, e.1))
    }
}

impl HostSet {
    #[verifier::type_invariant]
    spec fn inv(self) -> bool {
        keys_sorted(self@)
    }

    /// No hostnames.
    pub fn new() -> (h: HostSet)
        ensures
            h@ == Seq::<(Seq<char>, bool)>::empty(),
            keys_sorted(h@),
    {
        let h = HostSet { entries: Vec::new() };
        assert(h@ =~= Seq::<(Seq<char>, bool)>::empty());
        h
    }

    /// The number of hostnames.
    pub fn len(&self) -> (n: usize)
        ensures
            n == self@.len(),
    {
        self.entries.len()
    }

    /// Whether there are no hostnames.
    pub fn is_empty(&self) -> (b: bool)
        ensures
            b == (self@.len() == 0),
    {
        self.entries.len() == 0
    }

    /// The first position whose name is not below `name`, and whether the
    /// name there is `name`.
    fn locate(&self, name: &str) -> (r: (usize, bool))
        ensures
            r.0 <= self@.len(),
            forall|j: int| 0 <= j < r.0 ==> text_less(#[trigger] self@[j].0, name@),
            r.1 ==> r.0 < self@.len() && self@[r.0 as int].0 == name@,
            !r.1 ==> r.0 == self@.len() || text_less(name@, self@[r.0 as int].0),
    {
        proof {
            use_type_invariant(self);
        }
        let mut i: usize = 0;
        while i < self.entries.len()
            invariant
                0 <= i <= self@.len(),
                self@.len() == self.entries@.len(),
                keys_sorted(self@),
                forall|j: int| 0 <= j < i ==> text_less(#[trigger] self@[j].0, name@),
            decreases self@.len() - i,
        {
            assert(self@[i as int].0 == self.entries@[i as int].0@);
            match compare_text(self.entries[i].0.as_str(), name) {
                TextOrder::Less => {},
                TextOrder::Equal => {
                    return (i, true);
                },
                TextOrder::Greater => {
                    return (i, false);
                },
            }
            i = i + 1;
        }
        (i, false)
    }

    /// Whether `name` is selected, or `None` when it is not a hostname here.
    pub fn get(&self, name: &str) -> (r: Option<bool>)
        ensures
            r == host_value(self@, name@),
    {
        proof {
            use_type_invariant(self);
        }
        let (i, found) = self.locate(name);
        if found {
            proof {
                lemma_host_value_at(self@, i as int);
            }
            Some(self.entries[i].1)
        } else {
            proof {
                self.lemma_absent_at(i, name@);
                lemma_host_value_absent(self@, name@);
            }
            None
        }
    }

    /// Adds `name` with the given selection, unless it is already there
    /// (`entry(name).or_insert(on)`).
    pub fn insert_if_absent(&mut self, name: String, on: bool)
        ensures
            keys_sorted(final(self)@),
            forall|other: Seq<char>|
                #![trigger host_value(final(self)@, other)]
                host_value(final(self)@, other) == if other == name@ && !has_host(
                    old(self)@,
                    name@,
                ) {
                    Some(on)
                } else {
                    host_value(old(self)@, other)
                },
            has_host(old(self)@, name@) ==> final(self)@ == old(self)@,
            !has_host(old(self)@, name@) ==> exists|i: int|
                0 <= i <= old(self)@.len() && final(self)@ == old(self)@.insert(i, (name@, on)),
    {
        proof {
            use_type_invariant(&*self);
        }
        let (i, found) = self.locate(name.as_str());
        if found {
            assert(has_host(old(self)@, name@));
            return;
        }
        proof {
            self.lemma_absent_at(i, name@);
        }
        let ghost key = name@;
        let ghost before = self@;
        self.put_at(i, name, on);
        proof {
            assert forall|other: Seq<char>| #![trigger host_value(self@, other)]
                host_value(self@, other) == if other == key && !has_host(before, key) {
                    Some(on)
                } else {
                    host_value(before, other)
                } by {
                lemma_values_after_insert(before, i as int, key, on, other);
            }
        }
    }

    /// Sets the selection of `name`, adding it when missing.
    pub fn set(&mut self, name: String, on: bool)
        ensures
            keys_sorted(final(self)@),
            forall|other: Seq<char>|
                #![trigger host_value(final(self)@, other)]
                host_value(final(self)@, other) == if other == name@ {
                    Some(on)
                } else {
                    host_value(old(self)@, other)
                },
            has_host(old(self)@, name@) ==> exists|i: int|
                0 <= i < old(self)@.len() && old(self)@[i].0 == name@ && final(self)@ == old(
                    self,
                )@.update(i, (name@, on)),
            !has_host(old(self)@, name@) ==> exists|i: int|
                0 <= i <= old(self)@.len() && final(self)@ == old(self)@.insert(i, (name@, on)),
    {
        let (i, found) = self.locate(name.as_str());
        proof {
            use_type_invariant(&*self);
        }
        if found {
            let ghost before = self@;
            let mut entries = Vec::new();
            std::mem::swap(&mut entries, &mut self.entries);
            entries.set(i, (name, on));
            proof {
                let s = entries@.map_values(|e: (String, bool)| (e.0@, e.1));
                assert(s =~= before.update(i as int, (before[i as int].0, on)));
                assert forall|a: int, b: int| 0 <= a < b < s.len() implies text_less(
                    #[trigger] s[a].0,
                    #[trigger] s[b].0,
                ) by {
                    assert(s[a].0 == before[a].0);
                    assert(s[b].0 == before[b].0);
                }
            }
            self.entries = entries;
            assert(self@ =~= before.update(i as int, (before[i as int].0, on)));
            proof {
                assert forall|other: Seq<char>| #![trigger host_value(self@, other)]
                    host_value(self@, other) == if other == before[i as int].0 {
                        Some(on)
                    } else {
                        host_value(before, other)
                    } by {
                    lemma_values_after_update(before, i as int, before[i as int].0, on, other);
                }
            }
            return;
        }
        proof {
            self.lemma_absent_at(i, name@);
        }
        let ghost key = name@;
        let ghost before = self@;
        self.put_at(i, name, on);
        proof {
            assert forall|other: Seq<char>| #![trigger host_value(self@, other)]
                host_value(self@, other) == if other == key {
                    Some(on)
                } else {
                    host_value(before, other)
                } by {
                lemma_values_after_insert(before, i as int, key, on, other);
            }
        }
    }

    proof fn lemma_absent_at(&self, i: usize, name: Seq<char>)
        requires
            keys_sorted(self@),
            i <= self@.len(),
            forall|j: int| 0 <= j < i ==> text_less(#[trigger] self@[j].0, name),
            i == self@.len() || text_less(name, self@[i as int].0),
        ensures
            !has_host(self@, name),
    {
        if has_host(self@, name) {
            let j = choose|j: int| 0 <= j < self@.len() && #[trigger] self@[j].0 == name;
            lemma_text_less_irreflexive(name);
            if j > i {
                lemma_text_less_transitive(name, self@[i as int].0, self@[j].0);
            }
        }
    }

    /// Puts a new entry at a position that keeps the order.
    fn put_at(&mut self, i: usize, name: String, on: bool)
        requires
            keys_sorted(old(self)@),
            i <= old(self)@.len(),
            forall|j: int| 0 <= j < i ==> text_less(#[trigger] old(self)@[j].0, name@),
            i == old(self)@.len() || text_less(name@, old(self)@[i as int].0),
        ensures
            final(self)@ == old(self)@.insert(i as int, (name@, on)),
            keys_sorted(final(self)@),
    {
        let ghost before = self@;
        let ghost key = name@;
        let mut entries = Vec::new();
        std::mem::swap(&mut entries, &mut self.entries);
        entries.insert(i, (name, on));
        proof {
            let s = entries@.map_values(|e: (String, bool)| (e.0@, e.1));
            let t = before.insert(i as int, (key, on));
            assert(s =~= t);
            assert forall|a: int, b: int| 0 <= a < b < t.len() implies text_less(
                #[trigger] t[a].0,
                #[trigger] t[b].0,
            ) by {
                if b < i {
                } else if b == i {
                } else if a < i {
                    if i < before.len() {
                        lemma_text_less_transitive(before[a].0, key, before[i as int].0);
                        if b - 1 > i {
                            lemma_text_less_transitive(
                                before[a].0,
                                before[i as int].0,
                                before[b - 1].0,
                            );
                        }
                    }
                } else if a == i {
                    if b - 1 > i {
                        lemma_text_less_transitive(key, before[i as int].0, before[b - 1].0);
                    }
                } else {
                }
            }
        }
        self.entries = entries;
    }

    /// Drops `name`, if it is there.
    pub fn remove(&mut self, name: &str)
        ensures
            keys_sorted(final(self)@),
            forall|other: Seq<char>|
                #![trigger host_value(final(self)@, other)]
                host_value(final(self)@, other) == if other == name@ {
                    None
                } else {
                    host_value(old(self)@, other)
                },
            !has_host(old(self)@, name@) ==> final(self)@ == old(self)@,
            has_host(old(self)@, name@) ==> exists|i: int|
                0 <= i < old(self)@.len() && old(self)@[i].0 == name@ && final(self)@ == old(
                    self,
                )@.remove(i),
    {
        let (i, found) = self.locate(name);
        proof {
            use_type_invariant(&*self);
        }
        if !found {
            proof {
                self.lemma_absent_at(i, name@);
                lemma_host_value_absent(self@, name@);
            }
            return;
        }
        let ghost before = self@;
        let mut entries = Vec::new();
        std::mem::swap(&mut entries, &mut self.entries);
        entries.remove(i);
        proof {
            let s = entries@.map_values(|e: (String, bool)| (e.0@, e.1));
            let t = before.remove(i as int);
            assert(s =~= t);
            assert forall|a: int, b: int| 0 <= a < b < t.len() implies text_less(
                #[trigger] t[a].0,
                #[trigger] t[b].0,
            ) by {
                let a2 = if a < i {
                    a
                } else {
                    a + 1
                };
                let b2 = if b < i {
                    b
                } else {
                    b + 1
                };
                assert(t[a] == before[a2]);
                assert(t[b] == before[b2]);
            }
            assert forall|other: Seq<char>| #![trigger host_value(t, other)]
                host_value(t, other) == if other == name@ {
                    None
                } else {
                    host_value(before, other)
                } by {
                lemma_values_after_remove(before, i as int, name@, other);
            }
        }
        self.entries = entries;
    }

    /// The names, in order.
    pub fn names(&self) -> (v: Vec<String>)
        ensures
            v@.map_values(|s: String| s@) == self@.map_values(|e: (Seq<char>, bool)| e.0),
            keys_sorted(self@),
    {
        proof {
            use_type_invariant(self);
        }
        let mut v: Vec<String> = Vec::new();
        let mut k: usize = 0;
        while k < self.entries.len()
            invariant
                0 <= k <= self.entries@.len(),
                self@.len() == self.entries@.len(),
                v@.map_values(|s: String| s@) == self@.take(k as int).map_values(
                    |e: (Seq<char>, bool)| e.0,
                ),
            decreases self.entries@.len() - k,
        {
            assert(self@[k as int].0 == self.entries@[k as int].0@);
            v.push(self.entries[k].0.clone());
            assert(self@.take(k + 1 as int).map_values(|e: (Seq<char>, bool)| e.0) =~= self@.take(
                k as int,
            ).map_values(|e: (Seq<char>, bool)| e.0).push(self@[k as int].0));
            assert(v@.map_values(|s: String| s@) =~= self@.take(k as int).map_values(
                |e: (Seq<char>, bool)| e.0,
            ).push(self@[k as int].0));
            k = k + 1;
        }
        assert(self@.take(k as int) =~= self@);
        v
    }

    /// The names of the selected hostnames, in order.
    pub fn selected(&self) -> (v: Vec<String>)
        ensures
            v@.map_values(|s: String| s@) == selected_names(self@),
            keys_sorted(self@),
            names_ascending(v@.map_values(|s: String| s@)),
    {
        proof {
            use_type_invariant(self);
            law_selected_names_ascending(self@);
        }
        let mut v: Vec<String> = Vec::new();
        let mut k: usize = 0;
        while k < self.entries.len()
            invariant
                0 <= k <= self.entries@.len(),
                self@.len() == self.entries@.len(),
                v@.map_values(|s: String| s@) == selected_names(self@.take(k as int)),
            decreases self.entries@.len() - k,
        {
            assert(self@.take(k + 1 as int).drop_last() =~= self@.take(k as int));
            assert(self@[k as int] == (self.entries@[k as int].0@, self.entries@[k as int].1));
            if self.entries[k].1 {
                v.push(self.entries[k].0.clone());
                assert(v@.map_values(|s: String| s@) =~= selected_names(self@.take(k as int)).push(
                    self@[k as int].0,
                ));
            }
            k = k + 1;
        }
        assert(self@.take(k as int) =~= self@);
        v
    }
}

/// The persistent settings of the desktop client. The password and API key
/// live in memory only; when the user asks to remember them they go to the
/// credential store. Secrets that older versions wrote in plain text are
/// picked up once and moved there.
pub struct AppConfig {
    pub username: String,
    pub dark_mode: bool,
    pub hosts: HostSet,
    pub save_password: bool,
    pub password: String,
    pub api_key: String,
    /// A plain-text password an older settings file held, not yet moved.
    pub legacy_password: String,
    /// A plain-text API key an older settings file held, not yet moved.
    pub legacy_api_key: String,
}

impl AppConfig {
    /// Empty settings: no account, light mode, no hostnames.
    pub fn empty() -> (c: AppConfig)
        ensures
            c.username@ == Seq::<char>::empty(),
            !c.dark_mode,
            c.hosts@ == Seq::<(Seq<char>, bool)>::empty(),
            !c.save_password,
            c.password@ == Seq::<char>::empty(),
            c.api_key@ == Seq::<char>::empty(),
            c.legacy_password@ == Seq::<char>::empty(),
            c.legacy_api_key@ == Seq::<char>::empty(),
    {
        AppConfig {
            username: String::new(),
            dark_mode: false,
            hosts: HostSet::new(),
            save_password: false,
            password: String::new(),
            api_key: String::new(),
            legacy_password: String::new(),
            legacy_api_key: String::new(),
        }
    }

    /// The names of the hostnames selected for updates, in order.
    pub fn selected_hosts(&self) -> (v: Vec<String>)
        ensures
            v@.map_values(|s: String| s@) == selected_names(self.hosts@),
            keys_sorted(self.hosts@),
            names_ascending(v@.map_values(|s: String| s@)),
    {
        self.hosts.selected()
    }

    /// Adds the listed hostnames, selected, keeping the selection of those
    /// already there.
    pub fn add_hosts(&mut self, hosts: Vec<String>)
        ensures
            forall|other: Seq<char>|
                #![trigger host_value(final(self).hosts@, other)]
                host_value(final(self).hosts@, other) == if host_value(old(self).hosts@, other) is Some {
                    host_value(old(self).hosts@, other)
                } else if hosts@.map_values(|s: String| s@).contains(other) {
                    Some(true)
                } else {
                    None
                },
            final(self).username == old(self).username,
            final(self).dark_mode == old(self).dark_mode,
            final(self).save_password == old(self).save_password,
            final(self).password == old(self).password,
            final(self).api_key == old(self).api_key,
            final(self).legacy_password == old(self).legacy_password,
            final(self).legacy_api_key == old(self).legacy_api_key,
    {
        let ghost names = hosts@.map_values(|s: String| s@);
        let ghost start = self.hosts@;
        proof {
            use_type_invariant(&self.hosts);
        }
        let mut k: usize = 0;
        let n = hosts.len();
        while k < n
            invariant
                0 <= k <= n,
                n == names.len(),
                n == hosts@.len(),
                names == hosts@.map_values(|s: String| s@),
                forall|other: Seq<char>|
                    #![trigger host_value(self.hosts@, other)]
                    host_value(self.hosts@, other) == if host_value(start, other) is Some {
                        host_value(start, other)
                    } else if names.take(k as int).contains(other) {
                        Some(true)
                    } else {
                        None
                    },
                keys_sorted(self.hosts@),
                self.username == old(self).username,
                self.dark_mode == old(self).dark_mode,
                self.save_password == old(self).save_password,
                self.password == old(self).password,
                self.api_key == old(self).api_key,
                self.legacy_password == old(self).legacy_password,
                self.legacy_api_key == old(self).legacy_api_key,
            decreases n - k,
        {
            let h = hosts[k].clone();
            assert(h@ == names[k as int]);
            let ghost before = self.hosts@;
            self.hosts.insert_if_absent(h, true);
            proof {
                assert forall|other: Seq<char>| #![trigger host_value(self.hosts@, other)]
                    host_value(self.hosts@, other) == if host_value(start, other) is Some {
                        host_value(start, other)
                    } else if names.take(k + 1 as int).contains(other) {
                        Some(true)
                    } else {
                        None
                    } by {
                    assert(names.take(k + 1 as int) =~= names.take(k as int).push(names[k as int]));
                    if names.take(k as int).contains(other) {
                        let j = choose|j: int| 0 <= j < k && #[trigger] names.take(k as int)[j] == other;
                        assert(names.take(k + 1 as int)[j] == other);
                    }
                    if other == names[k as int] {
                        assert(names.take(k + 1 as int)[k as int] == other);
                        if !has_host(before, other) {
                            lemma_host_value_absent(before, other);
                        } else {
                            lemma_host_value_present(before, other);
                        }
                    }
                    if names.take(k + 1 as int).contains(other) && other != names[k as int] {
                        let j = choose|j: int| 0 <= j < k + 1 && #[trigger] names.take(k + 1 as int)[j] == other;
                        assert(names.take(k as int)[j] == other);
                    }
                }
            }
            k = k + 1;
        }
        assert(names.take(n as int) =~= names);
    }

    /// Whether loading should read the secrets back from the credential
    /// store: the user asked to remember them and there is an account.
    pub fn wants_remembered_secrets(&self) -> (b: bool)
        ensures
            b == (self.save_password && self.username@.len() > 0),
    {
        self.save_password && !self.username.as_str().is_empty()
    }

    /// The credential-store entries to write when the user asks to remember
    /// the secrets of `username`: each secret that is set; none without an
    /// account.
    pub fn remember_secrets(&self) -> (w: Vec<(Slot, String)>)
        ensures
            self.username@.len() == 0 ==> w@.len() == 0,
            self.username@.len() > 0 ==> w@.map_values(|e: (Slot, String)| (e.0, e.1@))
                == remembered(self.password@, self.api_key@),
    {
        let mut w: Vec<(Slot, String)> = Vec::new();
        if self.username.as_str().is_empty() {
            return w;
        }
        if !self.password.as_str().is_empty() {
            w.push((Slot::Password, self.password.clone()));
        }
        if !self.api_key.as_str().is_empty() {
            w.push((Slot::ApiKey, self.api_key.clone()));
        }
        assert(w@.map_values(|e: (Slot, String)| (e.0, e.1@)) =~= remembered(
            self.password@,
            self.api_key@,
        ));
        w
    }

    /// The credential-store entries to delete when the user no longer wants
    /// the secrets of `username` remembered: both; none without an account.
    pub fn forget_secrets(&self) -> (d: Vec<Slot>)
        ensures
            self.username@.len() == 0 ==> d@.len() == 0,
            self.username@.len() > 0 ==> d@ == seq![Slot::Password, Slot::ApiKey],
    {
        let mut d: Vec<Slot> = Vec::new();
        if self.username.as_str().is_empty() {
            return d;
        }
        d.push(Slot::Password);
        d.push(Slot::ApiKey);
        assert(d@ =~= seq![Slot::Password, Slot::ApiKey]);
        d
    }

    /// Moves the plain-text secrets of an older settings file into memory and
    /// gives the credential-store entries that keep them; the settings file
    /// must then be rewritten without them exactly when there is one.
    pub fn migrate_legacy_secrets(&mut self) -> (w: Vec<(Slot, String)>)
        ensures
            ({
                let moves_pw = old(self).legacy_password@.len() > 0
                    && old(self).username@.len() > 0;
                let moves_key = old(self).legacy_api_key@.len() > 0
                    && old(self).username@.len() > 0;
                &&& w@.map_values(|e: (Slot, String)| (e.0, e.1@)) == migrated(
                    moves_pw,
                    old(self).legacy_password@,
                    moves_key,
                    old(self).legacy_api_key@,
                )
                &&& final(self).password@ == if moves_pw {
                    old(self).legacy_password@
                } else {
                    old(self).password@
                }
                &&& final(self).legacy_password@ == if moves_pw {
                    Seq::<char>::empty()
                } else {
                    old(self).legacy_password@
                }
                &&& final(self).api_key@ == if moves_key {
                    old(self).legacy_api_key@
                } else {
                    old(self).api_key@
                }
                &&& final(self).legacy_api_key@ == if moves_key {
                    Seq::<char>::empty()
                } else {
                    old(self).legacy_api_key@
                }
            }),
            final(self).username == old(self).username,
            final(self).dark_mode == old(self).dark_mode,
            final(self).hosts@ == old(self).hosts@,
            final(self).save_password == old(self).save_password,
    {
        let mut w: Vec<(Slot, String)> = Vec::new();
        let ghost moves_pw = self.legacy_password@.len() > 0 && self.username@.len() > 0;
        let ghost moves_key = self.legacy_api_key@.len() > 0 && self.username@.len() > 0;
        let ghost old_pw = self.legacy_password@;
        let ghost old_key = self.legacy_api_key@;
        if !self.legacy_password.as_str().is_empty() && !self.username.as_str().is_empty() {
            let mut taken = String::new();
            std::mem::swap(&mut taken, &mut self.legacy_password);
            w.push((Slot::Password, taken.clone()));
            self.password = taken;
        }
        if !self.legacy_api_key.as_str().is_empty() && !self.username.as_str().is_empty() {
            let mut taken = String::new();
            std::mem::swap(&mut taken, &mut self.legacy_api_key);
            w.push((Slot::ApiKey, taken.clone()));
            self.api_key = taken;
        }
        assert(w@.map_values(|e: (Slot, String)| (e.0, e.1@)) =~= migrated(
            moves_pw,
            old_pw,
            moves_key,
            old_key,
        ));
        w
    }
}

/// The entries kept for the secrets that are set.
pub open spec fn remembered(password: Seq<char>, api_key: Seq<char>) -> Seq<(Slot, Seq<char>)> {
    (if password.len() > 0 {
        seq![(Slot::Password, password)]
    } else {
        Seq::empty()
    }) + (if api_key.len() > 0 {
        seq![(Slot::ApiKey, api_key)]
    } else {
        Seq::empty()
    })
}

/// Forgetting deletes every entry that remembering may have written.
pub proof fn law_forget_covers_remember(password: Seq<char>, api_key: Seq<char>, i: int)
    requires
        0 <= i < remembered(password, api_key).len(),
    ensures
        seq![Slot::Password, Slot::ApiKey].contains(remembered(password, api_key)[i].0),
{
    let r = remembered(password, api_key);
    if r[i].0 == Slot::Password {
        assert(seq![Slot::Password, Slot::ApiKey][0] == Slot::Password);
    } else {
        assert(seq![Slot::Password, Slot::ApiKey][1] == Slot::ApiKey);
    }
}

/// Moving the plain-text secrets happens once: after a move, what is left
/// to move is nothing.
pub proof fn law_migration_moves_once(username: Seq<char>, legacy_password: Seq<char>, legacy_api_key: Seq<char>)
    ensures
        ({
            let moves_pw = legacy_password.len() > 0 && username.len() > 0;
            let moves_key = legacy_api_key.len() > 0 && username.len() > 0;
            let left_pw = if moves_pw { Seq::<char>::empty() } else { legacy_password };
            let left_key = if moves_key { Seq::<char>::empty() } else { legacy_api_key };
            migrated(
                left_pw.len() > 0 && username.len() > 0,
                left_pw,
                left_key.len() > 0 && username.len() > 0,
                left_key,
            ).len() == 0
        }),
{
}

/// The entries kept for the plain-text secrets that move.
pub open spec fn migrated(
    moves_pw: bool,
    password: Seq<char>,
    moves_key: bool,
    api_key: Seq<char>,
) -> Seq<(Slot, Seq<char>)> {
    (if moves_pw {
        seq![(Slot::Password, password)]
    } else {
        Seq::empty()
    }) + (if moves_key {
        seq![(Slot::ApiKey, api_key)]
    } else {
        Seq::empty()
    })
}

/// The plain-text secret an older settings file holds under `key`: empty
/// when the text is not JSON or holds no such string.
pub open spec fn legacy_text(settings_text: Seq<char>, key: Seq<char>) -> Seq<char> {
    match json_of(settings_text) {
        Some(d) => text_at(d, key),
        None => Seq::empty(),
    }
}

/// The plain-text password and API key an older settings file holds, read
/// from its text (fields `password` and `api_key`); empty where absent.
pub fn legacy_secrets(settings_text: &str) -> (r: (String, String))
    ensures
        r.0@ == legacy_text(settings_text@, "password"@),
        r.1@ == legacy_text(settings_text@, "api_key"@),
{
    match parse_json(settings_text) {
        Some(doc) => (text_member(&doc, "password"), text_member(&doc, "api_key")),
        None => (String::new(), String::new()),
    }
}

} // verus!
