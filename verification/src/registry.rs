//! A registry of named entries: the host's table of pools by pool name and of
//! device groups by group name. A name is registered at most once; registering
//! it again replaces its entry.

use vstd::prelude::*;

use crate::names::{
    has_no_colon, law_qualified_name_splits_back, spec_qualified_name, spec_split_device_name,
};

verus! {

/// No name occurs twice.
pub open spec fn names_distinct<P>(s: Seq<(Seq<char>, P)>) -> bool {
    forall|i: int, j: int| 0 <= i < j < s.len() ==> #[trigger] s[i].0 != #[trigger] s[j].0
}

/// `i` is the position of `name`.
pub open spec fn registered_at<P>(s: Seq<(Seq<char>, P)>, name: Seq<char>, i: int) -> bool {
    0 <= i < s.len() && s[i].0 == name
}

/// The entry registered under `name`, if any.
pub open spec fn spec_lookup<P>(s: Seq<(Seq<char>, P)>, name: Seq<char>) -> Option<P> {
    if exists|i: int| registered_at(s, name, i) {
        Some(s[choose|i: int| registered_at(s, name, i)].1)
    } else {
        None
    }
}

/// Named entries, in the order they were first registered.
pub struct Registry<P> {
    entries: Vec<(String, P)>,
}

/// The names (by view) and entries of a vector of named entries.
pub open spec fn entries_view<P>(v: Seq<(String, P)>) -> Seq<(Seq<char>, P)> {
    v.map_values(|e: (String, P)| (e.0@, e.1))
}

impl<P> View for Registry<P> {
    type V = Seq<(Seq<char>, P)>;

    closed spec fn view(&self) -> Seq<(Seq<char>, P)> {
        entries_view(self.entries@)
    }
}

/// Position of `name` in `entries`, if there.
fn position<P>(entries: &Vec<(String, P)>, name: &String) -> (r: Option<usize>)
    ensures
        match r {
            Some(i) => registered_at(entries_view(entries@), name@, i as int),
            None => !exists|i: int| registered_at(entries_view(entries@), name@, i),
        },
{
    let ghost s = entries_view(entries@);
    let mut i: usize = 0;
    while i < entries.len()
        invariant
            i <= entries@.len(),
            s == entries_view(entries@),
            forall|j: int| 0 <= j < i ==> !registered_at(s, name@, j),
        decreases entries@.len() - i,
    {
        if entries[i].0 == *name {
            return Some(i);
        }
        i = i + 1;
    }
    None
}

/// A name listed at position `i` of a registry of distinct names finds that
/// position's entry; and the structured name built from it and a device name
/// (neither holding a colon) splits back into that name and that device. So
/// every `group:device` name listed from the registry of device groups opens a
/// device of the group that listed it.
pub proof fn law_listed_name_opens_its_group<P>(s: Seq<(Seq<char>, P)>, i: int, device: Seq<char>)
    requires
        names_distinct(s),
        0 <= i < s.len(),
        has_no_colon(s[i].0),
        has_no_colon(device),
    ensures
        spec_split_device_name(spec_qualified_name(s[i].0, device)) == Some((s[i].0, device)),
        spec_lookup(s, s[i].0) == Some(s[i].1),
{
    law_qualified_name_splits_back(s[i].0, device);
    lemma_lookup_at(s, s[i].0, i);
}

proof fn lemma_lookup_at<P>(s: Seq<(Seq<char>, P)>, name: Seq<char>, i: int)
    requires
        names_distinct(s),
        registered_at(s, name, i),
    ensures
        spec_lookup(s, name) == Some(s[i].1),
{
    let j = choose|j: int| registered_at(s, name, j);
    assert(registered_at(s, name, j));
    if i < j {
        assert(s[i].0 != s[j].0);
    } else if j < i {
        assert(s[j].0 != s[i].0);
    }
}

impl<P> Registry<P> {
    /// No name is registered twice.
    #[verifier::type_invariant]
    closed spec fn names_unique(self) -> bool {
        names_distinct(entries_view(self.entries@))
    }

    /// An empty registry.
    pub fn new() -> (r: Registry<P>)
        ensures
            r@ == Seq::<(Seq<char>, P)>::empty(),
    {
        let entries: Vec<(String, P)> = Vec::new();
        assert(entries_view(entries@) =~= Seq::<(Seq<char>, P)>::empty());
        Registry { entries }
    }

    /// The number of registered names.
    pub fn len(&self) -> (n: usize)
        ensures
            n == self@.len(),
            names_distinct(self@),
    {
        proof {
            use_type_invariant(self);
        }
        self.entries.len()
    }

    /// The name and entry at position `i`, in registration order.
    pub fn entry(&self, i: usize) -> (r: (&String, &P))
        requires
            i < self@.len(),
        ensures
            r.0@ == self@[i as int].0,
            *r.1 == self@[i as int].1,
            names_distinct(self@),
            spec_lookup(self@, r.0@) == Some(*r.1),
    {
        proof {
            use_type_invariant(self);
            lemma_lookup_at(self@, self@[i as int].0, i as int);
        }
        let e = &self.entries[i];
        (&e.0, &e.1)
    }

    /// The entry registered under `name`.
    pub fn get(&self, name: &String) -> (r: Option<&P>)
        ensures
            names_distinct(self@),
            match r {
                Some(v) => spec_lookup(self@, name@) == Some(*v),
                None => spec_lookup(self@, name@) is None,
            },
    {
        proof {
            use_type_invariant(self);
        }
        match position(&self.entries, name) {
            Some(i) => {
                proof {
                    lemma_lookup_at(self@, name@, i as int);
                }
                Some(&self.entries[i].1)
            },
            None => None,
        }
    }

    /// Registers `value` under `name`, replacing what was registered under it.
    pub fn insert(&mut self, name: String, value: P)
        ensures
            spec_lookup(final(self)@, name@) == Some(value),
            forall|k: Seq<char>|
                k != name@ ==> #[trigger] spec_lookup(final(self)@, k) == spec_lookup(
                    old(self)@,
                    k,
                ),
    {
        proof {
            use_type_invariant(&*self);
        }
        let ghost key = name@;
        let ghost before = self@;
        let mut entries: Vec<(String, P)> = Vec::new();
        proof {
            assert(entries_view(entries@) =~= Seq::<(Seq<char>, P)>::empty());
        }
        core::mem::swap(&mut entries, &mut self.entries);
        match position(&entries, &name) {
            Some(i) => {
                entries.set(i, (name, value));
                proof {
                    let after = entries_view(entries@);
                    assert(after =~= before.update(i as int, (key, value)));
                    assert forall|a: int, b: int| 0 <= a < b < after.len() implies #[trigger] after[a].0
                        != #[trigger] after[b].0 by {
                        assert(before[a].0 != before[b].0);
                    }
                    lemma_lookup_at(after, key, i as int);
                    assert forall|k: Seq<char>| k != key implies #[trigger] spec_lookup(after, k)
                        == spec_lookup(before, k) by {
                        if exists|j: int| registered_at(before, k, j) {
                            let j = choose|j: int| registered_at(before, k, j);
                            lemma_lookup_at(before, k, j);
                            lemma_lookup_at(after, k, j);
                        } else {
                            assert forall|j: int| !registered_at(after, k, j) by {
                                if registered_at(after, k, j) {
                                    assert(registered_at(before, k, j));
                                }
                            }
                        }
                    }
                }
            },
            None => {
                entries.push((name, value));
                proof {
                    let after = entries_view(entries@);
                    assert(after =~= before.push((key, value)));
                    let n = before.len() as int;
                    assert forall|a: int, b: int| 0 <= a < b < after.len() implies #[trigger] after[a].0
                        != #[trigger] after[b].0 by {
                        if b == n {
                            assert(!registered_at(before, key, a));
                        } else {
                            assert(before[a].0 != before[b].0);
                        }
                    }
                    lemma_lookup_at(after, key, n);
                    assert forall|k: Seq<char>| k != key implies #[trigger] spec_lookup(after, k)
                        == spec_lookup(before, k) by {
                        if exists|j: int| registered_at(before, k, j) {
                            let j = choose|j: int| registered_at(before, k, j);
                            lemma_lookup_at(before, k, j);
                            lemma_lookup_at(after, k, j);
                        } else {
                            assert forall|j: int| !registered_at(after, k, j) by {
                                if registered_at(after, k, j) && j < n {
                                    assert(registered_at(before, k, j));
                                }
                            }
                        }
                    }
                }
            },
        }
        self.entries = entries;
    }

    /// Unregisters `name`, returning what was registered under it.
    pub fn remove(&mut self, name: &String) -> (r: Option<P>)
        ensures
            r == spec_lookup(old(self)@, name@),
            spec_lookup(final(self)@, name@) is None,
            forall|k: Seq<char>|
                k != name@ ==> #[trigger] spec_lookup(final(self)@, k) == spec_lookup(
                    old(self)@,
                    k,
                ),
    {
        proof {
            use_type_invariant(&*self);
        }
        let ghost key = name@;
        let ghost before = self@;
        let i = match position(&self.entries, name) {
            Some(i) => i,
            None => return None,
        };
        proof {
            lemma_lookup_at(before, key, i as int);
        }
        let mut entries: Vec<(String, P)> = Vec::new();
        proof {
            assert(entries_view(entries@) =~= Seq::<(Seq<char>, P)>::empty());
        }
        core::mem::swap(&mut entries, &mut self.entries);
        let (_, value) = entries.remove(i);
        proof {
            let after = entries_view(entries@);
            assert(after =~= before.remove(i as int));
            assert forall|a: int, b: int| 0 <= a < b < after.len() implies #[trigger] after[a].0
                != #[trigger] after[b].0 by {
                if a < i && b >= i {
                    assert(before[a].0 != before[b + 1].0);
                } else if a >= i {
                    assert(before[a + 1].0 != before[b + 1].0);
                } else {
                    assert(before[a].0 != before[b].0);
                }
            }
            assert forall|j: int| !registered_at(after, key, j) by {
                if registered_at(after, key, j) {
                    if j < i {
                        assert(before[j].0 != before[i as int].0);
                    } else {
                        assert(before[i as int].0 != before[j + 1].0);
                    }
                }
            }
            assert forall|k: Seq<char>| k != key implies #[trigger] spec_lookup(after, k)
                == spec_lookup(before, k) by {
                if exists|j: int| registered_at(before, k, j) {
                    let j = choose|j: int| registered_at(before, k, j);
                    lemma_lookup_at(before, k, j);
                    if j < i {
                        lemma_lookup_at(after, k, j);
                    } else {
                        lemma_lookup_at(after, k, j - 1);
                    }
                } else {
                    assert forall|j: int| !registered_at(after, k, j) by {
                        if registered_at(after, k, j) {
                            if j < i {
                                assert(registered_at(before, k, j));
                            } else {
                                assert(registered_at(before, k, j + 1));
                            }
                        }
                    }
                }
            }
        }
        self.entries = entries;
        Some(value)
    }
}

} // verus!
