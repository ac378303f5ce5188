//! A small map from names to values that keeps its entries in a vector.

use vstd::prelude::*;
use crate::text::text_eq;

verus! {

/// What a sequence of entries maps each name to: the first entry with that
/// name decides.
pub open spec fn entries_map<V: View>(s: Seq<(String, V)>) -> Map<Seq<char>, V::V>
    decreases s.len(),
{
    if s.len() == 0 {
        Map::empty()
    } else {
        entries_map(s.drop_first()).insert(s[0].0@, s[0].1@)
    }
}

/// No entry before `i` carries the name `k`.
pub open spec fn absent_before<V>(s: Seq<(String, V)>, i: int, k: Seq<char>) -> bool {
    forall|j: int| 0 <= j < i && j < s.len() ==> (#[trigger] s[j]).0@ != k
}

/// A name that no entry carries is not in the map.
pub proof fn lemma_absent<V: View>(s: Seq<(String, V)>, k: Seq<char>)
    requires
        absent_before(s, s.len() as int, k),
    ensures
        !entries_map(s).contains_key(k),
    decreases s.len(),
{
    if s.len() > 0 {
        let t = s.drop_first();
        assert forall|j: int| 0 <= j < t.len() implies (#[trigger] t[j]).0@ != k by {
            assert(t[j] == s[j + 1]);
        }
        lemma_absent(t, k);
        assert(s[0].0@ != k);
    }
}

/// The first entry that carries a name decides what the map holds for
/// it.
pub proof fn lemma_first<V: View>(s: Seq<(String, V)>, i: int, k: Seq<char>)
    requires
        0 <= i < s.len(),
        absent_before(s, i, k),
        s[i].0@ == k,
    ensures
        entries_map(s).contains_key(k),
        entries_map(s)[k] == s[i].1@,
    decreases s.len(),
{
    if i > 0 {
        let t = s.drop_first();
        assert forall|j: int| 0 <= j < i - 1 && j < t.len() implies (#[trigger] t[j]).0@ != k by {
            assert(t[j] == s[j + 1]);
        }
        assert(t[i - 1] == s[i]);
        lemma_first(t, i - 1, k);
        assert(s[0].0@ != k);
    }
}

/// Replacing the first entry that carries a name sets what the map
/// holds for it.
pub proof fn lemma_replace<V: View>(s: Seq<(String, V)>, i: int, e: (String, V))
    requires
        0 <= i < s.len(),
        absent_before(s, i, e.0@),
        s[i].0@ == e.0@,
    ensures
        entries_map(s.update(i, e)) == entries_map(s).insert(e.0@, e.1@),
    decreases s.len(),
{
    let k = e.0@;
    let u = s.update(i, e);
    if i == 0 {
        assert(u.drop_first() =~= s.drop_first());
        assert(entries_map(u) =~= entries_map(s).insert(k, e.1@));
    } else {
        let t = s.drop_first();
        assert forall|j: int| 0 <= j < i - 1 && j < t.len() implies (#[trigger] t[j]).0@ != k by {
            assert(t[j] == s[j + 1]);
        }
        assert(t[i - 1] == s[i]);
        lemma_replace(t, i - 1, e);
        assert(u.drop_first() =~= t.update(i - 1, e));
        assert(s[0].0@ != k);
        assert(u[0] == s[0]);
        assert(entries_map(u) =~= entries_map(s).insert(k, e.1@));
    }
}

/// Appending an entry whose name no entry carries adds it to the map.
pub proof fn lemma_append<V: View>(s: Seq<(String, V)>, e: (String, V))
    requires
        absent_before(s, s.len() as int, e.0@),
    ensures
        entries_map(s.push(e)) == entries_map(s).insert(e.0@, e.1@),
    decreases s.len(),
{
    let u = s.push(e);
    if s.len() == 0 {
        assert(u.drop_first() =~= s);
        assert(entries_map(u) =~= entries_map(s).insert(e.0@, e.1@));
    } else {
        let t = s.drop_first();
        assert forall|j: int| 0 <= j < t.len() implies (#[trigger] t[j]).0@ != e.0@ by {
            assert(t[j] == s[j + 1]);
        }
        lemma_append(t, e);
        assert(u.drop_first() =~= t.push(e));
        assert(s[0].0@ != e.0@);
        assert(u[0] == s[0]);
        assert(entries_map(u) =~= entries_map(s).insert(e.0@, e.1@));
    }
}

/// The entry at `i` is the first that carries its name, so that it is the
/// one that decides what the map holds for the name.
pub open spec fn live<V>(s: Seq<(String, V)>, i: int) -> bool {
    0 <= i < s.len() && absent_before(s, i, s[i].0@)
}

/// Every name of the map is carried by an entry that decides it.
pub proof fn lemma_key_has_entry<V: View>(s: Seq<(String, V)>, k: Seq<char>)
    requires
        entries_map(s).contains_key(k),
    ensures
        exists|i: int| #[trigger] live(s, i) && s[i].0@ == k && entries_map(s)[k] == s[i].1@,
    decreases s.len(),
{
    if s.len() > 0 {
        if s[0].0@ == k {
            assert(live(s, 0));
            lemma_first(s, 0, k);
        } else {
            let t = s.drop_first();
            lemma_key_has_entry(t, k);
            let j = choose|j: int| #[trigger] live(t, j) && t[j].0@ == k && entries_map(t)[k] == t[j].1@;
            assert forall|m: int| 0 <= m < j + 1 && m < s.len() implies (#[trigger] s[m]).0@ != k by {
                if m > 0 {
                    assert(s[m] == t[m - 1]);
                }
            }
            assert(s[j + 1] == t[j]);
            assert(live(s, j + 1));
        }
    }
}

/// The name of every entry is a name of the map.
pub proof fn lemma_entry_in_map<V: View>(s: Seq<(String, V)>, i: int)
    requires
        0 <= i < s.len(),
    ensures
        entries_map(s).contains_key(s[i].0@),
    decreases s.len(),
{
    if i > 0 {
        let t = s.drop_first();
        assert(t[i - 1] == s[i]);
        lemma_entry_in_map(t, i - 1);
    }
}

/// A map from names to values.
#[derive(Clone, Debug)]
pub struct Table<V> {
    pub entries: Vec<(String, V)>,
}

impl<V: View> View for Table<V> {
    type V = Map<Seq<char>, V::V>;

    open spec fn view(&self) -> Map<Seq<char>, V::V> {
        entries_map(self.entries@)
    }
}

impl<V: View> Table<V> {
    /// An empty table.
    pub fn new() -> (t: Self)
        ensures
            t@ == Map::<Seq<char>, V::V>::empty(),
    {
        Table { entries: Vec::new() }
    }

    /// The position of the first entry named `name`, if there is one.
    pub fn position(&self, name: &str) -> (r: Option<usize>)
        ensures
            match r {
                Some(i) => i < self.entries.len() && self.entries[i as int].0@ == name@
                    && absent_before(self.entries@, i as int, name@),
                None => absent_before(self.entries@, self.entries.len() as int, name@),
            },
            r is Some == self@.contains_key(name@),
            r matches Some(i) ==> self@[name@] == self.entries[i as int].1@,
    {
        let mut i: usize = 0;
        while i < self.entries.len()
            invariant
                i <= self.entries.len(),
                absent_before(self.entries@, i as int, name@),
            decreases self.entries.len() - i,
        {
            if text_eq(self.entries[i].0.as_str(), name) {
                proof {
                    lemma_first(self.entries@, i as int, name@);
                }
                return Some(i);
            }
            i += 1;
        }
        proof {
            lemma_absent(self.entries@, name@);
        }
        None
    }

    /// Whether the entry at `i` is the first that carries its name.
    pub fn is_first(&self, i: usize) -> (r: bool)
        requires
            i < self.entries.len(),
        ensures
            r == live(self.entries@, i as int),
            r ==> self@.contains_key(self.entries[i as int].0@) && self@[self.entries[i as int].0@]
                == self.entries[i as int].1@,
    {
        match self.position(self.entries[i].0.as_str()) {
            Some(p) => {
                assert(p <= i) by {
                    if p > i {
                        assert(self.entries@[i as int].0@ != self.entries@[i as int].0@);
                    }
                }
                p == i
            },
            None => false,
        }
    }

    /// Whether the table has an entry named `name`.
    pub fn contains(&self, name: &str) -> (r: bool)
        ensures
            r == self@.contains_key(name@),
    {
        self.position(name).is_some()
    }

    /// The value stored under `name`.
    pub fn get(&self, name: &str) -> (r: Option<&V>)
        ensures
            r is Some == self@.contains_key(name@),
            r matches Some(v) ==> v@ == self@[name@],
    {
        match self.position(name) {
            Some(i) => Some(&self.entries[i].1),
            None => None,
        }
    }

    /// Stores `value` under `name`, replacing what was stored there.
    pub fn insert(&mut self, name: String, value: V)
        ensures
            final(self)@ == old(self)@.insert(name@, value@),
    {
        match self.position(name.as_str()) {
            Some(i) => {
                proof {
                    lemma_replace(self.entries@, i as int, (name, value));
                }
                self.entries[i] = (name, value);
            },
            None => {
                proof {
                    lemma_append(self.entries@, (name, value));
                }
                self.entries.push((name, value));
            },
        }
    }
}

} // verus!
