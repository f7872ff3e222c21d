//! Insertion-ordered maps from field names to recorded values.

use vstd::prelude::*;

use crate::value::TracedValue;

verus! {

/// Model of a field map: its entries in insertion order, keyed by the field names.
pub type FieldEntries = Seq<(Seq<char>, TracedValue)>;

/// Whether no two entries share a name.
pub open spec fn unique_names(s: FieldEntries) -> bool {
    forall|i: int, j: int| 0 <= i < s.len() && 0 <= j < s.len() && i != j ==> s[i].0 != s[j].0
}

/// Whether `i` is the position of the first entry named `name`.
pub open spec fn is_first_pos(s: FieldEntries, name: Seq<char>, i: int) -> bool {
    &&& 0 <= i < s.len()
    &&& s[i].0 == name
    &&& forall|j: int| 0 <= j < i ==> s[j].0 != name
}

/// Whether some entry is named `name`.
pub open spec fn has_name(s: FieldEntries, name: Seq<char>) -> bool {
    exists|i: int| is_first_pos(s, name, i)
}

/// Position of the first entry named `name`; meaningful where [`has_name`] holds.
pub open spec fn name_pos(s: FieldEntries, name: Seq<char>) -> int {
    choose|i: int| is_first_pos(s, name, i)
}

/// There is at most one first position of a name.
pub proof fn lemma_first_pos_unique(s: FieldEntries, name: Seq<char>, i: int, k: int)
    requires
        is_first_pos(s, name, i),
        is_first_pos(s, name, k),
    ensures
        i == k,
{
    if i < k {
        assert(s[i].0 != name);
    } else if k < i {
        assert(s[k].0 != name);
    }
}

/// Where names are unique, the entry named `name`, if any, is the first one.
pub proof fn lemma_unique_pos(s: FieldEntries, name: Seq<char>, i: int)
    requires
        unique_names(s),
        0 <= i < s.len(),
        s[i].0 == name,
    ensures
        is_first_pos(s, name, i),
        has_name(s, name),
        name_pos(s, name) == i,
{
    assert forall|j: int| 0 <= j < i implies s[j].0 != name by {
        assert(s[j].0 != s[i].0);
    }
    assert(is_first_pos(s, name, i));
    lemma_first_pos_unique(s, name, i, name_pos(s, name));
}

/// Value recorded under `name`, if any.
pub open spec fn value_of(s: FieldEntries, name: Seq<char>) -> Option<TracedValue> {
    if has_name(s, name) {
        Some(s[name_pos(s, name)].1)
    } else {
        None
    }
}

/// `s` after recording `value` under `name`: an existing entry keeps its position
/// and takes the new value; a new name is appended.
pub open spec fn inserted(s: FieldEntries, name: Seq<char>, value: TracedValue) -> FieldEntries {
    if has_name(s, name) {
        s.update(name_pos(s, name), (name, value))
    } else {
        s.push((name, value))
    }
}

/// `s` after recording every entry of `t`, in the order of `t`.
pub open spec fn merged(s: FieldEntries, t: FieldEntries) -> FieldEntries
    decreases t.len(),
{
    if t.len() == 0 {
        s
    } else {
        let last = t.last();
        inserted(merged(s, t.drop_last()), last.0, last.1)
    }
}

/// The names of the entries, in order.
pub open spec fn names_of(s: FieldEntries) -> Seq<Seq<char>> {
    s.map_values(|e: (Seq<char>, TracedValue)| e.0)
}

/// Recording a value keeps the names unique.
pub proof fn lemma_inserted_unique(s: FieldEntries, name: Seq<char>, value: TracedValue)
    requires
        unique_names(s),
    ensures
        unique_names(inserted(s, name, value)),
        has_name(inserted(s, name, value), name),
        value_of(inserted(s, name, value), name) == Some(value),
        inserted(s, name, value).len() == if has_name(s, name) {
            s.len()
        } else {
            s.len() + 1
        },
{
    let r = inserted(s, name, value);
    if has_name(s, name) {
        let p = name_pos(s, name);
        assert(is_first_pos(s, name, p));
        assert forall|i: int, j: int| 0 <= i < r.len() && 0 <= j < r.len() && i != j implies r[i].0
            != r[j].0 by {
            if i == p {
                assert(s[j].0 != s[p].0);
            } else if j == p {
                assert(s[i].0 != s[p].0);
            }
        }
        lemma_unique_pos(r, name, p);
    } else {
        assert forall|i: int| 0 <= i < s.len() implies s[i].0 != name by {
            if s[i].0 == name {
                lemma_unique_pos(s, name, i);
            }
        }
        lemma_unique_pos(r, name, s.len() as int);
    }
}

/// Recording a sequence of entries keeps the names unique.
pub proof fn lemma_merged_unique(s: FieldEntries, t: FieldEntries)
    requires
        unique_names(s),
    ensures
        unique_names(merged(s, t)),
    decreases t.len(),
{
    if t.len() > 0 {
        lemma_merged_unique(s, t.drop_last());
        lemma_inserted_unique(merged(s, t.drop_last()), t.last().0, t.last().1);
    }
}

/// Field order is kept: recording entries with distinct names into an empty map
/// yields exactly those entries, in their order.
pub proof fn lemma_field_order(t: FieldEntries)
    requires
        unique_names(t),
    ensures
        merged(Seq::empty(), t) == t,
    decreases t.len(),
{
    if t.len() > 0 {
        let s = t.drop_last();
        assert(unique_names(s));
        lemma_field_order(s);
        let name = t.last().0;
        if has_name(s, name) {
            let i = name_pos(s, name);
            assert(is_first_pos(s, name, i));
            assert(t[i].0 == t[t.len() - 1].0);
        }
        assert(s.push(t.last()) =~= t);
    }
}

/// Insertion-ordered map from field names to values. Recording a value under
/// a name that is already present replaces the value and keeps its position.
#[derive(Debug)]
pub struct TracedValues {
    entries: Vec<(String, TracedValue)>,
}

impl View for TracedValues {
    type V = FieldEntries;

    closed spec fn view(&self) -> FieldEntries {
        self.entries@.map_values(|e: (String, TracedValue)| (e.0@, e.1))
    }
}

impl TracedValues {
    /// Creates an empty map.
    pub fn new() -> (r: TracedValues)
        ensures
            r@ == Seq::<(Seq<char>, TracedValue)>::empty(),
    {
        let r = TracedValues { entries: Vec::new() };
        assert(r@ =~= Seq::<(Seq<char>, TracedValue)>::empty());
        r
    }

    /// Number of entries.
    pub fn len(&self) -> (r: usize)
        ensures
            r == self@.len(),
    {
        self.entries.len()
    }

    /// Whether the map has no entries.
    pub fn is_empty(&self) -> (r: bool)
        ensures
            r <==> self@.len() == 0,
    {
        self.entries.len() == 0
    }

    /// Entry at position `i`, in insertion order.
    pub fn entry(&self, i: usize) -> (r: (&str, &TracedValue))
        requires
            i < self@.len(),
        ensures
            r.0@ == self@[i as int].0,
            *r.1 == self@[i as int].1,
    {
        let e = &self.entries[i];
        (e.0.as_str(), &e.1)
    }

    /// Position of the entry named `name`, or `None` if there is none.
    pub fn position(&self, name: &str) -> (r: Option<usize>)
        ensures
            match r {
                Some(i) => i < self@.len() && self@[i as int].0 == name@ && has_name(self@, name@)
                    && name_pos(self@, name@) == i,
                None => !has_name(self@, name@),
            },
    {
        let mut i: usize = 0;
        while i < self.entries.len()
            invariant
                i <= self@.len(),
                self@.len() == self.entries@.len(),
                forall|j: int| 0 <= j < i ==> self@[j].0 != name@,
            decreases self.entries@.len() - i,
        {
            if crate::value::string_eq(self.entries[i].0.as_str(), name) {
                proof {
                    assert(is_first_pos(self@, name@, i as int));
                    lemma_first_pos_unique(self@, name@, i as int, name_pos(self@, name@));
                }
                return Some(i);
            }
            i = i + 1;
        }
        None
    }

    /// Value recorded under `name`, if any.
    pub fn get(&self, name: &str) -> (r: Option<&TracedValue>)
        ensures
            match r {
                Some(v) => value_of(self@, name@) == Some(*v),
                None => value_of(self@, name@) is None,
            },
    {
        match self.position(name) {
            Some(i) => Some(&self.entries[i].1),
            None => None,
        }
    }

    /// Records `value` under `name`. An existing entry keeps its position and takes
    /// the new value, which returns the old one; a new name is appended.
    pub fn insert(&mut self, name: String, value: TracedValue) -> (r: Option<TracedValue>)
        ensures
            final(self)@ == inserted(old(self)@, name@, value),
            r == value_of(old(self)@, name@),
            unique_names(old(self)@) ==> unique_names(final(self)@),
    {
        proof {
            if unique_names(self@) {
                lemma_inserted_unique(self@, name@, value);
            }
        }
        match self.position(name.as_str()) {
            Some(i) => {
                let ghost old_view = self@;
                let old_value = self.entries[i].1.clone();
                self.entries.set(i, (name, value));
                assert(self@ =~= old_view.update(i as int, (name@, value)));
                Some(old_value)
            },
            None => {
                let ghost old_view = self@;
                self.entries.push((name, value));
                assert(self@ =~= old_view.push((name@, value)));
                None
            },
        }
    }

    /// Records every entry of `other`, in its order.
    pub fn extend(&mut self, other: &TracedValues)
        ensures
            final(self)@ == merged(old(self)@, other@),
    {
        let ghost start = self@;
        let mut i: usize = 0;
        while i < other.entries.len()
            invariant
                i <= other@.len(),
                other@.len() == other.entries@.len(),
                self@ == merged(start, other@.take(i as int)),
            decreases other.entries@.len() - i,
        {
            let name = other.entries[i].0.clone();
            let value = other.entries[i].1.clone();
            assert(other@.take(i + 1).drop_last() =~= other@.take(i as int));
            self.insert(name, value);
            i = i + 1;
        }
        assert(other@.take(i as int) =~= other@);
    }

    /// Builds a map by recording the given entries in order.
    pub fn from_entries(entries: Vec<(String, TracedValue)>) -> (r: TracedValues)
        ensures
            r@ == merged(Seq::empty(), entries@.map_values(|e: (String, TracedValue)| (e.0@, e.1))),
            unique_names(r@),
    {
        let ghost t = entries@.map_values(|e: (String, TracedValue)| (e.0@, e.1));
        let mut r = TracedValues::new();
        let mut i: usize = 0;
        while i < entries.len()
            invariant
                i <= entries@.len(),
                t == entries@.map_values(|e: (String, TracedValue)| (e.0@, e.1)),
                r@ == merged(Seq::empty(), t.take(i as int)),
            decreases entries@.len() - i,
        {
            let name = entries[i].0.clone();
            let value = entries[i].1.clone();
            assert(t.take(i + 1).drop_last() =~= t.take(i as int));
            r.insert(name, value);
            i = i + 1;
        }
        assert(t.take(i as int) =~= t);
        proof {
            lemma_merged_unique(Seq::empty(), t);
        }
        r
    }
}

impl Clone for TracedValues {
    fn clone(&self) -> (r: Self)
        ensures
            r@ == self@,
    {
        let mut entries: Vec<(String, TracedValue)> = Vec::new();
        let mut i: usize = 0;
        while i < self.entries.len()
            invariant
                i <= self.entries@.len(),
                entries@.len() == i,
                forall|j: int|
                    0 <= j < i ==> (#[trigger] entries@[j]).0@ == self.entries@[j].0@
                        && entries@[j].1 == self.entries@[j].1,
            decreases self.entries@.len() - i,
        {
            entries.push((self.entries[i].0.clone(), self.entries[i].1.clone()));
            i = i + 1;
        }
        let r = TracedValues { entries };
        assert(r@ =~= self@);
        r
    }
}

} // verus!
