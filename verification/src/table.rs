//! An ordered table from names to values. The shell keeps two of them: its
//! variables (the environment that tokens are resolved against) and its
//! aliases.

use vstd::prelude::*;

verus! {

/// The contents of a table: its entries in the order in which their names
/// were first given.
pub type Entries = Seq<(Seq<char>, Seq<char>)>;

/// The value that `entries` holds for `key`: that of the first entry so
/// named.
pub open spec fn lookup(entries: Entries, key: Seq<char>) -> Option<Seq<char>>
    decreases entries.len(),
{
    if entries.len() == 0 {
        None
    } else if entries[0].0 == key {
        Some(entries[0].1)
    } else {
        lookup(entries.skip(1), key)
    }
}

/// The value of `key` in `entries`, and the empty text where it has none.
pub open spec fn value_of(entries: Entries, key: Seq<char>) -> Seq<char> {
    match lookup(entries, key) {
        Some(v) => v,
        None => Seq::empty(),
    }
}

/// `entries` with `key` set to `value`: changed in place where the name is
/// there, added at the end where it is not.
pub open spec fn assign(entries: Entries, key: Seq<char>, value: Seq<char>) -> Entries
    decreases entries.len(),
{
    if entries.len() == 0 {
        seq![(key, value)]
    } else if entries[0].0 == key {
        seq![(key, value)] + entries.skip(1)
    } else {
        seq![entries[0]] + assign(entries.skip(1), key, value)
    }
}

/// `entries` without any entry named `key`.
pub open spec fn without(entries: Entries, key: Seq<char>) -> Entries
    decreases entries.len(),
{
    if entries.len() == 0 {
        entries
    } else if entries[0].0 == key {
        without(entries.skip(1), key)
    } else {
        seq![entries[0]] + without(entries.skip(1), key)
    }
}

/// After `assign`, the name has the value.
pub proof fn lemma_assign_same(entries: Entries, key: Seq<char>, value: Seq<char>)
    ensures
        lookup(assign(entries, key, value), key) == Some(value),
    decreases entries.len(),
{
    if entries.len() != 0 && entries[0].0 != key {
        lemma_assign_same(entries.skip(1), key, value);
        let rest = assign(entries.skip(1), key, value);
        assert((seq![entries[0]] + rest).skip(1) == rest);
    }
}

/// `assign` leaves every other name as it was.
pub proof fn lemma_assign_other(
    entries: Entries,
    key: Seq<char>,
    value: Seq<char>,
    other: Seq<char>,
)
    requires
        other != key,
    ensures
        lookup(assign(entries, key, value), other) == lookup(entries, other),
    decreases entries.len(),
{
    if entries.len() == 0 {
        let one = seq![(key, value)];
        assert(one.skip(1).len() == 0);
        assert(lookup(one.skip(1), other) is None);
    } else if entries[0].0 == key {
        assert((seq![(key, value)] + entries.skip(1)).skip(1) == entries.skip(1));
    } else {
        lemma_assign_other(entries.skip(1), key, value, other);
        let rest = assign(entries.skip(1), key, value);
        assert((seq![entries[0]] + rest).skip(1) == rest);
    }
}

/// After `without`, the name has no value, and every other name is as it was.
pub proof fn lemma_without(entries: Entries, key: Seq<char>, other: Seq<char>)
    ensures
        lookup(without(entries, key), key) is None,
        other != key ==> lookup(without(entries, key), other) == lookup(entries, other),
    decreases entries.len(),
{
    if entries.len() != 0 {
        lemma_without(entries.skip(1), key, other);
        if entries[0].0 != key {
            let rest = without(entries.skip(1), key);
            assert((seq![entries[0]] + rest).skip(1) == rest);
        }
    }
}

/// An ordered table from names to values.
#[derive(Debug)]
pub struct Table {
    pub entries: Vec<(String, String)>,
}

impl View for Table {
    type V = Entries;

    open spec fn view(&self) -> Entries {
        Seq::new(self.entries@.len(), |i: int| (self.entries@[i].0@, self.entries@[i].1@))
    }
}

impl Table {
    /// The empty table.
    pub fn new() -> (r: Table)
        ensures
            r@ == Entries::empty(),
    {
        let r = Table { entries: Vec::new() };
        assert(r@ =~= Entries::empty());
        r
    }

    /// The number of entries.
    pub fn len(&self) -> (r: usize)
        ensures
            r == self@.len(),
    {
        self.entries.len()
    }

    /// The name of the entry at `index`.
    pub fn name_at(&self, index: usize) -> (r: &str)
        requires
            index < self@.len(),
        ensures
            r@ == self@[index as int].0,
    {
        self.entries[index].0.as_str()
    }

    /// The value of the entry at `index`.
    pub fn value_at(&self, index: usize) -> (r: &str)
        requires
            index < self@.len(),
        ensures
            r@ == self@[index as int].1,
    {
        self.entries[index].1.as_str()
    }

    /// The index of the first entry named `key`.
    pub fn position(&self, key: &str) -> (r: Option<usize>)
        ensures
            match r {
                Some(i) => i < self@.len() && self@[i as int].0 == key@ && forall|j: int|
                    0 <= j < i ==> self@[j].0 != key@,
                None => forall|j: int| 0 <= j < self@.len() ==> self@[j].0 != key@,
            },
    {
        let wanted = String::from_str(key);
        let mut i: usize = 0;
        while i < self.entries.len()
            invariant
                i <= self.entries.len(),
                wanted@ == key@,
                forall|j: int| 0 <= j < i ==> self@[j].0 != key@,
            decreases self.entries.len() - i,
        {
            if self.entries[i].0 == wanted {
                return Some(i);
            }
            i += 1;
        }
        None
    }

    /// The value held for `key`.
    pub fn get(&self, key: &str) -> (r: Option<String>)
        ensures
            r is Some <==> lookup(self@, key@) is Some,
            r is Some ==> Some(r.unwrap()@) == lookup(self@, key@),
    {
        match self.position(key) {
            Some(i) => {
                proof {
                    lemma_lookup_at(self@, key@, i as int);
                }
                Some(self.entries[i].1.clone())
            },
            None => {
                proof {
                    lemma_lookup_absent(self@, key@);
                }
                None
            },
        }
    }

    /// The value held for `key`, and the empty string where there is none.
    pub fn get_or_empty(&self, key: &str) -> (r: String)
        ensures
            r@ == value_of(self@, key@),
    {
        match self.get(key) {
            Some(v) => v,
            None => String::new(),
        }
    }

    /// Whether the table has an entry named `key`.
    pub fn contains(&self, key: &str) -> (r: bool)
        ensures
            r == lookup(self@, key@) is Some,
    {
        self.get(key).is_some()
    }

    /// Sets `key` to `value`.
    pub fn insert(&mut self, key: String, value: String)
        ensures
            final(self)@ == assign(old(self)@, key@, value@),
    {
        match self.position(key.as_str()) {
            Some(i) => {
                proof {
                    lemma_assign_at(self@, key@, value@, i as int);
                }
                self.entries[i] = (key, value);
                assert(self@ =~= old(self)@.update(i as int, (key@, value@)));
            },
            None => {
                proof {
                    lemma_assign_absent(self@, key@, value@);
                }
                self.entries.push((key, value));
                assert(self@ =~= old(self)@.push((key@, value@)));
            },
        }
    }

    /// Removes every entry named `key`.
    pub fn remove(&mut self, key: &str)
        ensures
            final(self)@ == without(old(self)@, key@),
    {
        let wanted = String::from_str(key);
        let mut kept: Vec<(String, String)> = Vec::new();
        let mut i: usize = 0;
        let ghost whole = self@;
        assert(whole.skip(0) == whole);
        assert(pairs(kept@) + without(whole, key@) =~= without(whole, key@));
        while i < self.entries.len()
            invariant
                i <= self.entries.len(),
                wanted@ == key@,
                self@ == whole,
                pairs(kept@) + without(whole.skip(i as int), key@) == without(whole, key@),
            decreases self.entries.len() - i,
        {
            let ghost rest = whole.skip(i as int);
            assert(rest.skip(1) == whole.skip(i + 1));
            assert(rest[0] == whole[i as int]);
            if !(self.entries[i].0 == wanted) {
                let ghost before = pairs(kept@);
                kept.push((self.entries[i].0.clone(), self.entries[i].1.clone()));
                assert(pairs(kept@) =~= before + seq![rest[0]]);
                assert(pairs(kept@) + without(whole.skip(i + 1), key@) =~= before + (seq![rest[0]]
                    + without(rest.skip(1), key@)));
            }
            i += 1;
        }
        assert(pairs(kept@) + without(whole.skip(i as int), key@) =~= pairs(kept@));
        self.entries = kept;
        assert(self@ =~= pairs(kept@));
    }
}

impl Clone for Table {
    fn clone(&self) -> (r: Table)
        ensures
            r@ == self@,
    {
        let mut entries: Vec<(String, String)> = Vec::new();
        let mut i: usize = 0;
        while i < self.entries.len()
            invariant
                i <= self.entries.len(),
                entries@.len() == i,
                forall|j: int|
                    0 <= j < i ==> entries@[j].0@ == self.entries@[j].0@ && entries@[j].1@
                        == self.entries@[j].1@,
            decreases self.entries.len() - i,
        {
            entries.push((self.entries[i].0.clone(), self.entries[i].1.clone()));
            i += 1;
        }
        let r = Table { entries };
        assert(r@ =~= self@);
        r
    }
}

/// The views of a sequence of pairs of strings.
pub open spec fn pairs(v: Seq<(String, String)>) -> Entries {
    Seq::new(v.len(), |i: int| (v[i].0@, v[i].1@))
}

/// Where the first entry named `key` stands at `index`, `lookup` finds it.
pub proof fn lemma_lookup_at(entries: Entries, key: Seq<char>, index: int)
    requires
        0 <= index < entries.len(),
        entries[index].0 == key,
        forall|j: int| 0 <= j < index ==> entries[j].0 != key,
    ensures
        lookup(entries, key) == Some(entries[index].1),
    decreases index,
{
    if index > 0 {
        lemma_lookup_at(entries.skip(1), key, index - 1);
    }
}

/// Where no entry is named `key`, `lookup` finds nothing.
pub proof fn lemma_lookup_absent(entries: Entries, key: Seq<char>)
    requires
        forall|j: int| 0 <= j < entries.len() ==> entries[j].0 != key,
    ensures
        lookup(entries, key) is None,
    decreases entries.len(),
{
    if entries.len() > 0 {
        lemma_lookup_absent(entries.skip(1), key);
    }
}

/// Where the first entry named `key` stands at `index`, `assign` changes
/// that entry and no other.
pub proof fn lemma_assign_at(entries: Entries, key: Seq<char>, value: Seq<char>, index: int)
    requires
        0 <= index < entries.len(),
        entries[index].0 == key,
        forall|j: int| 0 <= j < index ==> entries[j].0 != key,
    ensures
        assign(entries, key, value) == entries.update(index, (key, value)),
    decreases index,
{
    if index > 0 {
        lemma_assign_at(entries.skip(1), key, value, index - 1);
        assert(seq![entries[0]] + entries.skip(1).update(index - 1, (key, value))
            =~= entries.update(index, (key, value)));
    } else {
        assert(seq![(key, value)] + entries.skip(1) =~= entries.update(0, (key, value)));
    }
}

/// Where no entry is named `key`, `assign` adds one at the end.
pub proof fn lemma_assign_absent(entries: Entries, key: Seq<char>, value: Seq<char>)
    requires
        forall|j: int| 0 <= j < entries.len() ==> entries[j].0 != key,
    ensures
        assign(entries, key, value) == entries.push((key, value)),
    decreases entries.len(),
{
    if entries.len() > 0 {
        lemma_assign_absent(entries.skip(1), key, value);
        assert(seq![entries[0]] + entries.skip(1).push((key, value)) =~= entries.push(
            (key, value),
        ));
    } else {
        assert(seq![(key, value)] =~= entries.push((key, value)));
    }
}

} // verus!
