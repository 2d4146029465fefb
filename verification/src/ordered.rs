//! Maps and sets kept in the order of their keys.
use crate::text;
use vstd::prelude::*;

verus! {

/// A key with a strict total order on what it stands for.
pub trait OrderedKey: View + Sized {
    /// Whether the first key stands before the second.
    spec fn before(a: Self::V, b: Self::V) -> bool;

    proof fn lemma_irreflexive(a: Self::V)
        ensures
            !Self::before(a, a),
    ;

    proof fn lemma_transitive(a: Self::V, b: Self::V, c: Self::V)
        requires
            Self::before(a, b),
            Self::before(b, c),
        ensures
            Self::before(a, c),
    ;

    proof fn lemma_total(a: Self::V, b: Self::V)
        ensures
            Self::before(a, b) || Self::before(b, a) || a == b,
    ;

    /// Whether this key stands before the other.
    fn precedes(&self, other: &Self) -> (r: bool)
        ensures
            r == Self::before(self@, other@),
    ;
}

impl OrderedKey for u64 {
    open spec fn before(a: u64, b: u64) -> bool {
        a < b
    }

    proof fn lemma_irreflexive(a: u64) {
    }

    proof fn lemma_transitive(a: u64, b: u64, c: u64) {
    }

    proof fn lemma_total(a: u64, b: u64) {
    }

    fn precedes(&self, other: &Self) -> (r: bool) {
        *self < *other
    }
}

impl OrderedKey for i64 {
    open spec fn before(a: i64, b: i64) -> bool {
        a < b
    }

    proof fn lemma_irreflexive(a: i64) {
    }

    proof fn lemma_transitive(a: i64, b: i64, c: i64) {
    }

    proof fn lemma_total(a: i64, b: i64) {
    }

    fn precedes(&self, other: &Self) -> (r: bool) {
        *self < *other
    }
}

impl OrderedKey for u128 {
    open spec fn before(a: u128, b: u128) -> bool {
        a < b
    }

    proof fn lemma_irreflexive(a: u128) {
    }

    proof fn lemma_transitive(a: u128, b: u128, c: u128) {
    }

    proof fn lemma_total(a: u128, b: u128) {
    }

    fn precedes(&self, other: &Self) -> (r: bool) {
        *self < *other
    }
}

impl OrderedKey for u16 {
    open spec fn before(a: u16, b: u16) -> bool {
        a < b
    }

    proof fn lemma_irreflexive(a: u16) {
    }

    proof fn lemma_transitive(a: u16, b: u16, c: u16) {
    }

    proof fn lemma_total(a: u16, b: u16) {
    }

    fn precedes(&self, other: &Self) -> (r: bool) {
        *self < *other
    }
}

impl OrderedKey for u32 {
    open spec fn before(a: u32, b: u32) -> bool {
        a < b
    }

    proof fn lemma_irreflexive(a: u32) {
    }

    proof fn lemma_transitive(a: u32, b: u32, c: u32) {
    }

    proof fn lemma_total(a: u32, b: u32) {
    }

    fn precedes(&self, other: &Self) -> (r: bool) {
        *self < *other
    }
}

impl OrderedKey for usize {
    open spec fn before(a: usize, b: usize) -> bool {
        a < b
    }

    proof fn lemma_irreflexive(a: usize) {
    }

    proof fn lemma_transitive(a: usize, b: usize, c: usize) {
    }

    proof fn lemma_total(a: usize, b: usize) {
    }

    fn precedes(&self, other: &Self) -> (r: bool) {
        *self < *other
    }
}

impl OrderedKey for String {
    open spec fn before(a: Seq<char>, b: Seq<char>) -> bool {
        text::text_before(a, b)
    }

    proof fn lemma_irreflexive(a: Seq<char>) {
        text::lemma_text_irreflexive(a);
    }

    proof fn lemma_transitive(a: Seq<char>, b: Seq<char>, c: Seq<char>) {
        text::lemma_text_transitive(a, b, c);
    }

    proof fn lemma_total(a: Seq<char>, b: Seq<char>) {
        text::lemma_text_total(a, b);
    }

    fn precedes(&self, other: &Self) -> (r: bool) {
        text::precedes(self.as_str(), other.as_str())
    }
}

/// No number stands before one.
impl OrderedKey for Option<u64> {
    open spec fn before(a: Option<u64>, b: Option<u64>) -> bool {
        match (a, b) {
            (None, Some(_)) => true,
            (Some(x), Some(y)) => x < y,
            _ => false,
        }
    }

    proof fn lemma_irreflexive(a: Option<u64>) {
    }

    proof fn lemma_transitive(a: Option<u64>, b: Option<u64>, c: Option<u64>) {
    }

    proof fn lemma_total(a: Option<u64>, b: Option<u64>) {
    }

    fn precedes(&self, other: &Self) -> (r: bool) {
        match (self, other) {
            (None, Some(_)) => true,
            (Some(x), Some(y)) => *x < *y,
            _ => false,
        }
    }
}

/// Pairs are ordered by their first part, then by their second.
impl<A: OrderedKey, B: OrderedKey> OrderedKey for (A, B) {
    open spec fn before(a: (A::V, B::V), b: (A::V, B::V)) -> bool {
        A::before(a.0, b.0) || (a.0 == b.0 && B::before(a.1, b.1))
    }

    proof fn lemma_irreflexive(a: (A::V, B::V)) {
        A::lemma_irreflexive(a.0);
        B::lemma_irreflexive(a.1);
    }

    proof fn lemma_transitive(a: (A::V, B::V), b: (A::V, B::V), c: (A::V, B::V)) {
        A::lemma_irreflexive(a.0);
        if A::before(a.0, b.0) && A::before(b.0, c.0) {
            A::lemma_transitive(a.0, b.0, c.0);
        }
        if a.0 == b.0 && b.0 == c.0 {
            B::lemma_transitive(a.1, b.1, c.1);
        }
    }

    proof fn lemma_total(a: (A::V, B::V), b: (A::V, B::V)) {
        A::lemma_total(a.0, b.0);
        B::lemma_total(a.1, b.1);
    }

    fn precedes(&self, other: &Self) -> (r: bool) {
        if self.0.precedes(&other.0) {
            true
        } else if other.0.precedes(&self.0) {
            proof {
                if self@.0 == other@.0 {
                    A::lemma_irreflexive(self@.0);
                }
            }
            false
        } else {
            proof {
                A::lemma_total(self@.0, other@.0);
            }
            self.1.precedes(&other.1)
        }
    }
}

/// Whether every entry's key stands before the keys of the entries behind it.
pub open spec fn increasing<K: OrderedKey, T>(entries: Seq<(K, T)>) -> bool {
    forall|i: int, j: int|
        #![trigger entries[i], entries[j]]
        0 <= i < j < entries.len() ==> K::before(entries[i].0@, entries[j].0@)
}

/// The map that a run of entries with different keys spells out.
pub open spec fn map_of<K: OrderedKey, T>(entries: Seq<(K, T)>) -> Map<K::V, T> {
    Map::new(
        |k: K::V| exists|i: int| 0 <= i < entries.len() && (#[trigger] entries[i]).0@ == k,
        |k: K::V| entries[choose|i: int| 0 <= i < entries.len() && (#[trigger] entries[i]).0@ == k].1,
    )
}

/// A map whose entries stand in the order of their keys.
#[derive(Debug)]
pub struct SortedMap<K: OrderedKey, T> {
    entries: Vec<(K, T)>,
}

impl<K: OrderedKey, T> View for SortedMap<K, T> {
    type V = Map<K::V, T>;

    open spec fn view(&self) -> Map<K::V, T> {
        map_of(self.listing())
    }
}

pub proof fn lemma_entry_in_map<K: OrderedKey, T>(entries: Seq<(K, T)>, i: int)
    requires
        increasing(entries),
        0 <= i < entries.len(),
    ensures
        map_of(entries).dom().contains(entries[i].0@),
        map_of(entries)[entries[i].0@] == entries[i].1,
{
    let k = entries[i].0@;
    let j = choose|j: int| 0 <= j < entries.len() && (#[trigger] entries[j]).0@ == k;
    assert(entries[i].0@ == k);
    K::lemma_irreflexive(k);
    assert(i == j);
}

impl<K: OrderedKey, T> SortedMap<K, T> {
    /// The entries, in the order of their keys.
    pub closed spec fn listing(&self) -> Seq<(K, T)> {
        self.entries@
    }

    /// Each key stands once, and the keys stand in order.
    pub open spec fn well_formed(&self) -> bool {
        increasing(self.listing())
    }

    pub fn new() -> (map: Self)
        ensures
            map.well_formed(),
            map@ == Map::<K::V, T>::empty(),
            map.listing().len() == 0,
    {
        let map = SortedMap { entries: Vec::new() };
        assert(map@ =~= Map::<K::V, T>::empty());
        map
    }

    pub fn len(&self) -> (n: usize)
        ensures
            n == self.listing().len(),
    {
        self.entries.len()
    }

    /// Where the key stands, or where it would be put.
    fn position(&self, key: &K) -> (found: (usize, bool))
        requires
            self.well_formed(),
        ensures
            found.0 <= self.entries@.len(),
            forall|i: int| 0 <= i < found.0 ==> K::before((#[trigger] self.entries@[i]).0@, key@),
            forall|i: int|
                found.0 < i < self.entries@.len() ==> K::before(
                    key@,
                    (#[trigger] self.entries@[i]).0@,
                ),
            found.1 ==> found.0 < self.entries@.len() && self.entries@[found.0 as int].0@ == key@,
            !found.1 && found.0 < self.entries@.len() ==> K::before(
                key@,
                self.entries@[found.0 as int].0@,
            ),
    {
        let mut low: usize = 0;
        let mut high: usize = self.entries.len();
        while low < high
            invariant
                self.well_formed(),
                low <= high <= self.entries@.len(),
                forall|i: int| 0 <= i < low ==> K::before((#[trigger] self.entries@[i]).0@, key@),
                forall|i: int|
                    high <= i < self.entries@.len() ==> !K::before(
                        (#[trigger] self.entries@[i]).0@,
                        key@,
                    ),
            decreases high - low,
        {
            let middle: usize = low + (high - low) / 2;
            if self.entries[middle].0.precedes(key) {
                proof {
                    assert forall|i: int| 0 <= i <= middle implies K::before(
                        (#[trigger] self.entries@[i]).0@,
                        key@,
                    ) by {
                        if i < middle {
                            K::lemma_transitive(
                                self.entries@[i].0@,
                                self.entries@[middle as int].0@,
                                key@,
                            );
                        }
                    }
                }
                low = middle + 1;
            } else {
                proof {
                    assert forall|i: int| middle <= i < self.entries@.len() implies !K::before(
                        (#[trigger] self.entries@[i]).0@,
                        key@,
                    ) by {
                        if i > middle && K::before(self.entries@[i].0@, key@) {
                            K::lemma_transitive(
                                self.entries@[middle as int].0@,
                                self.entries@[i].0@,
                                key@,
                            );
                        }
                    }
                }
                high = middle;
            }
        }
        let found = low < self.entries.len() && !key.precedes(&self.entries[low].0);
        proof {
            if low < self.entries@.len() {
                K::lemma_total(key@, self.entries@[low as int].0@);
            }
            assert forall|i: int| low < i < self.entries@.len() implies K::before(
                key@,
                (#[trigger] self.entries@[i]).0@,
            ) by {
                K::lemma_total(key@, self.entries@[low as int].0@);
                assert(K::before(self.entries@[low as int].0@, self.entries@[i].0@));
                if key@ != self.entries@[low as int].0@ {
                    K::lemma_transitive(key@, self.entries@[low as int].0@, self.entries@[i].0@);
                }
            }
        }
        (low, found)
    }

    /// The value at a key.
    pub fn get(&self, key: &K) -> (value: Option<&T>)
        requires
            self.well_formed(),
        ensures
            match value {
                Some(found) => self@.dom().contains(key@) && *found == self@[key@],
                None => !self@.dom().contains(key@),
            },
    {
        let (at, found) = self.position(key);
        if found {
            proof {
                lemma_entry_in_map(self.entries@, at as int);
            }
            Some(&self.entries[at].1)
        } else {
            proof {
                lemma_absent(self.entries@, key@, at as int);
            }
            None
        }
    }

    /// Whether a key is there.
    pub fn contains(&self, key: &K) -> (r: bool)
        requires
            self.well_formed(),
        ensures
            r == self@.dom().contains(key@),
    {
        self.get(key).is_some()
    }

    /// The value at a key, put there as `initial` where the key is not there yet, to be changed.
    pub fn entry(&mut self, key: K, initial: T) -> (value: &mut T)
        requires
            old(self).well_formed(),
        ensures
            *value == (if old(self)@.dom().contains(key@) {
                old(self)@[key@]
            } else {
                initial
            }),
            final(self).well_formed(),
            final(self)@ == old(self)@.insert(key@, *final(value)),
    {
        let (at, found) = self.position(&key);
        if found {
            proof {
                lemma_entry_in_map(self.entries@, at as int);
            }
        } else {
            proof {
                lemma_absent(self.entries@, key@, at as int);
                lemma_insert(self.entries@, at as int, key, initial);
            }
            self.entries.insert(at, (key, initial));
        }
        proof {
            lemma_entry_in_map(self.entries@, at as int);
            lemma_update_all(self.entries@, at as int);
        }
        &mut self.entries[at].1
    }
}

impl<K: OrderedKey, T> SortedMap<K, T> {
    /// The value at a key that is there, to be changed.
    pub fn at(&mut self, key: &K) -> (value: &mut T)
        requires
            old(self).well_formed(),
            old(self)@.dom().contains(key@),
        ensures
            *value == old(self)@[key@],
            final(self).well_formed(),
            final(self)@ == old(self)@.insert(key@, *final(value)),
    {
        let (at, found) = self.position(key);
        proof {
            if !found {
                lemma_absent(self.entries@, key@, at as int);
            }
            lemma_entry_in_map(self.entries@, at as int);
            lemma_update_all(self.entries@, at as int);
        }
        &mut self.entries[at].1
    }
}

impl<K: OrderedKey + Copy, T: Copy> SortedMap<K, T> {
    /// Another map with the same entries.
    pub fn copied(&self) -> (copy: Self)
        ensures
            copy.listing() == self.listing(),
    {
        let mut entries: Vec<(K, T)> = Vec::new();
        for i in 0..self.entries.len()
            invariant
                entries@ == self.entries@.take(i as int),
        {
            entries.push(self.entries[i]);
        }
        assert(self.entries@.take(self.entries@.len() as int) =~= self.entries@);
        SortedMap { entries }
    }
}

impl<K: OrderedKey, T> SortedMap<K, T> {
    /// The entries, in the order of their keys.
    pub fn entries(&self) -> (entries: &[(K, T)])
        ensures
            entries@ == self.listing(),
    {
        self.entries.as_slice()
    }

    /// Puts a value at a key, over what stood there.
    pub fn insert(&mut self, key: K, value: T)
        requires
            old(self).well_formed(),
        ensures
            final(self).well_formed(),
            final(self)@ == old(self)@.insert(key@, value),
    {
        let (at, found) = self.position(&key);
        if found {
            proof {
                lemma_update_all(self.entries@, at as int);
            }
            self.entries[at].1 = value;
        } else {
            proof {
                lemma_insert(self.entries@, at as int, key, value);
            }
            self.entries.insert(at, (key, value));
        }
    }

    /// Whether another map lists the same keys with values that show the same.
    pub open spec fn listed_like<U>(&self, other: Self, shown: spec_fn(T) -> U) -> bool {
        &&& self.listing().len() == other.listing().len()
        &&& forall|i: int|
            #![trigger self.listing()[i]]
            #![trigger other.listing()[i]]
            0 <= i < self.listing().len() ==> self.listing()[i].0@ == other.listing()[i].0@
                && shown(self.listing()[i].1) == shown(other.listing()[i].1)
    }

    /// A map of copies.
    pub fn copied_with<U, F: Fn(&K) -> K, G: Fn(&T) -> T>(
        &self,
        copy_key: F,
        copy_value: G,
        Ghost(shown): Ghost<spec_fn(T) -> U>,
    ) -> (copy: Self)
        requires
            forall|k: &K| #[trigger] copy_key.requires((k,)),
            forall|k: &K, r: K| #[trigger] copy_key.ensures((k,), r) ==> r@ == k@,
            forall|t: &T| #[trigger] copy_value.requires((t,)),
            forall|t: &T, r: T| #[trigger] copy_value.ensures((t,), r) ==> shown(r) == shown(*t),
        ensures
            copy.listed_like(*self, shown),
    {
        let mut entries: Vec<(K, T)> = Vec::new();
        for i in 0..self.entries.len()
            invariant
                forall|k: &K| #[trigger] copy_key.requires((k,)),
                forall|k: &K, r: K| #[trigger] copy_key.ensures((k,), r) ==> r@ == k@,
                forall|t: &T| #[trigger] copy_value.requires((t,)),
                forall|t: &T, r: T| #[trigger]
                    copy_value.ensures((t,), r) ==> shown(r) == shown(*t),
                entries@.len() == i,
                forall|j: int|
                    0 <= j < i ==> (#[trigger] entries@[j]).0@ == self.entries@[j].0@ && shown(
                        entries@[j].1,
                    ) == shown(self.entries@[j].1),
        {
            let entry = &self.entries[i];
            entries.push((copy_key(&entry.0), copy_value(&entry.1)));
        }
        SortedMap { entries }
    }

    /// Keeps the entries that `keep` accepts.
    pub fn retain<F: Fn(&K, &T) -> bool>(
        &mut self,
        keep: F,
        Ghost(kept): Ghost<spec_fn(K::V, T) -> bool>,
    )
        requires
            old(self).well_formed(),
            forall|k: &K, t: &T| #[trigger] keep.requires((k, t)),
            forall|k: &K, t: &T, r: bool| #[trigger] keep.ensures((k, t), r) ==> r == kept(k@, *t),
        ensures
            final(self).well_formed(),
            final(self)@ == old(self)@.restrict(Set::new(|k: K::V| kept(k, old(self)@[k]))),
    {
        let mut all: Vec<(K, T)> = Vec::new();
        std::mem::swap(&mut all, &mut self.entries);
        let ghost before = all@;
        let mut remaining: Vec<(K, T)> = Vec::new();
        let ghost mut n: int = 0;
        for entry in walk: all
            invariant
                forall|k: &K, t: &T| #[trigger] keep.requires((k, t)),
                forall|k: &K, t: &T, r: bool| #[trigger]
                    keep.ensures((k, t), r) ==> r == kept(k@, *t),
                increasing(before),
                walk.seq() == before,
                n == walk.index(),
                increasing(remaining@),
                forall|j: int| 0 <= j < remaining@.len() ==> exists|i: int|
                    0 <= i < n && before[i] == #[trigger] remaining@[j],
                forall|j: int|
                    0 <= j < remaining@.len() ==> kept(
                        (#[trigger] remaining@[j]).0@,
                        remaining@[j].1,
                    ),
                forall|i: int|
                    0 <= i < n && kept((#[trigger] before[i]).0@, before[i].1) ==> exists|j: int|
                        0 <= j < remaining@.len() && before[i] == #[trigger] remaining@[j],
        {
            assert(entry == before[n]);
            let ghost shorter = remaining@;
            if keep(&entry.0, &entry.1) {
                remaining.push(entry);
                proof {
                    assert forall|i: int, j: int|
                        #![trigger remaining@[i], remaining@[j]]
                        0 <= i < j < remaining@.len() implies K::before(
                        remaining@[i].0@,
                        remaining@[j].0@,
                    ) by {
                        assert(remaining@[i] == shorter[i]);
                        let p = choose|p: int| 0 <= p < n && before[p] == shorter[i];
                        if j < shorter.len() {
                            assert(remaining@[j] == shorter[j]);
                        }
                        assert(K::before(before[p].0@, before[n].0@));
                    }
                    assert(remaining@[shorter.len() as int] == before[n]);
                    assert forall|i: int|
                        0 <= i < n + 1 && kept((#[trigger] before[i]).0@, before[i].1)
                        implies exists|j: int|
                        0 <= j < remaining@.len() && before[i] == #[trigger] remaining@[j] by {
                        if i < n {
                            let j = choose|j: int|
                                0 <= j < shorter.len() && before[i] == #[trigger] shorter[j];
                            assert(remaining@[j] == before[i]);
                        }
                    }
                    assert forall|j: int| 0 <= j < remaining@.len() implies exists|i: int|
                        0 <= i < n + 1 && before[i] == #[trigger] remaining@[j] by {
                        if j < shorter.len() {
                            let i = choose|i: int| 0 <= i < n && before[i] == shorter[j];
                            assert(before[i] == remaining@[j]);
                        } else {
                            assert(before[n] == remaining@[j]);
                        }
                    }
                }
            }
            proof {
                n = n + 1;
            }
        }
        proof {
            let m = map_of(before).restrict(Set::new(|k: K::V| kept(k, map_of(before)[k])));
            assert forall|j: int| 0 <= j < remaining@.len() implies m.dom().contains(
                (#[trigger] remaining@[j]).0@,
            ) && m[remaining@[j].0@] == remaining@[j].1 by {
                let i = choose|i: int| 0 <= i < n && before[i] == remaining@[j];
                lemma_entry_in_map(before, i);
            }
            assert forall|k: K::V| #[trigger] m.dom().contains(k) implies exists|j: int|
                0 <= j < remaining@.len() && (#[trigger] remaining@[j]).0@ == k by {
                let i = choose|i: int| 0 <= i < before.len() && (#[trigger] before[i]).0@ == k;
                lemma_entry_in_map(before, i);
                assert(kept(before[i].0@, before[i].1));
                let j = choose|j: int|
                    0 <= j < remaining@.len() && before[i] == #[trigger] remaining@[j];
                assert(remaining@[j].0@ == k);
            }
            lemma_spells_out(remaining@, m);
        }
        self.entries = remaining;
    }
}

/// A key between the entries before and behind a place is no key of any entry.
proof fn lemma_absent<K: OrderedKey, T>(entries: Seq<(K, T)>, key: K::V, at: int)
    requires
        0 <= at <= entries.len(),
        forall|i: int| 0 <= i < at ==> K::before((#[trigger] entries[i]).0@, key),
        forall|i: int| at <= i < entries.len() ==> K::before(key, (#[trigger] entries[i]).0@),
    ensures
        !map_of(entries).dom().contains(key),
{
    K::lemma_irreflexive(key);
}

/// Entries spell out a map when they hold its pairs and no others.
pub proof fn lemma_spells_out<K: OrderedKey, T>(entries: Seq<(K, T)>, m: Map<K::V, T>)
    requires
        increasing(entries),
        forall|i: int|
            0 <= i < entries.len() ==> m.dom().contains((#[trigger] entries[i]).0@)
                && m[entries[i].0@] == entries[i].1,
        forall|k: K::V|
            #[trigger] m.dom().contains(k) ==> exists|i: int|
                0 <= i < entries.len() && (#[trigger] entries[i]).0@ == k,
    ensures
        map_of(entries) == m,
{
    assert forall|k: K::V| #[trigger] map_of(entries).dom().contains(k) implies m.dom().contains(k)
        && map_of(entries)[k] == m[k] by {
        let i = choose|i: int| 0 <= i < entries.len() && (#[trigger] entries[i]).0@ == k;
        lemma_entry_in_map(entries, i);
    }
    assert(map_of(entries) =~= m);
}

/// Changing the value of one entry changes the map at that entry's key.
proof fn lemma_update<K: OrderedKey, T>(entries: Seq<(K, T)>, at: int, value: T)
    requires
        increasing(entries),
        0 <= at < entries.len(),
    ensures
        increasing(entries.update(at, (entries[at].0, value))),
        map_of(entries.update(at, (entries[at].0, value))) == map_of(entries).insert(
            entries[at].0@,
            value,
        ),
{
    let changed = entries.update(at, (entries[at].0, value));
    let m = map_of(entries).insert(entries[at].0@, value);
    assert forall|i: int, j: int|
        #![trigger changed[i], changed[j]]
        0 <= i < j < changed.len() implies K::before(changed[i].0@, changed[j].0@) by {
        assert(K::before(entries[i].0@, entries[j].0@));
    }
    assert forall|i: int| 0 <= i < changed.len() implies m.dom().contains(
        (#[trigger] changed[i]).0@,
    ) && m[changed[i].0@] == changed[i].1 by {
        lemma_entry_in_map(entries, i);
        if i != at {
            K::lemma_irreflexive(entries[at].0@);
            assert(entries[i].0@ != entries[at].0@);
        }
    }
    assert forall|k: K::V| #[trigger] m.dom().contains(k) implies exists|i: int|
        0 <= i < changed.len() && (#[trigger] changed[i]).0@ == k by {
        if k == entries[at].0@ {
            assert(changed[at].0@ == k);
        } else {
            let i = choose|i: int| 0 <= i < entries.len() && (#[trigger] entries[i]).0@ == k;
            assert(changed[i].0@ == k);
        }
    }
    lemma_spells_out(changed, m);
}

proof fn lemma_update_all<K: OrderedKey, T>(entries: Seq<(K, T)>, at: int)
    requires
        increasing(entries),
        0 <= at < entries.len(),
    ensures
        forall|changed: Seq<(K, T)>|
            changed.len() == entries.len() && (forall|i: int|
                0 <= i < entries.len() && i != at ==> #[trigger] changed[i] == entries[i])
                && changed[at].0 == entries[at].0 ==> increasing(changed) && #[trigger] map_of(
                changed,
            ) == map_of(entries).insert(entries[at].0@, changed[at].1),
{
    assert forall|changed: Seq<(K, T)>|
        changed.len() == entries.len() && (forall|i: int|
            0 <= i < entries.len() && i != at ==> #[trigger] changed[i] == entries[i])
            && changed[at].0 == entries[at].0 implies increasing(changed) && #[trigger] map_of(
        changed,
    ) == map_of(entries).insert(entries[at].0@, changed[at].1) by {
        lemma_update(entries, at, changed[at].1);
        assert(changed =~= entries.update(at, (entries[at].0, changed[at].1)));
    }
}

/// Putting an entry between those before and behind its key adds its pair to the map.
proof fn lemma_insert<K: OrderedKey, T>(entries: Seq<(K, T)>, at: int, key: K, value: T)
    requires
        increasing(entries),
        0 <= at <= entries.len(),
        forall|i: int| 0 <= i < at ==> K::before((#[trigger] entries[i]).0@, key@),
        forall|i: int| at <= i < entries.len() ==> K::before(key@, (#[trigger] entries[i]).0@),
    ensures
        increasing(entries.insert(at, (key, value))),
        map_of(entries.insert(at, (key, value))) == map_of(entries).insert(key@, value),
{
    let grown = entries.insert(at, (key, value));
    let m = map_of(entries).insert(key@, value);
    K::lemma_irreflexive(key@);
    assert forall|i: int, j: int|
        #![trigger grown[i], grown[j]]
        0 <= i < j < grown.len() implies K::before(grown[i].0@, grown[j].0@) by {
        let p = if i < at { i } else { i - 1 };
        let q = if j < at { j } else { j - 1 };
        if i == at {
            assert(grown[j] == entries[q]);
        } else if j == at {
            assert(grown[i] == entries[p]);
        } else {
            assert(grown[i] == entries[p]);
            assert(grown[j] == entries[q]);
            assert(K::before(entries[p].0@, entries[q].0@));
        }
    }
    assert forall|i: int| 0 <= i < grown.len() implies m.dom().contains((#[trigger] grown[i]).0@)
        && m[grown[i].0@] == grown[i].1 by {
        if i != at {
            let p = if i < at { i } else { i - 1 };
            assert(grown[i] == entries[p]);
            lemma_entry_in_map(entries, p);
            assert(entries[p].0@ != key@);
        }
    }
    assert forall|k: K::V| #[trigger] m.dom().contains(k) implies exists|i: int|
        0 <= i < grown.len() && (#[trigger] grown[i]).0@ == k by {
        if k == key@ {
            assert(grown[at].0@ == k);
        } else {
            let i = choose|i: int| 0 <= i < entries.len() && (#[trigger] entries[i]).0@ == k;
            assert(grown[if i < at { i } else { i + 1 }] == entries[i]);
        }
    }
    lemma_spells_out(grown, m);
}

/// A map has as many keys as entries.
pub proof fn lemma_listing_length<K: OrderedKey, T>(entries: Seq<(K, T)>)
    requires
        increasing(entries),
    ensures
        map_of(entries).dom().finite(),
        map_of(entries).dom().len() == entries.len(),
{
    let keys = Seq::new(entries.len(), |i: int| entries[i].0@);
    assert(keys.no_duplicates()) by {
        assert forall|i: int, j: int|
            0 <= i < keys.len() && 0 <= j < keys.len() && i != j implies keys[i] != keys[j] by {
            K::lemma_irreflexive(keys[i]);
            if i < j {
                assert(K::before(entries[i].0@, entries[j].0@));
            } else {
                assert(K::before(entries[j].0@, entries[i].0@));
            }
        }
    }
    keys.unique_seq_to_set();
    assert(keys.to_set() =~= map_of(entries).dom()) by {
        assert forall|k: K::V| #[trigger] map_of(entries).dom().contains(k) implies keys.contains(
            k,
        ) by {
            let i = choose|i: int| 0 <= i < entries.len() && (#[trigger] entries[i]).0@ == k;
            assert(keys[i] == k);
        }
        assert forall|k: K::V| #[trigger] keys.contains(k) implies map_of(entries).dom().contains(
            k,
        ) by {
            let i = choose|i: int| 0 <= i < keys.len() && keys[i] == k;
            assert(entries[i].0@ == k);
        }
    }
}

/// The keys of a run of entries.
pub open spec fn keys_of<K: OrderedKey, T>(entries: Seq<(K, T)>) -> Seq<K::V> {
    Seq::new(entries.len(), |i: int| entries[i].0@)
}

/// Whether a list holds each member of a set once, in order.
pub open spec fn in_order<K: OrderedKey>(list: Seq<K::V>, set: Set<K::V>) -> bool {
    &&& forall|i: int, j: int|
        #![trigger list[i], list[j]]
        0 <= i < j < list.len() ==> K::before(list[i], list[j])
    &&& forall|i: int| 0 <= i < list.len() ==> set.contains(#[trigger] list[i])
    &&& forall|k: K::V| #[trigger]
        set.contains(k) ==> exists|i: int| 0 <= i < list.len() && #[trigger] list[i] == k
}

/// The members of a finite set in order.
pub open spec fn ordered_list<K: OrderedKey>(set: Set<K::V>) -> Seq<K::V> {
    choose|list: Seq<K::V>| in_order::<K>(list, set)
}

/// There is one list of a set in order.
pub proof fn lemma_one_order<K: OrderedKey>(a: Seq<K::V>, b: Seq<K::V>, set: Set<K::V>)
    requires
        in_order::<K>(a, set),
        in_order::<K>(b, set),
    ensures
        a == b,
    decreases a.len(),
{
    if a.len() == 0 {
        if b.len() > 0 {
            assert(set.contains(b[0]));
        }
        assert(a =~= b);
    } else {
        assert(set.contains(a[0]));
        let p = a.len() - 1;
        let q = b.len() - 1;
        let i = choose|i: int| 0 <= i < b.len() && #[trigger] b[i] == a[p];
        assert(set.contains(a[p]));
        assert(set.contains(b[q]));
        let j = choose|j: int| 0 <= j < a.len() && #[trigger] a[j] == b[q];
        assert(a[p] == b[q]) by {
            if i < q && j < p {
                K::lemma_transitive(a[p], b[q], a[p]);
                K::lemma_irreflexive(a[p]);
            }
        }
        let last = a[p];
        lemma_without_last::<K>(a, set);
        lemma_without_last::<K>(b, set);
        lemma_one_order::<K>(a.drop_last(), b.drop_last(), set.remove(last));
        assert(a =~= a.drop_last().push(last));
        assert(b =~= b.drop_last().push(last));
    }
}

/// A list in order without its last member is the list of the set without that member.
proof fn lemma_without_last<K: OrderedKey>(list: Seq<K::V>, set: Set<K::V>)
    requires
        in_order::<K>(list, set),
        list.len() > 0,
    ensures
        in_order::<K>(list.drop_last(), set.remove(list.last())),
{
    let shorter = list.drop_last();
    let last = list.last();
    assert forall|i: int, j: int|
        #![trigger shorter[i], shorter[j]]
        0 <= i < j < shorter.len() implies K::before(shorter[i], shorter[j]) by {
        assert(K::before(list[i], list[j]));
    }
    assert forall|i: int| 0 <= i < shorter.len() implies set.remove(last).contains(
        #[trigger] shorter[i],
    ) by {
        assert(K::before(list[i], list[list.len() - 1]));
        K::lemma_irreflexive(last);
        assert(set.contains(list[i]));
    }
    assert forall|k: K::V| #[trigger] set.remove(last).contains(k) implies exists|i: int|
        0 <= i < shorter.len() && #[trigger] shorter[i] == k by {
        assert(set.contains(k));
        let i = choose|i: int| 0 <= i < list.len() && #[trigger] list[i] == k;
        assert(shorter[i] == k);
    }
}

/// The keys of a map's entries are its domain in order.
pub proof fn lemma_keys_in_order<K: OrderedKey, T>(entries: Seq<(K, T)>)
    requires
        increasing(entries),
    ensures
        in_order::<K>(keys_of(entries), map_of(entries).dom()),
        ordered_list::<K>(map_of(entries).dom()) == keys_of(entries),
{
    let list = keys_of(entries);
    let set = map_of(entries).dom();
    assert forall|i: int, j: int|
        #![trigger list[i], list[j]]
        0 <= i < j < list.len() implies K::before(list[i], list[j]) by {
        assert(K::before(entries[i].0@, entries[j].0@));
    }
    assert forall|i: int| 0 <= i < list.len() implies set.contains(#[trigger] list[i]) by {
        lemma_entry_in_map(entries, i);
    }
    assert forall|k: K::V| #[trigger] set.contains(k) implies exists|i: int|
        0 <= i < list.len() && #[trigger] list[i] == k by {
        let i = choose|i: int| 0 <= i < entries.len() && (#[trigger] entries[i]).0@ == k;
        assert(list[i] == k);
    }
    assert(in_order::<K>(list, set));
    lemma_one_order::<K>(ordered_list::<K>(set), list, set);
}

/// A set in order with one more member, which does not belong to it yet.
proof fn lemma_order_with<K: OrderedKey>(list: Seq<K::V>, set: Set<K::V>, key: K::V) -> (longer: Seq<
    K::V,
>)
    requires
        in_order::<K>(list, set),
        !set.contains(key),
    ensures
        in_order::<K>(longer, set.insert(key)),
        longer.len() == list.len() + 1,
    decreases list.len(),
{
    if list.len() == 0 {
        let longer = seq![key];
        assert(longer[0] == key);
        assert forall|k: K::V| #[trigger] set.insert(key).contains(k) implies exists|i: int|
            0 <= i < longer.len() && #[trigger] longer[i] == k by {
            if set.contains(k) {
                let i = choose|i: int| 0 <= i < list.len() && #[trigger] list[i] == k;
            }
            assert(longer[0] == k);
        }
        longer
    } else {
        let last = list.last();
        assert(set.contains(list[list.len() - 1]));
        K::lemma_total(last, key);
        let (rest, top, inner) = if K::before(last, key) {
            (list, key, set)
        } else {
            lemma_without_last::<K>(list, set);
            let rest = lemma_order_with::<K>(list.drop_last(), set.remove(last), key);
            (rest, last, set.remove(last).insert(key))
        };
        let longer = rest.push(top);
        assert(set.insert(key) =~= inner.insert(top));
        assert forall|i: int, j: int|
            #![trigger longer[i], longer[j]]
            0 <= i < j < longer.len() implies K::before(longer[i], longer[j]) by {
            if j < rest.len() {
                assert(K::before(rest[i], rest[j]));
            } else if K::before(last, key) {
                if i < list.len() - 1 {
                    assert(K::before(list[i], list[list.len() - 1]));
                    K::lemma_transitive(list[i], last, key);
                }
            } else {
                assert(inner.contains(rest[i]));
                if rest[i] != key {
                    let k = rest[i];
                    assert(set.contains(k));
                    let p = choose|p: int| 0 <= p < list.len() && #[trigger] list[p] == k;
                    assert(K::before(list[p], list[list.len() - 1]));
                }
            }
        }
        assert forall|i: int| 0 <= i < longer.len() implies set.insert(key).contains(
            #[trigger] longer[i],
        ) by {
            if i < rest.len() {
                assert(inner.contains(rest[i]));
            }
        }
        assert forall|k: K::V| #[trigger] set.insert(key).contains(k) implies exists|i: int|
            0 <= i < longer.len() && #[trigger] longer[i] == k by {
            if k == top {
                assert(longer[rest.len() as int] == k);
            } else {
                assert(inner.contains(k));
                let i = choose|i: int| 0 <= i < rest.len() && #[trigger] rest[i] == k;
                assert(longer[i] == k);
            }
        }
        longer
    }
}

/// Every finite set can be put in order.
pub proof fn lemma_order_exists<K: OrderedKey>(set: Set<K::V>)
    requires
        set.finite(),
    ensures
        in_order::<K>(ordered_list::<K>(set), set),
        ordered_list::<K>(set).len() == set.len(),
    decreases set.len(),
{
    if set.len() == 0 {
        assert(set =~= Set::empty());
        assert(in_order::<K>(Seq::empty(), set));
        lemma_one_order::<K>(ordered_list::<K>(set), Seq::empty(), set);
    } else {
        let key = set.choose();
        let smaller = set.remove(key);
        lemma_order_exists::<K>(smaller);
        let longer = lemma_order_with::<K>(ordered_list::<K>(smaller), smaller, key);
        assert(smaller.insert(key) =~= set);
        lemma_one_order::<K>(ordered_list::<K>(set), longer, set);
    }
}

/// A list has finitely many places.
proof fn lemma_placed_finite<K: OrderedKey>(keys: Seq<K::V>)
    requires
        keys.len() <= usize::MAX,
    ensures
        placed::<K>(keys).finite(),
        placed::<K>(keys).len() == keys.len(),
    decreases keys.len(),
{
    if keys.len() == 0 {
        assert(placed::<K>(keys) =~= Set::empty());
    } else {
        let shorter = keys.drop_last();
        lemma_placed_finite::<K>(shorter);
        let p = (keys.last(), (keys.len() - 1) as usize);
        assert(!placed::<K>(shorter).contains(p));
        assert(placed::<K>(keys) =~= placed::<K>(shorter).insert(p));
    }
}

/// Putting the places of a list in the order of its keys leaves out none and repeats none, puts no
/// key behind a later one, and keeps the order of equal keys.
pub proof fn law_places_are_in_order<K: OrderedKey>(keys: Seq<K::V>)
    requires
        keys.len() <= usize::MAX,
    ensures
        places_in_order::<K>(keys).len() == keys.len(),
        places_in_order::<K>(keys).no_duplicates(),
        forall|i: int|
            0 <= i < keys.len() ==> (#[trigger] places_in_order::<K>(keys)[i]) < keys.len(),
        forall|i: int, j: int|
            #![trigger places_in_order::<K>(keys)[i], places_in_order::<K>(keys)[j]]
            0 <= i < j < keys.len() ==> ({
                let p = places_in_order::<K>(keys)[i];
                let q = places_in_order::<K>(keys)[j];
                K::before(keys[p as int], keys[q as int]) || (keys[p as int] == keys[q as int] && p
                    < q)
            }),
{
    lemma_placed_finite::<K>(keys);
    let set = placed::<K>(keys);
    lemma_order_exists::<(K, usize)>(set);
    let list = ordered_list::<(K, usize)>(set);
    let places = places_in_order::<K>(keys);
    assert forall|i: int| 0 <= i < keys.len() implies (#[trigger] places[i]) < keys.len()
        && list[i] == (keys[places[i] as int], places[i]) by {
        assert(set.contains(list[i]));
    }
    assert forall|i: int, j: int|
        #![trigger places[i], places[j]]
        0 <= i < j < keys.len() implies places[i] != places[j] && (K::before(
        keys[places[i] as int],
        keys[places[j] as int],
    ) || (keys[places[i] as int] == keys[places[j] as int] && places[i] < places[j])) by {
        assert(<(K, usize) as OrderedKey>::before(list[i], list[j]));
        <(K, usize) as OrderedKey>::lemma_irreflexive(list[i]);
    }
}

/// The keys of a list, each with its place in it.
pub open spec fn placed<K: OrderedKey>(keys: Seq<K::V>) -> Set<(K::V, usize)> {
    Set::new(|p: (K::V, usize)| p.1 < keys.len() && p.0 == keys[p.1 as int])
}

/// The places of a list in the order of its keys; of equal keys, the first place comes first.
pub open spec fn places_in_order<K: OrderedKey>(keys: Seq<K::V>) -> Seq<usize> {
    ordered_list::<(K, usize)>(placed::<K>(keys)).map_values(|p: (K::V, usize)| p.1)
}

/// The rows at some places.
pub open spec fn rows_at<T>(rows: Seq<T>, places: Seq<usize>) -> Seq<T> {
    places.map_values(|place: usize| rows[place as int])
}

/// As many different places as there are leave out none.
proof fn lemma_last_place(places: Seq<usize>) -> (at: int)
    requires
        places.len() > 0,
        places.no_duplicates(),
        forall|i: int| 0 <= i < places.len() ==> (#[trigger] places[i]) < places.len(),
    ensures
        0 <= at < places.len(),
        places[at] == places.len() - 1,
{
    let n = places.len() as int;
    let numbers = places.map_values(|place: usize| place as int);
    if forall|i: int| 0 <= i < n ==> (#[trigger] places[i]) != n - 1 {
        let below = vstd::set_lib::set_int_range(0, n - 1);
        assert forall|i: int, j: int| 0 <= i < n && 0 <= j < n && i != j implies numbers[i]
            != numbers[j] by {
            assert(places[i] != places[j]);
        }
        numbers.unique_seq_to_set();
        assert forall|k: int| numbers.to_set().contains(k) implies below.contains(k) by {
            let i = choose|i: int| 0 <= i < n && numbers[i] == k;
            assert(places[i] < n && places[i] != n - 1);
        }
        vstd::set_lib::lemma_int_range(0, n - 1);
        vstd::set_lib::lemma_len_subset(numbers.to_set(), below);
    }
    choose|i: int| 0 <= i < n && #[trigger] places[i] == n - 1
}

/// Rows that are put in another order are the same rows, each as often as before.
pub proof fn law_another_order_keeps_all<T>(rows: Seq<T>, places: Seq<usize>)
    requires
        places.len() == rows.len(),
        places.no_duplicates(),
        forall|i: int| 0 <= i < places.len() ==> (#[trigger] places[i]) < rows.len(),
    ensures
        rows_at(rows, places).to_multiset() == rows.to_multiset(),
    decreases rows.len(),
{
    let moved = rows_at(rows, places);
    if rows.len() == 0 {
        assert(moved =~= rows);
    } else {
        let last = rows.len() - 1;
        let at = lemma_last_place(places);
        let others = places.remove(at);
        assert forall|i: int| 0 <= i < others.len() implies (#[trigger] others[i]) < last by {
            if i < at {
                assert(places[i] != places[at] && places[i] < rows.len());
            } else {
                assert(places[i + 1] != places[at] && places[i + 1] < rows.len());
            }
        }
        assert forall|i: int, j: int| 0 <= i < others.len() && 0 <= j < others.len() && i
            != j implies others[i] != others[j] by {
            let a = if i < at {
                i
            } else {
                i + 1
            };
            let b = if j < at {
                j
            } else {
                j + 1
            };
            assert(places[a] != places[b]);
        }
        law_another_order_keeps_all(rows.drop_last(), others);
        assert(moved.remove(at) =~= rows_at(rows.drop_last(), others));
        assert(moved[at] == rows.last());
        vstd::seq_lib::to_multiset_remove(moved, at);
        vstd::seq_lib::to_multiset_contains(moved, moved[at]);
        vstd::seq_lib::to_multiset_build(rows.drop_last(), rows.last());
        assert(rows.drop_last().push(rows.last()) =~= rows);
        assert(moved.to_multiset() =~= moved.remove(at).to_multiset().insert(moved[at]));
    }
}

/// Rows in the order of their keys; rows of one key stay in the order that they are in.
pub open spec fn by_key<K: OrderedKey, T>(rows: Seq<T>, key: spec_fn(T) -> K::V) -> Seq<T> {
    rows_at(rows, places_in_order::<K>(rows.map_values(key)))
}

/// Putting rows in the order of their keys leaves out none and repeats none, and puts no key behind
/// a later one.
pub proof fn law_rows_are_put_in_order<K: OrderedKey, T>(rows: Seq<T>, key: spec_fn(T) -> K::V)
    requires
        rows.len() <= usize::MAX,
    ensures
        by_key::<K, T>(rows, key).len() == rows.len(),
        by_key::<K, T>(rows, key).to_multiset() == rows.to_multiset(),
        forall|i: int, j: int|
            #![trigger by_key::<K, T>(rows, key)[i], by_key::<K, T>(rows, key)[j]]
            0 <= i < j < rows.len() ==> K::before(
                key(by_key::<K, T>(rows, key)[i]),
                key(by_key::<K, T>(rows, key)[j]),
            ) || key(by_key::<K, T>(rows, key)[i]) == key(by_key::<K, T>(rows, key)[j]),
{
    let keys = rows.map_values(key);
    law_places_are_in_order::<K>(keys);
    let places = places_in_order::<K>(keys);
    assert forall|i: int| 0 <= i < places.len() implies (#[trigger] places[i]) < rows.len() by {}
    law_another_order_keeps_all(rows, places);
    let sorted = by_key::<K, T>(rows, key);
    assert forall|i: int, j: int|
        #![trigger sorted[i], sorted[j]]
        0 <= i < j < rows.len() implies K::before(key(sorted[i]), key(sorted[j])) || key(sorted[i])
        == key(sorted[j]) by {
        let p = places[i];
        let q = places[j];
        assert(keys[p as int] == key(sorted[i]) && keys[q as int] == key(sorted[j]));
    }
}

/// Rows of different keys come out in one order, whatever order they are in.
pub proof fn law_first_order_does_not_matter<K: OrderedKey, T>(
    a: Seq<T>,
    b: Seq<T>,
    key: spec_fn(T) -> K::V,
)
    requires
        a.len() <= usize::MAX,
        a.to_multiset() == b.to_multiset(),
        forall|i: int, j: int|
            #![trigger a[i], a[j]]
            0 <= i < j < a.len() ==> key(a[i]) != key(a[j]),
    ensures
        by_key::<K, T>(a, key) == by_key::<K, T>(b, key),
{
    vstd::seq_lib::to_multiset_len(a);
    vstd::seq_lib::to_multiset_len(b);
    law_rows_are_put_in_order::<K, T>(a, key);
    law_rows_are_put_in_order::<K, T>(b, key);
    let sorted = by_key::<K, T>(a, key);
    let other = by_key::<K, T>(b, key);
    let set = Set::new(|k: K::V| exists|i: int| 0 <= i < a.len() && key(#[trigger] a[i]) == k);
    lemma_distinct_keys_in_order::<K, T>(a, sorted, key, set);
    lemma_distinct_keys_in_order::<K, T>(a, other, key, set);
    lemma_one_order::<K>(sorted.map_values(key), other.map_values(key), set);
    assert forall|i: int| 0 <= i < a.len() implies sorted[i] == other[i] by {
        vstd::seq_lib::to_multiset_contains(sorted, sorted[i]);
        vstd::seq_lib::to_multiset_contains(a, sorted[i]);
        vstd::seq_lib::to_multiset_contains(other, other[i]);
        vstd::seq_lib::to_multiset_contains(a, other[i]);
        let p = choose|p: int| 0 <= p < a.len() && a[p] == sorted[i];
        let q = choose|q: int| 0 <= q < a.len() && a[q] == other[i];
        assert(sorted.map_values(key)[i] == other.map_values(key)[i]);
    }
    assert(sorted =~= other);
}

/// The keys of rows in order, where no two rows have one, are the set of the keys in order.
proof fn lemma_distinct_keys_in_order<K: OrderedKey, T>(
    rows: Seq<T>,
    sorted: Seq<T>,
    key: spec_fn(T) -> K::V,
    set: Set<K::V>,
)
    requires
        sorted.to_multiset() == rows.to_multiset(),
        set == Set::new(
            |k: K::V| exists|i: int| 0 <= i < rows.len() && key(#[trigger] rows[i]) == k,
        ),
        forall|i: int, j: int|
            #![trigger rows[i], rows[j]]
            0 <= i < j < rows.len() ==> key(rows[i]) != key(rows[j]),
        forall|i: int, j: int|
            #![trigger sorted[i], sorted[j]]
            0 <= i < j < sorted.len() ==> K::before(key(sorted[i]), key(sorted[j])) || key(
                sorted[i],
            ) == key(sorted[j]),
    ensures
        in_order::<K>(sorted.map_values(key), set),
{
    let list = sorted.map_values(key);
    assert forall|i: int| 0 <= i < sorted.len() implies set.contains(#[trigger] list[i]) by {
        vstd::seq_lib::to_multiset_contains(sorted, sorted[i]);
        vstd::seq_lib::to_multiset_contains(rows, sorted[i]);
        let p = choose|p: int| 0 <= p < rows.len() && rows[p] == sorted[i];
        assert(key(rows[p]) == list[i]);
    }
    assert forall|k: K::V| #[trigger] set.contains(k) implies exists|i: int|
        0 <= i < list.len() && #[trigger] list[i] == k by {
        let p = choose|p: int| 0 <= p < rows.len() && key(#[trigger] rows[p]) == k;
        vstd::seq_lib::to_multiset_contains(rows, rows[p]);
        vstd::seq_lib::to_multiset_contains(sorted, rows[p]);
        let i = choose|i: int| 0 <= i < sorted.len() && sorted[i] == rows[p];
        assert(list[i] == k);
    }
    assert forall|i: int, j: int|
        #![trigger list[i], list[j]]
        0 <= i < j < list.len() implies K::before(list[i], list[j]) by {
        lemma_rows_differ::<K, T>(rows, sorted, key, i, j);
        assert(list[i] == key(sorted[i]) && list[j] == key(sorted[j]));
    }
}

/// Where no two rows have one key, no two have one in another order.
proof fn lemma_rows_differ<K: OrderedKey, T>(
    rows: Seq<T>,
    sorted: Seq<T>,
    key: spec_fn(T) -> K::V,
    i: int,
    j: int,
)
    requires
        sorted.to_multiset() == rows.to_multiset(),
        forall|i: int, j: int|
            #![trigger rows[i], rows[j]]
            0 <= i < j < rows.len() ==> key(rows[i]) != key(rows[j]),
        0 <= i < j < sorted.len(),
    ensures
        key(sorted[i]) != key(sorted[j]),
{
    vstd::seq_lib::to_multiset_contains(sorted, sorted[i]);
    vstd::seq_lib::to_multiset_contains(rows, sorted[i]);
    vstd::seq_lib::to_multiset_contains(sorted, sorted[j]);
    vstd::seq_lib::to_multiset_contains(rows, sorted[j]);
    let p = choose|p: int| 0 <= p < rows.len() && rows[p] == sorted[i];
    let q = choose|q: int| 0 <= q < rows.len() && rows[q] == sorted[j];
    if key(sorted[i]) == key(sorted[j]) {
        assert(p == q);
        let shorter = sorted.remove(i);
        let fewer = rows.remove(p);
        vstd::seq_lib::to_multiset_remove(sorted, i);
        vstd::seq_lib::to_multiset_remove(rows, p);
        assert(shorter[j - 1] == rows[p]);
        vstd::seq_lib::to_multiset_contains(shorter, rows[p]);
        vstd::seq_lib::to_multiset_contains(fewer, rows[p]);
        let r = choose|r: int| 0 <= r < fewer.len() && fewer[r] == rows[p];
        if r < p {
            assert(rows[r] == rows[p]);
        } else {
            assert(rows[r + 1] == rows[p]);
        }
    }
}

/// Maps that list the same keys with values that show the same are the same to who sees no more.
pub proof fn lemma_listed_like<K: OrderedKey, T, U>(
    a: SortedMap<K, T>,
    b: SortedMap<K, T>,
    shown: spec_fn(T) -> U,
)
    requires
        a.listed_like(b, shown),
        b.well_formed(),
    ensures
        a.well_formed(),
        a@.dom() == b@.dom(),
        forall|k: K::V| #[trigger] b@.dom().contains(k) ==> shown(a@[k]) == shown(b@[k]),
{
    let left = a.listing();
    let right = b.listing();
    assert forall|i: int, j: int|
        #![trigger left[i], left[j]]
        0 <= i < j < left.len() implies K::before(left[i].0@, left[j].0@) by {
        assert(K::before(right[i].0@, right[j].0@));
    }
    assert forall|k: K::V| a@.dom().contains(k) == b@.dom().contains(k) by {
        if a@.dom().contains(k) {
            let i = choose|i: int| 0 <= i < left.len() && (#[trigger] left[i]).0@ == k;
            assert(right[i].0@ == k);
        }
        if b@.dom().contains(k) {
            let i = choose|i: int| 0 <= i < right.len() && (#[trigger] right[i]).0@ == k;
            assert(left[i].0@ == k);
        }
    }
    assert(a@.dom() =~= b@.dom());
    assert forall|k: K::V| #[trigger] b@.dom().contains(k) implies shown(a@[k]) == shown(b@[k]) by {
        let i = choose|i: int| 0 <= i < right.len() && (#[trigger] right[i]).0@ == k;
        lemma_entry_in_map(right, i);
        lemma_entry_in_map(left, i);
        assert(left[i].0@ == k);
    }
}

/// A set of texts, copied.
pub fn copy_texts(texts: &SortedMap<String, ()>) -> (copy: SortedMap<String, ()>)
    ensures
        texts.well_formed() ==> copy.well_formed() && copy@.dom() == texts@.dom(),
{
    let copy_key = |key: &String| -> (r: String)
        ensures
            r@ == key@
    {
        key.clone()
    };
    let copy_value = |value: &()| -> (r: ()) { () };
    let copy = texts.copied_with::<bool, _, _>(copy_key, copy_value, Ghost(|value: ()| true));
    proof {
        if texts.well_formed() {
            lemma_listed_like(copy, *texts, |value: ()| true);
        }
    }
    copy
}

/// A set of pairs of texts, copied.
pub fn copy_pairs(pairs: &SortedMap<(String, String), ()>) -> (copy: SortedMap<
    (String, String),
    (),
>)
    ensures
        pairs.well_formed() ==> copy.well_formed() && copy@.dom() == pairs@.dom(),
{
    let copy_key = |key: &(String, String)| -> (r: (String, String))
        ensures
            r@ == key@
    {
        (key.0.clone(), key.1.clone())
    };
    let copy_value = |value: &()| -> (r: ()) { () };
    let copy = pairs.copied_with::<bool, _, _>(copy_key, copy_value, Ghost(|value: ()| true));
    proof {
        if pairs.well_formed() {
            lemma_listed_like(copy, *pairs, |value: ()| true);
        }
    }
    copy
}

/// The views of a run of keys.
pub open spec fn key_views<K: OrderedKey>(keys: Seq<K>) -> Seq<K::V> {
    Seq::new(keys.len(), |i: int| keys[i]@)
}

/// The places of a list in the order of its keys, which are given up for it.
pub fn sort_places_by<K: OrderedKey>(keys: Vec<K>) -> (places: Vec<usize>)
    ensures
        places@ == places_in_order::<K>(key_views(keys@)),
        places@.len() == keys@.len(),
        forall|i: int| 0 <= i < places@.len() ==> (#[trigger] places@[i]) < keys@.len(),
        places@.no_duplicates(),
{
    let mut sorted: SortedMap<(K, usize), ()> = SortedMap::new();
    let ghost given = keys@;
    let ghost views = key_views(given);
    let count: usize = keys.len();
    assert(sorted@.dom() =~= placed::<K>(views.take(0)));
    let mut i: usize = 0;
    for key in walk: keys
        invariant
            sorted.well_formed(),
            walk.seq() == given,
            i == walk.index(),
            given.len() == count,
            views == key_views(given),
            sorted@.dom() == placed::<K>(views.take(i as int)),
            sorted.listing().len() == i,
    {
        let ghost before = sorted@.dom();
        proof {
            lemma_listing_length(sorted.listing());
        }
        sorted.insert((key, i), ());
        proof {
            lemma_listing_length(sorted.listing());
            assert((key, i)@ == (key@, i));
            assert(!before.contains((key@, i)));
            assert(sorted@.dom() =~= before.insert((key@, i)));
            assert(sorted@.dom() =~= placed::<K>(views.take(i + 1)));
        }
        i = i + 1;
    }
    assert(views.take(given.len() as int) =~= views);
    let entries = sorted.entries();
    proof {
        lemma_keys_in_order(entries@);
    }
    let mut places: Vec<usize> = Vec::new();
    for i in 0..entries.len()
        invariant
            places@.len() == i,
            forall|j: int| 0 <= j < i ==> #[trigger] places@[j] == entries@[j].0.1,
    {
        places.push(entries[i].0.1);
    }
    proof {
        let list = keys_of(entries@);
        assert(places@ =~= list.map_values(|p: (K::V, usize)| p.1));
        assert forall|i: int| 0 <= i < places@.len() implies (#[trigger] places@[i]) < given.len()
            && list[i] == (views[places@[i] as int], places@[i]) by {
            assert(placed::<K>(views).contains(list[i]));
        }
        assert forall|i: int, j: int|
            0 <= i < places@.len() && 0 <= j < places@.len() && i != j implies places@[i]
            != places@[j] by {
            <(K, usize) as OrderedKey>::lemma_irreflexive(list[i]);
            if places@[i] == places@[j] {
                assert(list[i] == list[j]);
                if i < j {
                    assert(<(K, usize) as OrderedKey>::before(list[i], list[j]));
                } else {
                    assert(<(K, usize) as OrderedKey>::before(list[j], list[i]));
                }
            }
        }
    }
    places
}

/// The places of a list in the order of its keys.
pub fn sort_places<K: OrderedKey + Copy>(keys: &[K]) -> (places: Vec<usize>)
    ensures
        places@ == places_in_order::<K>(key_views(keys@)),
        places@.len() == keys@.len(),
        forall|i: int| 0 <= i < places@.len() ==> (#[trigger] places@[i]) < keys@.len(),
        places@.no_duplicates(),
{
    let mut copied: Vec<K> = Vec::new();
    for i in 0..keys.len()
        invariant
            copied@ == keys@.take(i as int),
    {
        copied.push(keys[i]);
    }
    assert(keys@.take(keys@.len() as int) =~= keys@);
    sort_places_by(copied)
}

/// The order of pairs of an age and a key.
pub open spec fn aged_before<K: OrderedKey>(a: (u64, K::V), b: (u64, K::V)) -> bool {
    a.0 < b.0 || (a.0 == b.0 && K::before(a.1, b.1))
}

/// Whether, of two keys of a map, the first is the older: by the age of what stands there, then by
/// the order of keys.
pub open spec fn older<K: OrderedKey, T>(
    m: Map<K::V, T>,
    age: spec_fn(T) -> u64,
    a: K::V,
    b: K::V,
) -> bool {
    aged_before::<K>((age(m[a]), a), (age(m[b]), b))
}

/// Whether `kept` is what is left of a map when the oldest are taken out until no more than
/// `maximum` are there.
pub open spec fn newest_kept<K: OrderedKey, T>(
    all: Map<K::V, T>,
    kept: Map<K::V, T>,
    maximum: nat,
    age: spec_fn(T) -> u64,
) -> bool {
    &&& kept.submap_of(all)
    &&& kept.dom().finite()
    &&& all.dom().len() <= maximum ==> kept == all
    &&& all.dom().len() > maximum ==> kept.dom().len() == maximum
    &&& forall|a: K::V, b: K::V|
        #![trigger all.dom().contains(a), kept.dom().contains(b)]
        all.dom().contains(a) && !kept.dom().contains(a) && kept.dom().contains(b) ==> older::<
            K,
            T,
        >(all, age, a, b)
}

/// Keeping what is not before the entry at the cut keeps the newest.
proof fn lemma_cut<K: OrderedKey, T>(
    entries: Seq<(K, T)>,
    sorted: Seq<((u64, K), ())>,
    age: spec_fn(T) -> u64,
    maximum: int,
    kept: Map<K::V, T>,
)
    requires
        increasing(entries),
        increasing(sorted),
        sorted.len() == entries.len(),
        0 < maximum < entries.len(),
        map_of(sorted).dom() == Set::new(
            |p: (u64, K::V)|
                exists|j: int|
                    0 <= j < entries.len() && p == (age((#[trigger] entries[j]).1), entries[j].0@),
        ),
        kept == map_of(entries).restrict(
            Set::new(
                |k: K::V|
                    !aged_before::<K>(
                        (age(map_of(entries)[k]), k),
                        sorted[sorted.len() - maximum].0@,
                    ),
            ),
        ),
    ensures
        newest_kept::<K, T>(map_of(entries), kept, maximum as nat, age),
{
    let all = map_of(entries);
    let m = entries.len() - maximum;
    let cut = sorted[m].0@;
    lemma_listing_length(entries);
    assert forall|k: K::V| #[trigger] all.dom().contains(k) implies exists|q: int|
        0 <= q < sorted.len() && (#[trigger] sorted[q]).0@ == (age(all[k]), k) by {
        let j = choose|j: int| 0 <= j < entries.len() && (#[trigger] entries[j]).0@ == k;
        lemma_entry_in_map(entries, j);
        assert(map_of(sorted).dom().contains((age(entries[j].1), entries[j].0@)));
    }
    assert forall|q: int| 0 <= q < sorted.len() implies all.dom().contains(
        (#[trigger] sorted[q]).0@.1,
    ) && age(all[sorted[q].0@.1]) == sorted[q].0@.0 by {
        lemma_entry_in_map(sorted, q);
        let p = sorted[q].0@;
        let j = choose|j: int|
            0 <= j < entries.len() && p == (age((#[trigger] entries[j]).1), entries[j].0@);
        lemma_entry_in_map(entries, j);
    }
    assert forall|q: int| 0 <= q < sorted.len() implies aged_before::<K>(
        (#[trigger] sorted[q]).0@,
        cut,
    ) == (q < m) by {
        K::lemma_irreflexive(cut.1);
        if q < m {
            assert(<(u64, K) as OrderedKey>::before(sorted[q].0@, sorted[m].0@));
        } else if q > m {
            assert(<(u64, K) as OrderedKey>::before(sorted[m].0@, sorted[q].0@));
            if aged_before::<K>(sorted[q].0@, cut) {
                <(u64, K) as OrderedKey>::lemma_transitive(sorted[q].0@, cut, sorted[q].0@);
                <(u64, K) as OrderedKey>::lemma_irreflexive(sorted[q].0@);
            }
        }
    }
    let keys = Seq::new(maximum as nat, |i: int| sorted[m + i].0@.1);
    assert(keys.no_duplicates()) by {
        assert forall|i: int, j: int|
            0 <= i < keys.len() && 0 <= j < keys.len() && i != j implies keys[i] != keys[j] by {
            let a = sorted[m + i].0@;
            let b = sorted[m + j].0@;
            if keys[i] == keys[j] {
                assert(a == b);
                <(u64, K) as OrderedKey>::lemma_irreflexive(a);
                if i < j {
                    assert(<(u64, K) as OrderedKey>::before(sorted[m + i].0@, sorted[m + j].0@));
                } else {
                    assert(<(u64, K) as OrderedKey>::before(sorted[m + j].0@, sorted[m + i].0@));
                }
            }
        }
    }
    keys.unique_seq_to_set();
    assert(keys.to_set() =~= kept.dom()) by {
        assert forall|k: K::V| #[trigger] kept.dom().contains(k) implies keys.contains(k) by {
            let q = choose|q: int|
                0 <= q < sorted.len() && (#[trigger] sorted[q]).0@ == (age(all[k]), k);
            assert(q >= m);
            assert(keys[q - m] == k);
        }
        assert forall|k: K::V| #[trigger] keys.contains(k) implies kept.dom().contains(k) by {
            let i = choose|i: int| 0 <= i < keys.len() && keys[i] == k;
            assert(sorted[m + i].0@.1 == k);
        }
    }
    assert forall|a: K::V, b: K::V|
        #![trigger all.dom().contains(a), kept.dom().contains(b)]
        all.dom().contains(a) && !kept.dom().contains(a) && kept.dom().contains(b) implies older::<
        K,
        T,
    >(all, age, a, b) by {
        let pa = (age(all[a]), a);
        let pb = (age(all[b]), b);
        K::lemma_total(b, cut.1);
        if pb != cut {
            <(u64, K) as OrderedKey>::lemma_transitive(pa, cut, pb);
        }
    }
}

impl<K: OrderedKey + Copy, T> SortedMap<K, T> {
    /// Takes out the oldest entries until no more than `maximum` are there.
    pub fn keep_newest<F: Fn(&T) -> u64>(
        &mut self,
        maximum: usize,
        age_of: F,
        Ghost(age): Ghost<spec_fn(T) -> u64>,
    )
        requires
            old(self).well_formed(),
            forall|t: &T| #[trigger] age_of.requires((t,)),
            forall|t: &T, r: u64| #[trigger] age_of.ensures((t,), r) ==> r == age(*t),
        ensures
            final(self).well_formed(),
            newest_kept::<K, T>(old(self)@, final(self)@, maximum as nat, age),
    {
        let n: usize = self.entries.len();
        proof {
            lemma_listing_length(self.entries@);
        }
        if n <= maximum {
            return;
        }
        let ghost all = self@;
        let ghost entries = self.entries@;
        let mut ages: SortedMap<(u64, K), ()> = SortedMap::new();
        let mut i: usize = 0;
        while i < n
            invariant
                n == self.entries@.len(),
                self.entries@ == entries,
                i <= n,
                ages.well_formed(),
                increasing(entries),
                forall|t: &T| #[trigger] age_of.requires((t,)),
                forall|t: &T, r: u64| #[trigger] age_of.ensures((t,), r) ==> r == age(*t),
                ages@.dom() == Set::new(
                    |p: (u64, K::V)|
                        exists|j: int|
                            0 <= j < i && p == (age((#[trigger] entries[j]).1), entries[j].0@),
                ),
                ages.listing().len() == i,
            decreases n - i,
        {
            let key: K = self.entries[i].0;
            let at: u64 = age_of(&self.entries[i].1);
            let ghost earlier = ages@.dom();
            proof {
                lemma_listing_length(ages.listing());
                if earlier.contains((at, key@)) {
                    let j = choose|j: int|
                        0 <= j < i && (at, key@) == (age((#[trigger] entries[j]).1), entries[j].0@);
                    K::lemma_irreflexive(key@);
                    assert(K::before(entries[j].0@, entries[i as int].0@));
                }
            }
            ages.insert((at, key), ());
            proof {
                assert((at, key)@ == (at, key@));
                lemma_listing_length(ages.listing());
                let now = Set::new(
                    |p: (u64, K::V)|
                        exists|j: int|
                            0 <= j < i + 1 && p == (age((#[trigger] entries[j]).1), entries[j].0@),
                );
                assert forall|p: (u64, K::V)| now.contains(p) == #[trigger] earlier.insert(
                    (at, key@),
                ).contains(p) by {
                    if p == (at, key@) {
                        assert(p == (age(entries[i as int].1), entries[i as int].0@));
                    }
                }
                assert(ages@.dom() =~= now);
            }
            i += 1;
        }
        let ghost sorted = ages.listing();
        if maximum == 0 {
            self.entries = Vec::new();
            assert(self@ =~= Map::<K::V, T>::empty());
            return;
        }
        let (oldest, key) = ages.entries()[n - maximum].0;
        let ghost cut: (u64, K::V) = (oldest, key@);
        assert(sorted[n - maximum].0@ == cut);
        let ghost kept = |k: K::V, t: T| !aged_before::<K>((age(t), k), cut);
        let keep = |k: &K, t: &T| -> (r: bool)
            ensures
                r == kept(k@, *t)
        {
            let at: u64 = age_of(t);
            !(at, *k).precedes(&(oldest, key))
        };
        self.retain(keep, Ghost(kept));
        proof {
            assert(self@ =~= all.restrict(
                Set::new(
                    |k: K::V|
                        !aged_before::<K>(
                            (age(all[k]), k),
                            sorted[sorted.len() - maximum].0@,
                        ),
                ),
            ));
            lemma_cut(entries, sorted, age, maximum as int, self@);
        }
    }
}

} // verus!
