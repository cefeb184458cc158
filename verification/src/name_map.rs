//! A map keyed by names, with insertion under the first free variation of a name.

use vstd::prelude::*;
use vstd::string::*;
use vstd::utf8::*;

use crate::text::{cat3, decimal, decimal_is_injective, decimal_of, lemma_decimal_ascii, same};

verus! {

/// A map from names to values. A name occurs at most once.
pub struct NameMap<V> {
    entries: Vec<(String, V)>,
}

/// Whether `key` occurs at position `i` of `keys`.
pub open spec fn key_at(keys: Seq<Seq<char>>, i: int, key: Seq<char>) -> bool {
    0 <= i < keys.len() && keys[i] == key
}

/// The `n`-th variation of a name: the name itself, then the name with `_2`, `_3` and so on
/// behind it.
pub open spec fn variation(name: Seq<char>, n: nat) -> Seq<char> {
    if n <= 1 {
        name
    } else {
        name + "_"@ + decimal(n)
    }
}

/// Whether `key` is the first variation of `name` that is not in `taken`.
pub open spec fn first_free(taken: Set<Seq<char>>, name: Seq<char>, key: Seq<char>) -> bool {
    exists|n: nat| first_free_at(taken, name, key, n)
}

/// Whether `key` is the `n`-th variation of `name`, free where all before it are taken.
pub open spec fn first_free_at(taken: Set<Seq<char>>, name: Seq<char>, key: Seq<char>, n: nat) -> bool {
    &&& n >= 1
    &&& key == variation(name, n)
    &&& !taken.contains(key)
    &&& forall|m: nat| 1 <= m < n ==> taken.contains(#[trigger] variation(name, m))
}

/// Different numbers give different variations of a name.
pub proof fn variations_differ(name: Seq<char>, m: nat, n: nat)
    requires
        1 <= m < n,
    ensures
        variation(name, m) != variation(name, n),
{
    reveal_strlit("_");
    if variation(name, m) == variation(name, n) {
        if m == 1 {
            assert(variation(name, n).len() > name.len());
        } else {
            let k = (name + "_"@).len() as int;
            assert(variation(name, m).skip(k) =~= decimal(m));
            assert(variation(name, n).skip(k) =~= decimal(n));
            decimal_is_injective(m, n);
        }
    }
}

/// The first free variation of a name is unique.
pub proof fn first_free_is_unique(taken: Set<Seq<char>>, name: Seq<char>, a: Seq<char>, b: Seq<char>)
    requires
        first_free(taken, name, a),
        first_free(taken, name, b),
    ensures
        a == b,
{
    let m = choose|m: nat| first_free_at(taken, name, a, m);
    let n = choose|n: nat| first_free_at(taken, name, b, n);
    if m < n {
        assert(taken.contains(variation(name, m)));
    } else if n < m {
        assert(taken.contains(variation(name, n)));
    }
}

/// A name that is free stays as it is.
pub proof fn free_name_is_kept(taken: Set<Seq<char>>, name: Seq<char>, key: Seq<char>)
    requires
        first_free(taken, name, key),
        !taken.contains(name),
    ensures
        key == name,
{
    assert(first_free_at(taken, name, name, 1));
    assert(first_free(taken, name, name));
    first_free_is_unique(taken, name, name, key);
}

/// A variation of a name is the name with an ASCII ending.
pub proof fn lemma_variation_extends(name: Seq<char>, n: nat) -> (ending: Seq<char>)
    ensures
        variation(name, n) == name + ending,
        is_ascii_chars(ending),
{
    reveal_strlit("_");
    if n <= 1 {
        assert(name + Seq::<char>::empty() =~= name);
        Seq::empty()
    } else {
        lemma_decimal_ascii(n);
        assert(variation(name, n) =~= name + ("_"@ + decimal(n)));
        "_"@ + decimal(n)
    }
}

/// Not all of the first `n` variations of a name are among fewer than `n` names.
proof fn lemma_variations_run_out(taken: Set<Seq<char>>, name: Seq<char>, n: nat)
    requires
        taken.finite(),
        forall|m: nat| 1 <= m <= n ==> taken.contains(#[trigger] variation(name, m)),
    ensures
        n <= taken.len(),
{
    let s = Seq::new(n, |i: int| variation(name, (i + 1) as nat));
    assert forall|i: int, j: int| 0 <= i < s.len() && 0 <= j < s.len() && i != j implies s[i]
        != s[j] by {
        if i < j {
            variations_differ(name, (i + 1) as nat, (j + 1) as nat);
        } else {
            variations_differ(name, (j + 1) as nat, (i + 1) as nat);
        }
    }
    s.unique_seq_to_set();
    assert(s.to_set().subset_of(taken)) by {
        assert forall|x: Seq<char>| s.to_set().contains(x) implies taken.contains(x) by {
            let i = choose|i: int| 0 <= i < s.len() && s[i] == x;
            assert(taken.contains(variation(name, (i + 1) as nat)));
        }
    }
    vstd::set_lib::lemma_len_subset(s.to_set(), taken);
}

/// However many names are taken, a name has a first free variation.
pub proof fn some_variation_is_free(taken: Set<Seq<char>>, name: Seq<char>)
    requires
        taken.finite(),
    ensures
        exists|key: Seq<char>| first_free(taken, name, key),
{
    lemma_free_from(taken, name, 1);
}

proof fn lemma_free_from(taken: Set<Seq<char>>, name: Seq<char>, n: nat)
    requires
        taken.finite(),
        n >= 1,
        forall|m: nat| 1 <= m < n ==> taken.contains(#[trigger] variation(name, m)),
    ensures
        exists|key: Seq<char>| first_free(taken, name, key),
    decreases taken.len() + 1 - n,
{
    let key = variation(name, n);
    if taken.contains(key) {
        lemma_variations_run_out(taken, name, n);
        lemma_free_from(taken, name, n + 1);
    } else {
        assert(first_free_at(taken, name, key, n));
        assert(first_free(taken, name, key));
    }
}

impl<V> NameMap<V> {
    /// The names, in the order in which they stand in the map.
    pub closed spec fn keys(self) -> Seq<Seq<char>> {
        self.entries@.map_values(|e: (String, V)| e.0@)
    }

    /// No name occurs twice.
    pub open spec fn wf(self) -> bool {
        self.keys().no_duplicates()
    }

    /// The value at a position.
    pub closed spec fn value_at(self, i: int) -> V {
        self.entries@[i].1
    }

    /// The position of a name.
    pub open spec fn position(self, key: Seq<char>) -> int {
        choose|i: int| key_at(self.keys(), i, key)
    }
}

impl<V> View for NameMap<V> {
    type V = Map<Seq<char>, V>;

    open spec fn view(&self) -> Map<Seq<char>, V> {
        Map::new(
            |k: Seq<char>| self.keys().contains(k),
            |k: Seq<char>| self.value_at(self.position(k)),
        )
    }
}

impl<V> NameMap<V> {
    /// What stands at a position is what the map holds under the name there.
    pub proof fn lemma_at(self, i: int)
        requires
            self.wf(),
            0 <= i < self.keys().len(),
        ensures
            self@.contains_key(self.keys()[i]),
            self@[self.keys()[i]] == self.value_at(i),
            self.position(self.keys()[i]) == i,
    {
        assert(key_at(self.keys(), i, self.keys()[i]));
    }

    /// The map has as many names as entries.
    pub proof fn lemma_len(self)
        requires
            self.wf(),
        ensures
            self@.dom() == self.keys().to_set(),
            self@.dom().finite(),
            self@.dom().len() == self.keys().len(),
    {
        assert(self@.dom() =~= self.keys().to_set());
        self.keys().unique_seq_to_set();
    }

    /// An empty map.
    pub fn new() -> (r: Self)
        ensures
            r.wf(),
            r@ == Map::<Seq<char>, V>::empty(),
            r.keys() == Seq::<Seq<char>>::empty(),
    {
        let r = NameMap { entries: Vec::new() };
        assert(r.keys() =~= Seq::empty());
        assert(r@ =~= Map::empty());
        r
    }

    fn find(&self, key: &str) -> (r: Option<usize>)
        requires
            self.wf(),
        ensures
            (match r {
                Some(i) => key_at(self.keys(), i as int, key@),
                None => !self.keys().contains(key@),
            }),
    {
        let mut i: usize = 0;
        while i < self.entries.len()
            invariant
                i <= self.entries@.len(),
                forall|j: int| 0 <= j < i ==> self.keys()[j] != key@,
            decreases self.entries@.len() - i,
        {
            if same(&self.entries[i].0, key) {
                return Some(i);
            }
            i = i + 1;
        }
        None
    }

    /// Whether a name is in the map.
    pub fn contains(&self, key: &str) -> (r: bool)
        requires
            self.wf(),
        ensures
            r == self@.contains_key(key@),
    {
        self.find(key).is_some()
    }

    /// The value under a name.
    pub fn get(&self, key: &str) -> (r: Option<&V>)
        requires
            self.wf(),
        ensures
            (match r {
                Some(v) => self@.contains_key(key@) && *v == self@[key@],
                None => !self@.contains_key(key@),
            }),
    {
        match self.find(key) {
            Some(i) => {
                proof {
                    self.lemma_at(i as int);
                }
                Some(&self.entries[i].1)
            },
            None => None,
        }
    }

    /// The value under a name, to be changed in place.
    pub fn get_mut(&mut self, key: &str) -> (r: Option<&mut V>)
        requires
            old(self).wf(),
        ensures
            (match r {
                Some(v) => {
                    &&& old(self)@.contains_key(key@)
                    &&& *v == old(self)@[key@]
                    &&& final(self)@ == old(self)@.insert(key@, *final(v))
                    &&& final(self).keys() == old(self).keys()
                    &&& final(self).wf()
                },
                None => !old(self)@.contains_key(key@) && *final(self) == *old(self),
            }),
    {
        match self.find(key) {
            Some(i) => {
                let ghost before = *self;
                proof {
                    before.lemma_at(i as int);
                    assert forall|after: NameMap<V>, value: V|
                        #![trigger after@, before@.insert(key@, value)]
                        after.entries@ == before.entries@.update(
                            i as int,
                            (before.entries@[i as int].0, value),
                        ) implies after.wf() && after.keys() == before.keys() && after@
                        == before@.insert(key@, value) by {
                        lemma_value_changed(before, after, i as int, value);
                    }
                }
                let entry = &mut self.entries[i];
                Some(&mut entry.1)
            },
            None => None,
        }
    }

    /// The names, in the order in which they stand in the map.
    pub fn names(&self) -> (r: Vec<String>)
        ensures
            crate::text::texts(r@) == self.keys(),
    {
        let mut r: Vec<String> = Vec::new();
        let mut i: usize = 0;
        while i < self.entries.len()
            invariant
                i <= self.entries@.len(),
                r@.len() == i,
                forall|j: int| 0 <= j < i ==> (#[trigger] r@[j])@ == self.keys()[j],
            decreases self.entries@.len() - i,
        {
            r.push(self.entries[i].0.clone());
            i = i + 1;
        }
        assert(crate::text::texts(r@) =~= self.keys());
        r
    }

    /// Puts a value under a name that is not in the map yet.
    fn add_entry(&mut self, key: String, value: V)
        requires
            old(self).wf(),
            !old(self)@.contains_key(key@),
        ensures
            final(self).wf(),
            final(self)@ == old(self)@.insert(key@, value),
            final(self).keys() == old(self).keys().push(key@),
    {
        let ghost before = *self;
        self.entries.push((key, value));
        proof {
            let after = *self;
            assert(after.keys() =~= before.keys().push(key@));
            assert(after.wf()) by {
                assert forall|i: int, j: int|
                    0 <= i < after.keys().len() && 0 <= j < after.keys().len() && i
                        != j implies after.keys()[i] != after.keys()[j] by {
                    if i < before.keys().len() && j < before.keys().len() {
                    } else if i < before.keys().len() {
                        assert(before.keys().contains(before.keys()[i]));
                    } else {
                        assert(before.keys().contains(before.keys()[j]));
                    }
                }
            }
            assert forall|k: Seq<char>| after@.contains_key(k) <==> before@.insert(
                key@,
                value,
            ).contains_key(k) by {
                if before.keys().contains(k) {
                    let i = choose|i: int| 0 <= i < before.keys().len() && before.keys()[i] == k;
                    assert(after.keys()[i] == k);
                }
                if k == key@ {
                    assert(after.keys()[before.keys().len() as int] == k);
                }
            }
            assert forall|k: Seq<char>| #[trigger] after@.contains_key(k) implies after@[k]
                == before@.insert(key@, value)[k] by {
                let i = choose|i: int| 0 <= i < after.keys().len() && after.keys()[i] == k;
                after.lemma_at(i);
                if i < before.keys().len() {
                    before.lemma_at(i);
                }
            }
            assert(after@ =~= before@.insert(key@, value));
        }
    }

    /// Puts a value under a name, in place of the one that may be there.
    pub fn insert(&mut self, key: String, value: V)
        requires
            old(self).wf(),
        ensures
            final(self).wf(),
            final(self)@ == old(self)@.insert(key@, value),
            old(self)@.contains_key(key@) ==> final(self).keys() == old(self).keys(),
            !old(self)@.contains_key(key@) ==> final(self).keys() == old(self).keys().push(key@),
    {
        match self.find(&key) {
            Some(i) => {
                let ghost before = *self;
                let ghost name = key@;
                self.entries.set(i, (key, value));
                proof {
                    let after = *self;
                    assert(after.keys() =~= before.keys());
                    assert forall|k: Seq<char>| #[trigger] after@.contains_key(k) implies after@[k]
                        == before@.insert(name, value)[k] by {
                        let j = choose|j: int| 0 <= j < after.keys().len() && after.keys()[j] == k;
                        after.lemma_at(j);
                        before.lemma_at(j);
                    }
                    assert(after@ =~= before@.insert(name, value));
                }
            },
            None => {
                self.add_entry(key, value);
            },
        }
    }

    /// Takes a name out of the map and gives back its value, where it was there.
    pub fn remove(&mut self, key: &str) -> (r: Option<V>)
        requires
            old(self).wf(),
        ensures
            final(self).wf(),
            final(self)@ == old(self)@.remove(key@),
            (match r {
                Some(v) => old(self)@.contains_key(key@) && v == old(self)@[key@],
                None => !old(self)@.contains_key(key@),
            }),
    {
        match self.find(key) {
            Some(i) => {
                let ghost before = *self;
                let (_, value) = self.entries.remove(i);
                proof {
                    let after = *self;
                    before.lemma_at(i as int);
                    assert(after.keys() =~= before.keys().remove(i as int));
                    assert(after.wf()) by {
                        before.keys().remove_ensures(i as int);
                    }
                    assert forall|k: Seq<char>| after@.contains_key(k) <==> before@.remove(
                        key@,
                    ).contains_key(k) by {
                        if before.keys().contains(k) && k != key@ {
                            let j = choose|j: int|
                                0 <= j < before.keys().len() && before.keys()[j] == k;
                            if j < i {
                                assert(after.keys()[j] == k);
                            } else {
                                assert(after.keys()[j - 1] == k);
                            }
                        }
                        if after.keys().contains(k) {
                            let j = choose|j: int| 0 <= j < after.keys().len() && after.keys()[j] == k;
                            if j < i {
                                assert(before.keys()[j] == k);
                            } else {
                                assert(before.keys()[j + 1] == k);
                            }
                        }
                    }
                    assert forall|k: Seq<char>| #[trigger] after@.contains_key(k) implies after@[k]
                        == before@.remove(key@)[k] by {
                        let j = choose|j: int| 0 <= j < after.keys().len() && after.keys()[j] == k;
                        after.lemma_at(j);
                        if j < i {
                            before.lemma_at(j);
                        } else {
                            before.lemma_at(j + 1);
                        }
                    }
                    assert(after@ =~= before@.remove(key@));
                }
                Some(value)
            },
            None => {
                assert(self@ =~= self@.remove(key@));
                None
            },
        }
    }

    /// Puts a value under the first variation of a name that is free, and gives back the name
    /// it stands under.
    pub fn insert_deduped(&mut self, orig_key: &str, value: V) -> (r: String)
        requires
            old(self).wf(),
        ensures
            final(self).wf(),
            first_free(old(self)@.dom(), orig_key@, r@),
            final(self)@ == old(self)@.insert(r@, value),
            final(self).keys() == old(self).keys().push(r@),
    {
        let ghost taken = self@.dom();
        let mut key: String = orig_key.to_owned();
        let mut count: u128 = 1;
        assert(self.keys().len() == self.entries.len());
        while self.contains(&key)
            invariant
                self.wf(),
                *self == *old(self),
                taken == self@.dom(),
                1 <= count <= self.keys().len() + 1,
                self.keys().len() <= u64::MAX,
                key@ == variation(orig_key@, count as nat),
                forall|m: nat| 1 <= m < count ==> taken.contains(#[trigger] variation(orig_key@, m)),
            decreases self.keys().len() + 2 - count,
        {
            proof {
                self.lemma_len();
                lemma_variations_run_out(taken, orig_key@, count as nat);
            }
            count = count + 1;
            key = cat3(orig_key, "_", &decimal_of(count));
        }
        assert(first_free_at(taken, orig_key@, key@, count as nat));
        let r = key.clone();
        self.add_entry(key, value);
        r
    }
}

/// Changing the value at one position changes the map under the name there and nowhere else.
proof fn lemma_value_changed<V>(before: NameMap<V>, after: NameMap<V>, i: int, value: V)
    requires
        before.wf(),
        0 <= i < before.keys().len(),
        after.entries@ == before.entries@.update(i, (before.entries@[i].0, value)),
    ensures
        after.wf(),
        after.keys() == before.keys(),
        after@ == before@.insert(before.keys()[i], value),
{
    let name = before.keys()[i];
    assert(after.keys() =~= before.keys());
    before.lemma_at(i);
    assert forall|k: Seq<char>| #[trigger] after@.contains_key(k) implies after@[k]
        == before@.insert(name, value)[k] by {
        let j = choose|j: int| 0 <= j < after.keys().len() && after.keys()[j] == k;
        after.lemma_at(j);
        before.lemma_at(j);
    }
    assert(after@ =~= before@.insert(name, value));
}

/// The variation of a name that comes in place `n`: the name itself, and from the second on the
/// name with an underscore and the number behind it.
pub proof fn variations_are_numbered(name: Seq<char>, n: nat)
    ensures
        variation(name, 1) == name,
        n >= 2 ==> variation(name, n) == name + seq!['_'] + decimal(n),
{
    reveal_strlit("_");
    assert("_"@ =~= seq!['_']);
}

/// Who asks for a name gets it where it is free. Where it is taken, and so are the variations
/// with the numbers from 2 up to `n`, but not the one with `n`, it is the one with `n`.
pub proof fn the_first_free_name_is_given(
    taken: Set<Seq<char>>,
    name: Seq<char>,
    key: Seq<char>,
    n: nat,
)
    requires
        first_free(taken, name, key),
    ensures
        !taken.contains(key),
        !taken.contains(name) ==> key == name,
        ({
            let numbered = |m: nat| name + seq!['_'] + decimal(m);
            taken.contains(name) && n >= 2 && !taken.contains(numbered(n)) && (forall|m: nat|
                2 <= m < n ==> taken.contains(#[trigger] numbered(m))) ==> key == numbered(n)
        }),
{
    if !taken.contains(name) {
        free_name_is_kept(taken, name, key);
    }
    let numbered = |m: nat| name + seq!['_'] + decimal(m);
    if taken.contains(name) && n >= 2 && !taken.contains(numbered(n)) && (forall|m: nat|
        2 <= m < n ==> taken.contains(#[trigger] numbered(m))) {
        variations_are_numbered(name, n);
        assert forall|m: nat| 1 <= m < n implies taken.contains(#[trigger] variation(name, m)) by {
            variations_are_numbered(name, m);
            if m >= 2 {
                assert(taken.contains(numbered(m)));
            }
        }
        assert(first_free_at(taken, name, variation(name, n), n));
        first_free_is_unique(taken, name, key, variation(name, n));
    }
}

} // verus!
