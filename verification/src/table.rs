//! Maps with text keys, kept as lists of entries in the order in which the keys came in.

use vstd::prelude::*;

use crate::strs::same;

verus! {

/// The value of the first entry under `k`.
pub open spec fn lookup<V>(m: Seq<(Seq<char>, V)>, k: Seq<char>) -> Option<V>
    decreases m.len(),
{
    if m.len() == 0 {
        None
    } else if m[0].0 == k {
        Some(m[0].1)
    } else {
        lookup(m.drop_first(), k)
    }
}

/// The entries with `v` under `k`: in the place of the first entry under `k`, or at the end.
pub open spec fn with_entry<V>(m: Seq<(Seq<char>, V)>, k: Seq<char>, v: V) -> Seq<(Seq<char>, V)>
    decreases m.len(),
{
    if m.len() == 0 {
        seq![(k, v)]
    } else if m[0].0 == k {
        seq![(k, v)] + m.drop_first()
    } else {
        seq![m[0]] + with_entry(m.drop_first(), k, v)
    }
}

/// The entries without those under `k`.
pub open spec fn without_entry<V>(m: Seq<(Seq<char>, V)>, k: Seq<char>) -> Seq<(Seq<char>, V)>
    decreases m.len(),
{
    if m.len() == 0 {
        m
    } else if m[0].0 == k {
        without_entry(m.drop_first(), k)
    } else {
        seq![m[0]] + without_entry(m.drop_first(), k)
    }
}

/// No key stands in two entries.
pub open spec fn keys_differ<V>(m: Seq<(Seq<char>, V)>) -> bool {
    forall|i: int, j: int| 0 <= i < j < m.len() ==> (#[trigger] m[i]).0 != (#[trigger] m[j]).0
}

/// What was put under a key is found under it, and nothing changes under another key.
pub proof fn with_entry_lookup<V>(m: Seq<(Seq<char>, V)>, k: Seq<char>, v: V, q: Seq<char>)
    ensures
        lookup(with_entry(m, k, v), q) == if q == k {
            Some(v)
        } else {
            lookup(m, q)
        },
    decreases m.len(),
{
    if m.len() == 0 {
        assert(seq![(k, v)].drop_first() == Seq::<(Seq<char>, V)>::empty());
        reveal_with_fuel(lookup, 2);
    } else if m[0].0 == k {
        assert((seq![(k, v)] + m.drop_first()).drop_first() == m.drop_first());
    } else {
        let rest = with_entry(m.drop_first(), k, v);
        with_entry_lookup(m.drop_first(), k, v, q);
        assert((seq![m[0]] + rest).drop_first() == rest);
    }
}

/// What was removed is not found, and nothing changes under another key.
pub proof fn without_entry_lookup<V>(m: Seq<(Seq<char>, V)>, k: Seq<char>, q: Seq<char>)
    ensures
        lookup(without_entry(m, k), q) == if q == k {
            None
        } else {
            lookup(m, q)
        },
    decreases m.len(),
{
    if m.len() > 0 {
        without_entry_lookup(m.drop_first(), k, q);
        if m[0].0 != k {
            let rest = without_entry(m.drop_first(), k);
            assert((seq![m[0]] + rest).drop_first() == rest);
        }
    }
}

/// A key that is found stands in an entry with the value found, and the other way round where no
/// key stands in two entries.
pub proof fn lookup_is_an_entry<V>(m: Seq<(Seq<char>, V)>, k: Seq<char>)
    ensures
        match lookup(m, k) {
            Some(v) => exists|i: int|
                0 <= i < m.len() && #[trigger] m[i] == (k, v) && forall|j: int|
                    0 <= j < i ==> (#[trigger] m[j]).0 != k,
            None => forall|i: int| 0 <= i < m.len() ==> (#[trigger] m[i]).0 != k,
        },
    decreases m.len(),
{
    if m.len() > 0 && m[0].0 != k {
        lookup_is_an_entry(m.drop_first(), k);
        match lookup(m, k) {
            Some(v) => {
                let i = choose|i: int|
                    0 <= i < m.drop_first().len() && #[trigger] m.drop_first()[i] == (k, v)
                        && forall|j: int| 0 <= j < i ==> (#[trigger] m.drop_first()[j]).0 != k;
                assert(m[i + 1] == (k, v));
                assert forall|j: int| 0 <= j < i + 1 implies (#[trigger] m[j]).0 != k by {
                    if j > 0 {
                        assert(m.drop_first()[j - 1] == m[j]);
                    }
                }
            },
            None => {
                assert forall|i: int| 0 <= i < m.len() implies (#[trigger] m[i]).0 != k by {
                    if i > 0 {
                        assert(m.drop_first()[i - 1] == m[i]);
                    }
                }
            },
        }
    } else if m.len() > 0 {
        assert(m[0] == (k, m[0].1));
    }
}

/// Where entry `i` is the first under `k`, it is what is found and what a new value replaces.
pub proof fn first_entry<V>(m: Seq<(Seq<char>, V)>, k: Seq<char>, i: int)
    requires
        0 <= i < m.len(),
        m[i].0 == k,
        forall|j: int| 0 <= j < i ==> (#[trigger] m[j]).0 != k,
    ensures
        lookup(m, k) == Some(m[i].1),
        forall|v: V| #[trigger] with_entry(m, k, v) == m.update(i, (k, v)),
    decreases m.len(),
{
    if i == 0 {
        assert forall|v: V| #[trigger] with_entry(m, k, v) == m.update(i, (k, v)) by {
            assert(seq![(k, v)] + m.drop_first() == m.update(0, (k, v)));
        }
    } else {
        assert(m[0].0 != k);
        assert forall|j: int| 0 <= j < i - 1 implies (#[trigger] m.drop_first()[j]).0 != k by {
            assert(m[j + 1].0 != k);
        }
        first_entry(m.drop_first(), k, i - 1);
        assert forall|v: V| #[trigger] with_entry(m, k, v) == m.update(i, (k, v)) by {
            assert(with_entry(m.drop_first(), k, v) == m.drop_first().update(i - 1, (k, v)));
            assert(seq![m[0]] + m.drop_first().update(i - 1, (k, v)) == m.update(i, (k, v)));
        }
    }
}

/// Where no entry stands under `k`, a new value comes at the end.
pub proof fn no_entry<V>(m: Seq<(Seq<char>, V)>, k: Seq<char>)
    requires
        forall|j: int| 0 <= j < m.len() ==> (#[trigger] m[j]).0 != k,
    ensures
        lookup(m, k) is None,
        forall|v: V| #[trigger] with_entry(m, k, v) == m.push((k, v)),
    decreases m.len(),
{
    if m.len() == 0 {
        assert forall|v: V| #[trigger] with_entry(m, k, v) == m.push((k, v)) by {
            assert(seq![(k, v)] == m.push((k, v)));
        }
    } else {
        assert(m[0].0 != k);
        assert forall|j: int| 0 <= j < m.len() - 1 implies (#[trigger] m.drop_first()[j]).0
            != k by {
            assert(m[j + 1].0 != k);
        }
        no_entry(m.drop_first(), k);
        assert forall|v: V| #[trigger] with_entry(m, k, v) == m.push((k, v)) by {
            assert(with_entry(m.drop_first(), k, v) == m.drop_first().push((k, v)));
            assert(seq![m[0]] + m.drop_first().push((k, v)) == m.push((k, v)));
        }
    }
}

/// Putting a value keeps the keys apart.
pub proof fn with_entry_keys_differ<V>(m: Seq<(Seq<char>, V)>, k: Seq<char>, v: V)
    requires
        keys_differ(m),
    ensures
        keys_differ(with_entry(m, k, v)),
{
    lookup_is_an_entry(m, k);
    match lookup(m, k) {
        Some(x) => {
            let i = choose|i: int|
                0 <= i < m.len() && #[trigger] m[i] == (k, x) && forall|j: int|
                    0 <= j < i ==> (#[trigger] m[j]).0 != k;
            first_entry(m, k, i);
            assert(with_entry(m, k, v) == m.update(i, (k, v)));
        },
        None => {
            no_entry(m, k);
            assert(with_entry(m, k, v) == m.push((k, v)));
        },
    }
}

/// The entries of a list with the contents of their keys.
pub open spec fn pairs<V>(es: Seq<(String, V)>) -> Seq<(Seq<char>, V)> {
    es.map_values(|e: (String, V)| (e.0@, e.1))
}

/// A map with text keys. No key stands in two entries.
pub struct Table<V> {
    entries: Vec<(String, V)>,
}

impl<V> View for Table<V> {
    type V = Seq<(Seq<char>, V)>;

    closed spec fn view(&self) -> Seq<(Seq<char>, V)> {
        pairs(self.entries@)
    }
}

impl<V> Table<V> {
    /// No key stands in two entries.
    #[verifier::type_invariant]
    pub open spec fn sound(self) -> bool {
        keys_differ(self@)
    }

    /// The map without entries.
    pub fn new() -> (r: Table<V>)
        ensures
            r@ == Seq::<(Seq<char>, V)>::empty(),
    {
        let entries: Vec<(String, V)> = Vec::new();
        assert(pairs(entries@) =~= Seq::<(Seq<char>, V)>::empty());
        Table { entries: entries }
    }

    /// The map with these entries.
    pub(crate) fn from_entries(entries: Vec<(String, V)>) -> (r: Table<V>)
        requires
            keys_differ(pairs(entries@)),
        ensures
            r@ == pairs(entries@),
    {
        Table { entries: entries }
    }

    /// The entries, in the order in which their keys came in.
    pub fn entries(&self) -> (r: &Vec<(String, V)>)
        ensures
            pairs(r@) == self@,
            keys_differ(self@),
    {
        proof {
            use_type_invariant(self);
        }
        &self.entries
    }

    /// The entries themselves, in the order in which their keys came in.
    pub fn into_entries(self) -> (r: Vec<(String, V)>)
        ensures
            pairs(r@) == self@,
            keys_differ(self@),
    {
        proof {
            use_type_invariant(&self);
        }
        self.entries
    }

    /// How many entries there are.
    pub fn len(&self) -> (r: usize)
        ensures
            r == self@.len(),
    {
        self.entries.len()
    }

    /// The position of the entry under `key`.
    pub fn position(&self, key: &str) -> (r: Option<usize>)
        ensures
            match r {
                Some(i) => i < self@.len() && self@[i as int].0 == key@ && lookup(self@, key@)
                    == Some(self@[i as int].1) && forall|j: int|
                    0 <= j < i ==> (#[trigger] self@[j]).0 != key@,
                None => lookup(self@, key@) is None && forall|j: int|
                    0 <= j < self@.len() ==> (#[trigger] self@[j]).0 != key@,
            },
    {
        let mut i: usize = 0;
        while i < self.entries.len()
            invariant
                i <= self.entries@.len(),
                forall|j: int| 0 <= j < i ==> (#[trigger] self@[j]).0 != key@,
            decreases self.entries@.len() - i,
        {
            assert(self@[i as int].0 == self.entries@[i as int].0@);
            if same(self.entries[i].0.as_str(), key) {
                proof {
                    first_entry(self@, key@, i as int);
                }
                return Some(i);
            }
            i = i + 1;
        }
        proof {
            no_entry(self@, key@);
        }
        None
    }

    /// Whether there is an entry under `key`.
    pub fn contains_key(&self, key: &str) -> (r: bool)
        ensures
            r == (lookup(self@, key@) is Some),
    {
        self.position(key).is_some()
    }

    /// The value under `key`.
    pub fn get<'a>(&'a self, key: &str) -> (r: Option<&'a V>)
        ensures
            match r {
                Some(v) => lookup(self@, key@) == Some(*v),
                None => lookup(self@, key@) is None,
            },
    {
        match self.position(key) {
            Some(i) => Some(&self.entries[i].1),
            None => None,
        }
    }

    /// Puts `value` under `key`.
    pub fn insert(&mut self, key: String, value: V)
        ensures
            final(self)@ == with_entry(old(self)@, key@, value),
    {
        let ghost before = self@;
        let p: Option<usize> = self.position(key.as_str());
        proof {
            use_type_invariant(&*self);
            with_entry_keys_differ(before, key@, value);
        }
        let mut all: Vec<(String, V)> = Vec::new();
        assert(pairs(all@) =~= Seq::<(Seq<char>, V)>::empty());
        std::mem::swap(&mut all, &mut self.entries);
        match p {
            Some(i) => {
                proof {
                    first_entry(before, key@, i as int);
                }
                all.set(i, (key, value));
                assert(pairs(all@) =~= before.update(i as int, (key@, value)));
            },
            None => {
                proof {
                    no_entry(before, key@);
                }
                all.push((key, value));
                assert(pairs(all@) =~= before.push((key@, value)));
            },
        }
        self.entries = all;
    }

    /// Removes what stands under `key` and returns the value that was found there.
    pub fn remove(&mut self, key: &str) -> (r: Option<V>)
        ensures
            r == lookup(old(self)@, key@),
            final(self)@ == without_entry(old(self)@, key@),
    {
        let ghost before = self@;
        let p: Option<usize> = self.position(key);
        proof {
            use_type_invariant(&*self);
        }
        match p {
            None => {
                proof {
                    no_entry_to_remove(before, key@);
                }
                None
            },
            Some(i) => {
                proof {
                    one_entry_to_remove(before, key@, i as int);
                }
                let mut all: Vec<(String, V)> = Vec::new();
                assert(pairs(all@) =~= Seq::<(Seq<char>, V)>::empty());
                std::mem::swap(&mut all, &mut self.entries);
                let e: (String, V) = all.remove(i);
                assert(pairs(all@) =~= before.remove(i as int));
                self.entries = all;
                Some(e.1)
            },
        }
    }

    /// Keeps the entries that `flags` marks.
    pub fn keep(&mut self, flags: &Vec<bool>)
        requires
            flags@.len() == old(self)@.len(),
        ensures
            final(self)@ == kept(old(self)@, flags@),
    {
        let ghost before = self@;
        proof {
            use_type_invariant(&*self);
            kept_keys_differ(before, flags@);
        }
        let mut all: Vec<(String, V)> = Vec::new();
        assert(pairs(all@) =~= Seq::<(Seq<char>, V)>::empty());
        std::mem::swap(&mut all, &mut self.entries);
        let mut out: Vec<(String, V)> = Vec::new();
        let n: usize = all.len();
        let mut i: usize = 0;
        proof {
            assert(pairs(all@) =~= before.skip(0));
            assert(pairs(out@) =~= Seq::<(Seq<char>, V)>::empty());
            assert(before.take(0) =~= Seq::<(Seq<char>, V)>::empty());
            assert(flags@.take(0) =~= Seq::<bool>::empty());
        }
        while i < n
            invariant
                i <= n,
                n == before.len(),
                n == flags@.len(),
                pairs(all@) == before.skip(i as int),
                pairs(out@) == kept(before.take(i as int), flags@.take(i as int)),
            decreases n - i,
        {
            let ghost out0 = out@;
            let ghost all0 = all@;
            assert(all@.len() == pairs(all@).len());
            let e: (String, V) = all.remove(0);
            proof {
                assert(pairs(all0)[0] == (e.0@, e.1));
                assert(pairs(all@) =~= pairs(all0).skip(1));
                assert(pairs(all@) =~= before.skip(i + 1));
                assert(before.take(i + 1).drop_last() == before.take(i as int));
                assert(flags@.take(i + 1).drop_last() == flags@.take(i as int));
            }
            if flags[i] {
                out.push(e);
                assert(pairs(out@) =~= pairs(out0).push((e.0@, e.1)));
            }
            i = i + 1;
        }
        proof {
            assert(before.take(n as int) == before);
            assert(flags@.take(n as int) == flags@);
        }
        self.entries = out;
    }
}

/// The marked entries.
pub open spec fn kept<V>(m: Seq<(Seq<char>, V)>, flags: Seq<bool>) -> Seq<(Seq<char>, V)>
    decreases m.len(),
{
    if m.len() == 0 {
        m
    } else if flags.last() {
        kept(m.drop_last(), flags.drop_last()).push(m.last())
    } else {
        kept(m.drop_last(), flags.drop_last())
    }
}

/// Keeping some of the entries keeps the keys apart.
pub proof fn kept_keys_differ<V>(m: Seq<(Seq<char>, V)>, flags: Seq<bool>)
    requires
        keys_differ(m),
        flags.len() == m.len(),
    ensures
        keys_differ(kept(m, flags)),
        forall|i: int| 0 <= i < kept(m, flags).len() ==> m.contains(#[trigger] kept(m, flags)[i]),
    decreases m.len(),
{
    if m.len() > 0 {
        let d = kept(m.drop_last(), flags.drop_last());
        kept_keys_differ(m.drop_last(), flags.drop_last());
        assert forall|i: int| 0 <= i < d.len() implies m.contains(#[trigger] d[i]) && d[i].0
            != m.last().0 by {
            let j = choose|j: int| 0 <= j < m.drop_last().len() && m.drop_last()[j] == d[i];
            assert(m[j] == d[i]);
            assert(m[j].0 != m[m.len() - 1].0);
        }
        assert forall|i: int| 0 <= i < kept(m, flags).len() implies m.contains(
            #[trigger] kept(m, flags)[i],
        ) by {
            if i < d.len() {
                assert(kept(m, flags)[i] == d[i]);
            } else {
                assert(kept(m, flags)[i] == m[m.len() - 1]);
            }
        }
    }
}

/// Where no entry stands under `k`, removing it changes nothing.
pub proof fn no_entry_to_remove<V>(m: Seq<(Seq<char>, V)>, k: Seq<char>)
    requires
        forall|j: int| 0 <= j < m.len() ==> (#[trigger] m[j]).0 != k,
    ensures
        without_entry(m, k) == m,
    decreases m.len(),
{
    if m.len() > 0 {
        assert(m[0].0 != k);
        assert forall|j: int| 0 <= j < m.len() - 1 implies (#[trigger] m.drop_first()[j]).0
            != k by {
            assert(m[j + 1].0 != k);
        }
        no_entry_to_remove(m.drop_first(), k);
        assert(seq![m[0]] + m.drop_first() =~= m);
    }
}

/// Where entry `i` is the one under `k`, removing what stands under `k` removes it.
pub proof fn one_entry_to_remove<V>(m: Seq<(Seq<char>, V)>, k: Seq<char>, i: int)
    requires
        0 <= i < m.len(),
        m[i].0 == k,
        keys_differ(m),
    ensures
        without_entry(m, k) == m.remove(i),
        keys_differ(m.remove(i)),
    decreases m.len(),
{
    let rest = m.drop_first();
    if i == 0 {
        assert forall|j: int| 0 <= j < rest.len() implies (#[trigger] rest[j]).0 != k by {
            assert(m[0].0 != m[j + 1].0);
        }
        no_entry_to_remove(rest, k);
        assert(m.remove(0) =~= rest);
    } else {
        assert(m[0].0 != m[i].0);
        assert(keys_differ(rest)) by {
            assert forall|a: int, b: int| 0 <= a < b < rest.len() implies (#[trigger] rest[a]).0
                != (#[trigger] rest[b]).0 by {
                assert(m[a + 1].0 != m[b + 1].0);
            }
        }
        one_entry_to_remove(rest, k, i - 1);
        assert(seq![m[0]] + rest.remove(i - 1) =~= m.remove(i));
    }
    assert forall|a: int, b: int| 0 <= a < b < m.remove(i).len() implies (#[trigger] m.remove(
        i,
    )[a]).0 != (#[trigger] m.remove(i)[b]).0 by {
        let x = if a < i {
            a
        } else {
            a + 1
        };
        let y = if b < i {
            b
        } else {
            b + 1
        };
        assert(m[x].0 != m[y].0);
    }
}

// ---------------------------------------------------------------------------------------------
// What the values hold
// ---------------------------------------------------------------------------------------------

/// The entries with what their values hold.
pub open spec fn held<V: DeepView>(m: Seq<(Seq<char>, V)>) -> Seq<(Seq<char>, V::V)> {
    m.map_values(|e: (Seq<char>, V)| (e.0, e.1.deep_view()))
}

/// Looking up and looking at what a value holds can change places.
pub proof fn held_lookup<V: DeepView>(m: Seq<(Seq<char>, V)>, k: Seq<char>)
    ensures
        lookup(held(m), k) == match lookup(m, k) {
            Some(v) => Some(v.deep_view()),
            None => None,
        },
    decreases m.len(),
{
    if m.len() > 0 {
        held_lookup(m.drop_first(), k);
        assert(held(m).drop_first() == held(m.drop_first()));
    }
}

/// Putting a value and looking at what values hold can change places.
pub proof fn held_with<V: DeepView>(m: Seq<(Seq<char>, V)>, k: Seq<char>, v: V)
    ensures
        held(with_entry(m, k, v)) == with_entry(held(m), k, v.deep_view()),
    decreases m.len(),
{
    if m.len() == 0 {
        assert(held(with_entry(m, k, v)) =~= seq![(k, v.deep_view())]);
    } else {
        held_with(m.drop_first(), k, v);
        assert(held(m).drop_first() == held(m.drop_first()));
        assert(held(with_entry(m, k, v)) =~= with_entry(held(m), k, v.deep_view()));
    }
}

/// Removing a value and looking at what values hold can change places.
pub proof fn held_without<V: DeepView>(m: Seq<(Seq<char>, V)>, k: Seq<char>)
    ensures
        held(without_entry(m, k)) == without_entry(held(m), k),
    decreases m.len(),
{
    if m.len() == 0 {
        assert(held(without_entry(m, k)) =~= without_entry(held(m), k));
    } else {
        held_without(m.drop_first(), k);
        assert(held(m).drop_first() == held(m.drop_first()));
        assert(held(without_entry(m, k)) =~= without_entry(held(m), k));
    }
}

/// Keeping some of the entries and looking at what values hold can change places.
pub proof fn held_kept<V: DeepView>(m: Seq<(Seq<char>, V)>, flags: Seq<bool>)
    ensures
        held(kept(m, flags)) == kept(held(m), flags),
    decreases m.len(),
{
    if m.len() == 0 {
        assert(held(kept(m, flags)) =~= kept(held(m), flags));
    } else {
        held_kept(m.drop_last(), flags.drop_last());
        assert(held(m).drop_last() == held(m.drop_last()));
        assert(held(kept(m, flags)) =~= kept(held(m), flags));
    }
}

/// The values do not matter to whether the keys differ.
pub proof fn held_keys_differ<V: DeepView>(m: Seq<(Seq<char>, V)>)
    requires
        keys_differ(m),
    ensures
        keys_differ(held(m)),
{
    assert forall|i: int, j: int| 0 <= i < j < held(m).len() implies (#[trigger] held(m)[i]).0 != (
    #[trigger] held(m)[j]).0 by {
        assert(m[i].0 != m[j].0);
    }
}

impl Table<String> {
    /// The entries with the contents of their values.
    pub open spec fn texts(&self) -> Seq<(Seq<char>, Seq<char>)> {
        held(self@)
    }

    /// The map from texts to texts without entries.
    pub fn new_texts() -> (r: Table<String>)
        ensures
            r.texts() == Seq::<(Seq<char>, Seq<char>)>::empty(),
    {
        let r: Table<String> = Table::new();
        assert(r.texts() =~= Seq::<(Seq<char>, Seq<char>)>::empty());
        r
    }

    /// The text under `key`.
    pub fn get_text<'a>(&'a self, key: &str) -> (r: Option<&'a str>)
        ensures
            r.deep_view() == lookup(self.texts(), key@),
    {
        proof {
            held_lookup(self@, key@);
        }
        match self.get(key) {
            Some(s) => Some(s.as_str()),
            None => None,
        }
    }

    /// Puts a text under `key`.
    pub fn put_text(&mut self, key: &str, value: &str)
        ensures
            final(self).texts() == with_entry(old(self).texts(), key@, value@),
    {
        let v: String = value.to_owned();
        proof {
            held_with(self@, key@, v);
        }
        self.insert(key.to_owned(), v);
    }

    /// Removes what stands under `key` and returns the text that was found there.
    pub fn take_text(&mut self, key: &str) -> (r: Option<String>)
        ensures
            r.deep_view() == lookup(old(self).texts(), key@),
            final(self).texts() == without_entry(old(self).texts(), key@),
    {
        proof {
            held_lookup(self@, key@);
            held_without(self@, key@);
        }
        self.remove(key)
    }
}

} // verus!
