//! The runners of a channel, one for each account that runs.

use vstd::prelude::*;

use crate::json::{Json, JsonV};
use crate::strs::{same, texts, texts_push};
use crate::table::{held_kept, kept, lookup, pairs, Table};

verus! {

/// The keys of entries, in order.
pub open spec fn keys<V>(m: Seq<(Seq<char>, V)>) -> Seq<Seq<char>> {
    m.map_values(|e: (Seq<char>, V)| e.0)
}

/// Those of the runners whose account is not in use.
pub open spec fn stale(runners: Seq<(Seq<char>, Seq<char>)>, active: Seq<Seq<char>>) -> Seq<Seq<char>>
    decreases runners.len(),
{
    if runners.len() == 0 {
        Seq::empty()
    } else if active.contains(runners.last().0) {
        stale(runners.drop_last(), active)
    } else {
        stale(runners.drop_last(), active).push(runners.last().0)
    }
}

/// Those of the runners whose account is in use.
pub open spec fn in_use(runners: Seq<(Seq<char>, Seq<char>)>, active: Seq<Seq<char>>) -> Seq<
    (Seq<char>, Seq<char>),
>
    decreases runners.len(),
{
    if runners.len() == 0 {
        Seq::empty()
    } else if active.contains(runners.last().0) {
        in_use(runners.drop_last(), active).push(runners.last())
    } else {
        in_use(runners.drop_last(), active)
    }
}

/// Whether a text is in a list.
pub fn lists(list: &Vec<String>, id: &str) -> (r: bool)
    ensures
        r == texts(list@).contains(id@),
{
    let ghost all = texts(list@);
    let mut i: usize = 0;
    while i < list.len()
        invariant
            i <= list@.len(),
            all == texts(list@),
            forall|k: int| 0 <= k < i ==> #[trigger] all[k] != id@,
        decreases list@.len() - i,
    {
        assert(all[i as int] == list@[i as int]@);
        if same(list[i].as_str(), id) {
            assert(all.contains(id@));
            return true;
        }
        i = i + 1;
    }
    false
}

/// Forgets the runners whose account is not in use: those that are to be stopped.
pub fn prune(runners: &mut Table<String>, active: &Vec<String>) -> (r: Vec<String>)
    ensures
        texts(r@) == stale(old(runners).texts(), texts(active@)),
        final(runners).texts() == in_use(old(runners).texts(), texts(active@)),
{
    let ghost all = runners.texts();
    let ghost on = texts(active@);
    let mut gone: Vec<String> = Vec::new();
    let mut flags: Vec<bool> = Vec::new();
    let mut i: usize = 0;
    assert(all.take(0) == Seq::<(Seq<char>, Seq<char>)>::empty());
    assert(texts(gone@) =~= Seq::<Seq<char>>::empty());
    let es: &Vec<(String, String)> = runners.entries();
    while i < es.len()
        invariant
            i <= es@.len(),
            pairs(es@) == runners@,
            all == runners.texts(),
            on == texts(active@),
            texts(gone@) == stale(all.take(i as int), on),
            flags@.len() == i,
            kept(all.take(i as int), flags@) == in_use(all.take(i as int), on),
        decreases es@.len() - i,
    {
        let e: &(String, String) = &es[i];
        let ghost before = flags@;
        let runs: bool = lists(active, e.0.as_str());
        flags.push(runs);
        proof {
            assert(all.take(i + 1).drop_last() == all.take(i as int));
            assert(all.take(i + 1).last() == (e.0@, e.1@));
            assert(flags@.drop_last() == before);
        }
        if !runs {
            let ghost before = gone@;
            let own: String = e.0.clone();
            gone.push(own);
            proof {
                texts_push(before, own);
            }
        }
        i = i + 1;
    }
    proof {
        assert(all.take(all.len() as int) == all);
        held_kept(runners@, flags@);
    }
    runners.keep(&flags);
    gone
}

/// The accounts that run.
pub fn running(runners: &Table<String>) -> (r: Vec<String>)
    ensures
        texts(r@) == keys(runners.texts()),
{
    let ghost all = keys(runners.texts());
    let mut out: Vec<String> = Vec::new();
    let mut i: usize = 0;
    assert(texts(out@) =~= all.take(0));
    let es: &Vec<(String, String)> = runners.entries();
    while i < es.len()
        invariant
            i <= es@.len(),
            pairs(es@) == runners@,
            all == keys(runners.texts()),
            texts(out@) == all.take(i as int),
        decreases es@.len() - i,
    {
        let ghost before = out@;
        let own: String = es[i].0.clone();
        out.push(own);
        proof {
            texts_push(before, own);
            assert(all[i as int] == own@);
            assert(all.take(i + 1) =~= all.take(i as int).push(all[i as int]));
        }
        i = i + 1;
    }
    assert(all.take(all.len() as int) == all);
    out
}

/// After the runners without an account in use are forgotten, every runner has one, and no runner
/// that has one is forgotten.
pub proof fn pruned_runners_are_in_use(
    runners: Seq<(Seq<char>, Seq<char>)>,
    active: Seq<Seq<char>>,
    id: Seq<char>,
)
    ensures
        lookup(in_use(runners, active), id) is Some <==> active.contains(id) && lookup(
            runners,
            id,
        ) is Some,
        stale(runners, active).contains(id) <==> !active.contains(id) && lookup(runners, id) is Some,
    decreases runners.len(),
{
    if runners.len() > 0 {
        let rest = runners.drop_last();
        let e = runners.last();
        pruned_runners_are_in_use(rest, active, id);
        assert(runners =~= rest.push(e));
        lookup_push(rest, e, id);
        if active.contains(e.0) {
            lookup_push(in_use(rest, active), e, id);
        } else {
            let s = stale(rest, active);
            assert(s.push(e.0).contains(id) <==> s.contains(id) || e.0 == id) by {
                if s.contains(id) {
                    let i = choose|i: int| 0 <= i < s.len() && s[i] == id;
                    assert(s.push(e.0)[i] == id);
                }
                if e.0 == id {
                    assert(s.push(e.0)[s.len() as int] == id);
                }
            }
        }
    }
}

proof fn lookup_push(m: Seq<(Seq<char>, Seq<char>)>, e: (Seq<char>, Seq<char>), id: Seq<char>)
    ensures
        lookup(m.push(e), id) is Some <==> lookup(m, id) is Some || e.0 == id,
    decreases m.len(),
{
    if m.len() > 0 {
        lookup_push(m.drop_first(), e, id);
        assert(m.push(e).drop_first() =~= m.drop_first().push(e));
    } else {
        assert(m.push(e).drop_first().len() == 0);
        reveal_with_fuel(lookup, 2);
    }
}

/// A text that may be missing.
pub open spec fn text_or_null(t: Option<Seq<char>>) -> JsonV {
    match t {
        Some(s) => JsonV::Str(s),
        None => JsonV::Null,
    }
}

/// A text that may be missing.
pub fn text_to_json(t: Option<&str>) -> (r: Json)
    ensures
        r@ == text_or_null(t.deep_view()),
{
    match t {
        Some(s) => Json::text(s),
        None => Json::Null,
    }
}

} // verus!
