//! Which Codex thread a chat session is bound to.

use vstd::prelude::*;

use crate::json::{object1, object2, push_field, Json, JsonV, Members};
use crate::table::{
    held, held_keys_differ, held_lookup, held_with, held_without, keys_differ, lookup, no_entry,
    pairs, with_entry, with_entry_keys_differ, with_entry_lookup, without_entry,
    without_entry_lookup, Table,
};

verus! {

/// A thread, and the directory in which it works.
#[derive(Debug)]
pub struct ThreadBinding {
    pub thread_id: String,
    pub cwd: String,
}

/// What a binding holds.
#[verifier::ext_equal]
pub struct BindingV {
    pub thread_id: Seq<char>,
    pub cwd: Seq<char>,
}

impl View for ThreadBinding {
    type V = BindingV;

    open spec fn view(&self) -> BindingV {
        BindingV { thread_id: self.thread_id@, cwd: self.cwd@ }
    }
}

impl DeepView for ThreadBinding {
    type V = BindingV;

    open spec fn deep_view(&self) -> BindingV {
        self@
    }
}

impl ThreadBinding {
    /// A copy of the binding.
    pub fn dup(&self) -> (r: ThreadBinding)
        ensures
            r@ == self@,
    {
        ThreadBinding { thread_id: self.thread_id.clone(), cwd: self.cwd.clone() }
    }
}

/// A binding as it is stored.
pub open spec fn binding_json(b: BindingV) -> JsonV {
    JsonV::Object(seq![("thread_id"@, JsonV::Str(b.thread_id)), ("cwd"@, JsonV::Str(b.cwd))])
}

/// A binding that was stored: it has a thread, and an empty directory where none is given.
pub open spec fn binding_of(v: JsonV) -> Option<BindingV> {
    match v {
        JsonV::Object(m) => match (lookup(m, "thread_id"@), lookup(m, "cwd"@)) {
            (Some(JsonV::Str(t)), Some(JsonV::Str(c))) => Some(BindingV { thread_id: t, cwd: c }),
            (Some(JsonV::Str(t)), None) => Some(BindingV { thread_id: t, cwd: Seq::empty() }),
            _ => None,
        },
        _ => None,
    }
}

/// The bindings as they are stored.
pub open spec fn bindings_json(m: Seq<(Seq<char>, BindingV)>) -> JsonV {
    JsonV::Object(
        seq![("sessions"@, JsonV::Object(
            m.map_values(|e: (Seq<char>, BindingV)| (e.0, binding_json(e.1))),
        ))],
    )
}

/// The bindings among the members of an object; none at all where one of them is no binding.
pub open spec fn bindings_among(m: Members) -> Option<Seq<(Seq<char>, BindingV)>>
    decreases m.len(),
{
    if m.len() == 0 {
        Some(Seq::empty())
    } else {
        match (bindings_among(m.drop_last()), binding_of(m.last().1)) {
            (Some(s), Some(b)) => Some(with_entry(s, m.last().0, b)),
            _ => None,
        }
    }
}

/// The bindings that were stored. What is not what a store writes holds none.
pub open spec fn bindings_in(v: JsonV) -> Seq<(Seq<char>, BindingV)> {
    match v {
        JsonV::Object(m) => match lookup(m, "sessions"@) {
            Some(JsonV::Object(s)) => match bindings_among(s) {
                Some(b) => b,
                None => Seq::empty(),
            },
            _ => Seq::empty(),
        },
        _ => Seq::empty(),
    }
}

fn read_binding(v: &Json) -> (r: Option<ThreadBinding>)
    ensures
        r.deep_view() == binding_of(v@),
{
    if v.as_object().is_none() {
        return None;
    }
    let thread_id: &str = match v.get("thread_id") {
        Some(t) => match t.as_str() {
            Some(t) => t,
            None => {
                return None;
            },
        },
        None => {
            return None;
        },
    };
    match v.get("cwd") {
        Some(c) => match c.as_str() {
            Some(c) => Some(ThreadBinding { thread_id: thread_id.to_owned(), cwd: c.to_owned() }),
            None => None,
        },
        None => Some(ThreadBinding { thread_id: thread_id.to_owned(), cwd: String::new() }),
    }
}

fn read_bindings(m: &Vec<(String, Json)>) -> (r: Option<BindingStore>)
    ensures
        bindings_among(m.deep_view()) == (match r {
            Some(s) => Some(s@),
            None => None,
        }),
{
    let ghost all = m.deep_view();
    let mut store: BindingStore = BindingStore::new();
    let mut i: usize = 0;
    assert(all.take(0) == Seq::<(Seq<char>, JsonV)>::empty());
    while i < m.len()
        invariant
            i <= m@.len(),
            all == m.deep_view(),
            bindings_among(all.take(i as int)) == Some(store@),
        decreases m@.len() - i,
    {
        let e: &(String, Json) = &m[i];
        proof {
            assert(all.take(i + 1).drop_last() == all.take(i as int));
            assert(all.take(i + 1).last() == (e.0@, e.1@));
        }
        match read_binding(&e.1) {
            Some(b) => {
                store.set(e.0.as_str(), b);
            },
            None => {
                proof {
                    no_bindings_stay_none(all, i + 1);
                }
                return None;
            },
        }
        i = i + 1;
    }
    assert(all.take(all.len() as int) == all);
    Some(store)
}

proof fn no_bindings_stay_none(m: Members, n: int)
    requires
        0 <= n <= m.len(),
        bindings_among(m.take(n)) is None,
    ensures
        bindings_among(m) is None,
    decreases m.len() - n,
{
    if n == m.len() {
        assert(m.take(n) == m);
    } else {
        assert(m.take(n + 1).drop_last() == m.take(n));
        no_bindings_stay_none(m, n + 1);
    }
}

/// The bindings of all sessions.
pub struct BindingStore {
    pub sessions: Table<ThreadBinding>,
}

impl View for BindingStore {
    type V = Seq<(Seq<char>, BindingV)>;

    open spec fn view(&self) -> Seq<(Seq<char>, BindingV)> {
        held(self.sessions@)
    }
}

impl BindingStore {
    /// No session is bound.
    pub fn new() -> (r: BindingStore)
        ensures
            r@ == Seq::<(Seq<char>, BindingV)>::empty(),
    {
        let r: BindingStore = BindingStore { sessions: Table::new() };
        assert(r@ =~= Seq::<(Seq<char>, BindingV)>::empty());
        r
    }

    /// The bindings that were stored. What is not what a store writes holds none.
    pub fn from_json(v: &Json) -> (r: BindingStore)
        ensures
            r@ == bindings_in(v@),
    {
        if v.as_object().is_some() {
            if let Some(sessions) = v.get("sessions") {
                if let Some(m) = sessions.as_object() {
                    if let Some(store) = read_bindings(m) {
                        return store;
                    }
                }
            }
        }
        BindingStore::new()
    }

    /// The bindings as they are stored. Loaded again, they are the same.
    pub fn to_json(&self) -> (r: Json)
        ensures
            r@ == bindings_json(self@),
            bindings_in(r@) == self@,
    {
        let ghost all = self@;
        let ghost f = |e: (Seq<char>, BindingV)| (e.0, binding_json(e.1));
        let mut m: Vec<(String, Json)> = Vec::new();
        let mut i: usize = 0;
        let es: &Vec<(String, ThreadBinding)> = self.sessions.entries();
        assert(m.deep_view() =~= all.take(0).map_values(f));
        while i < es.len()
            invariant
                i <= es@.len(),
                pairs(es@) == self.sessions@,
                all == self@,
                f == |e: (Seq<char>, BindingV)| (e.0, binding_json(e.1)),
                m.deep_view() == all.take(i as int).map_values(f),
            decreases es@.len() - i,
        {
            let e: &(String, ThreadBinding) = &es[i];
            assert(all[i as int] == (e.0@, e.1@));
            let b: Json = object2(
                "thread_id",
                Json::text(e.1.thread_id.as_str()),
                "cwd",
                Json::text(e.1.cwd.as_str()),
            );
            push_field(&mut m, e.0.as_str(), b);
            assert(m.deep_view() =~= all.take(i + 1).map_values(f));
            i = i + 1;
        }
        proof {
            assert(all.take(all.len() as int) == all);
            held_keys_differ(self.sessions@);
            bindings_read_back(self@);
        }
        object1("sessions", Json::object(m))
    }

    /// The binding of a session.
    pub fn get(&self, im_session_id: &str) -> (r: Option<ThreadBinding>)
        ensures
            r.deep_view() == lookup(self@, im_session_id@),
    {
        proof {
            held_lookup(self.sessions@, im_session_id@);
        }
        match self.sessions.get(im_session_id) {
            Some(b) => Some(b.dup()),
            None => None,
        }
    }

    /// Binds a session.
    pub fn set(&mut self, im_session_id: &str, binding: ThreadBinding)
        ensures
            final(self)@ == with_entry(old(self)@, im_session_id@, binding@),
    {
        proof {
            held_with(self.sessions@, im_session_id@, binding);
        }
        self.sessions.insert(im_session_id.to_owned(), binding);
    }

    /// Unbinds a session.
    pub fn clear(&mut self, im_session_id: &str)
        ensures
            final(self)@ == without_entry(old(self)@, im_session_id@),
    {
        proof {
            held_without(self.sessions@, im_session_id@);
        }
        let _ = self.sessions.remove(im_session_id);
    }
}

/// A session that was bound is bound to that thread, and the other sessions are as before.
pub proof fn bound_after_set(
    m: Seq<(Seq<char>, BindingV)>,
    session: Seq<char>,
    b: BindingV,
    other: Seq<char>,
)
    requires
        other != session,
    ensures
        lookup(with_entry(m, session, b), session) == Some(b),
        lookup(with_entry(m, session, b), other) == lookup(m, other),
{
    with_entry_lookup(m, session, b, session);
    with_entry_lookup(m, session, b, other);
}

/// A session that was cleared is not bound, and the other sessions are as before.
pub proof fn unbound_after_clear(
    m: Seq<(Seq<char>, BindingV)>,
    session: Seq<char>,
    other: Seq<char>,
)
    requires
        other != session,
    ensures
        lookup(without_entry(m, session), session) is None,
        lookup(without_entry(m, session), other) == lookup(m, other),
{
    without_entry_lookup(m, session, session);
    without_entry_lookup(m, session, other);
}

proof fn binding_reads_back(b: BindingV)
    ensures
        binding_of(binding_json(b)) == Some(b),
{
    let m = seq![("thread_id"@, JsonV::Str(b.thread_id)), ("cwd"@, JsonV::Str(b.cwd))];
    reveal_strlit("thread_id");
    reveal_strlit("cwd");
    assert("thread_id"@.len() != "cwd"@.len());
    reveal_with_fuel(lookup, 3);
    assert(m.drop_first()[0] == ("cwd"@, JsonV::Str(b.cwd)));
}

proof fn sessions_read_back(m: Seq<(Seq<char>, BindingV)>)
    requires
        keys_differ(m),
    ensures
        bindings_among(m.map_values(|e: (Seq<char>, BindingV)| (e.0, binding_json(e.1)))) == Some(m),
    decreases m.len(),
{
    let f = |e: (Seq<char>, BindingV)| (e.0, binding_json(e.1));
    if m.len() > 0 {
        let less = m.drop_last();
        assert(m.map_values(f).drop_last() =~= less.map_values(f));
        assert forall|i: int, j: int| 0 <= i < j < less.len() implies (#[trigger] less[i]).0 != (
        #[trigger] less[j]).0 by {
            assert(m[i].0 != m[j].0);
        }
        sessions_read_back(less);
        binding_reads_back(m.last().1);
        assert forall|j: int| 0 <= j < less.len() implies (#[trigger] less[j]).0 != m.last().0 by {
            assert(m[j].0 != m[m.len() - 1].0);
        }
        no_entry(less, m.last().0);
        assert(less.push(m.last()) =~= m);
    }
}

/// A store that was stored and loaded again is the same.
pub proof fn bindings_read_back(m: Seq<(Seq<char>, BindingV)>)
    requires
        keys_differ(m),
    ensures
        bindings_in(bindings_json(m)) == m,
{
    sessions_read_back(m);
    let s = JsonV::Object(m.map_values(|e: (Seq<char>, BindingV)| (e.0, binding_json(e.1))));
    assert(seq![("sessions"@, s)][0] == ("sessions"@, s));
}

/// What a session is bound to after loading is what is stored under it, in whatever order the
/// sessions are stored.
pub proof fn order_of_sessions_is_free(m: Members, session: Seq<char>)
    requires
        keys_differ(m),
        bindings_among(m) is Some,
    ensures
        lookup(bindings_among(m)->0, session) == match lookup(m, session) {
            Some(v) => binding_of(v),
            None => None,
        },
    decreases m.len(),
{
    if m.len() > 0 {
        let less = m.drop_last();
        let (k, v) = m.last();
        assert forall|i: int, j: int| 0 <= i < j < less.len() implies (#[trigger] less[i]).0 != (
        #[trigger] less[j]).0 by {
            assert(m[i].0 != m[j].0);
        }
        order_of_sessions_is_free(less, session);
        with_entry_lookup(bindings_among(less)->0, k, binding_of(v)->0, session);
        assert forall|j: int| 0 <= j < less.len() implies (#[trigger] less[j]).0 != k by {
            assert(m[j].0 != m[m.len() - 1].0);
        }
        no_entry(less, k);
        assert(with_entry(less, k, v) == less.push((k, v)));
        assert(less.push((k, v)) =~= m);
        with_entry_lookup(less, k, v, session);
    }
}

/// A session that was bound is bound to that thread after the store was stored and loaded again, and
/// the other sessions are as before.
pub proof fn binding_survives_loading(
    m: Seq<(Seq<char>, BindingV)>,
    session: Seq<char>,
    b: BindingV,
    other: Seq<char>,
)
    requires
        keys_differ(m),
        other != session,
    ensures
        lookup(bindings_in(bindings_json(with_entry(m, session, b))), session) == Some(b),
        lookup(bindings_in(bindings_json(with_entry(m, session, b))), other) == lookup(m, other),
{
    with_entry_keys_differ(m, session, b);
    bindings_read_back(with_entry(m, session, b));
    bound_after_set(m, session, b, other);
}

} // verus!
