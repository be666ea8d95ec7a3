//! Parts that wait until there is something to say about them.

use vstd::prelude::*;

use crate::strs::{trim, trimmed};
use crate::table::{
    held, held_lookup, held_with, held_without, lookup, with_entry, with_entry_lookup,
    without_entry, without_entry_lookup, Table,
};
use crate::types::{dup_parts, ChannelPart, PartKind, PartV};

verus! {

/// The parts that wait, by session.
pub struct MediaDebounce {
    pub pending: Table<Vec<ChannelPart>>,
}

impl View for MediaDebounce {
    type V = Seq<(Seq<char>, Seq<PartV>)>;

    open spec fn view(&self) -> Seq<(Seq<char>, Seq<PartV>)> {
        held(self.pending@)
    }
}

impl Default for MediaDebounce {
    fn default() -> (r: Self)
        ensures
            r@ == Seq::<(Seq<char>, Seq<PartV>)>::empty(),
    {
        let r: MediaDebounce = MediaDebounce { pending: Table::new() };
        assert(r@ =~= Seq::<(Seq<char>, Seq<PartV>)>::empty());
        r
    }
}

/// Whether a part is a text that is not blank.
pub open spec fn is_said(p: PartV) -> bool {
    p.kind == PartKind::Text && trimmed(p.text).len() > 0
}

/// Whether a part is a picture, a video, a file or a sound.
pub open spec fn is_media(p: PartV) -> bool {
    p.kind == PartKind::Image || p.kind == PartKind::Video || p.kind == PartKind::File || p.kind
        == PartKind::Audio
}

/// Whether the parts of a message are to be handed on at once.
pub open spec fn speaks(parts: Seq<PartV>) -> bool {
    exists|i: int| 0 <= i < parts.len() && (is_said(#[trigger] parts[i]) || is_media(parts[i]))
}

/// The parts of a session that wait.
pub open spec fn waiting(m: Seq<(Seq<char>, Seq<PartV>)>, session: Seq<char>) -> Seq<PartV> {
    match lookup(m, session) {
        Some(p) => p,
        None => Seq::empty(),
    }
}

/// The parts that wait after a message, and those to be handed on: where the message speaks, all
/// that wait in its session and then its own. Otherwise its own begin to wait.
pub open spec fn debounced(
    m: Seq<(Seq<char>, Seq<PartV>)>,
    session: Seq<char>,
    parts: Seq<PartV>,
) -> (Seq<(Seq<char>, Seq<PartV>)>, Option<Seq<PartV>>) {
    if speaks(parts) {
        (without_entry(m, session), Some(waiting(m, session) + parts))
    } else if parts.len() > 0 {
        (with_entry(m, session, waiting(m, session) + parts), None)
    } else {
        (m, None)
    }
}

fn has_text(parts: &Vec<ChannelPart>) -> (r: bool)
    ensures
        r == exists|i: int|
            0 <= i < parts.deep_view().len() && is_said(#[trigger] parts.deep_view()[i]),
{
    let ghost all = parts.deep_view();
    let mut i: usize = 0;
    while i < parts.len()
        invariant
            i <= parts@.len(),
            all == parts.deep_view(),
            forall|k: int| 0 <= k < i ==> !is_said(#[trigger] all[k]),
        decreases parts@.len() - i,
    {
        let p: &ChannelPart = &parts[i];
        assert(all[i as int] == p@);
        if p.kind == PartKind::Text && !trim(p.text.as_str()).is_empty() {
            assert(is_said(all[i as int]));
            return true;
        }
        i = i + 1;
    }
    false
}

fn has_media_non_text(parts: &Vec<ChannelPart>) -> (r: bool)
    ensures
        r == exists|i: int|
            0 <= i < parts.deep_view().len() && is_media(#[trigger] parts.deep_view()[i]),
{
    let ghost all = parts.deep_view();
    let mut i: usize = 0;
    while i < parts.len()
        invariant
            i <= parts@.len(),
            all == parts.deep_view(),
            forall|k: int| 0 <= k < i ==> !is_media(#[trigger] all[k]),
        decreases parts@.len() - i,
    {
        let p: &ChannelPart = &parts[i];
        assert(all[i as int] == p@);
        if p.kind == PartKind::Image || p.kind == PartKind::Video || p.kind == PartKind::File
            || p.kind == PartKind::Audio {
            assert(is_media(all[i as int]));
            return true;
        }
        i = i + 1;
    }
    false
}

fn joined_parts(first: Vec<ChannelPart>, more: &Vec<ChannelPart>) -> (r: Vec<ChannelPart>)
    ensures
        r.deep_view() == first.deep_view() + more.deep_view(),
{
    let mut r: Vec<ChannelPart> = first;
    let mut i: usize = 0;
    let ghost head = first.deep_view();
    let ghost all = more.deep_view();
    assert(r.deep_view() =~= head + all.take(0));
    while i < more.len()
        invariant
            i <= more@.len(),
            all == more.deep_view(),
            r.deep_view() == head + all.take(i as int),
        decreases more@.len() - i,
    {
        let ghost before = r.deep_view();
        r.push(more[i].dup());
        proof {
            assert(r.deep_view() =~= before.push(all[i as int]));
            assert(head + all.take(i + 1) =~= (head + all.take(i as int)).push(all[i as int]));
        }
        i = i + 1;
    }
    assert(all.take(all.len() as int) == all);
    r
}

/// Takes in the parts of a message of a session: the parts to be handed on, or `None` where they
/// wait.
pub fn apply_debounce(
    debounce: &mut MediaDebounce,
    session_id: &str,
    content_parts: &Vec<ChannelPart>,
) -> (r: Option<Vec<ChannelPart>>)
    ensures
        (final(debounce)@, r.deep_view()) == debounced(
            old(debounce)@,
            session_id@,
            content_parts.deep_view(),
        ),
{
    let ghost all = content_parts.deep_view();
    if !has_media_non_text(content_parts) && !has_text(content_parts) {
        assert(!speaks(all));
        if content_parts.len() == 0 {
            return None;
        }
        proof {
            held_lookup(debounce.pending@, session_id@);
        }
        let first: Vec<ChannelPart> = match debounce.pending.get(session_id) {
            Some(p) => dup_parts(p),
            None => {
                let none: Vec<ChannelPart> = Vec::new();
                assert(none.deep_view() =~= Seq::<PartV>::empty());
                none
            },
        };
        let all_parts: Vec<ChannelPart> = joined_parts(first, content_parts);
        proof {
            held_with(debounce.pending@, session_id@, all_parts);
        }
        debounce.pending.insert(session_id.to_owned(), all_parts);
        return None;
    }
    assert(speaks(all));
    proof {
        held_lookup(debounce.pending@, session_id@);
        held_without(debounce.pending@, session_id@);
    }
    let first: Vec<ChannelPart> = match debounce.pending.remove(session_id) {
        Some(p) => p,
        None => {
            let none: Vec<ChannelPart> = Vec::new();
            assert(none.deep_view() =~= Seq::<PartV>::empty());
            none
        },
    };
    Some(joined_parts(first, content_parts))
}

/// No part is lost, none comes twice, and their order stays: what is handed on and what then waits
/// is what waited and what came. Other sessions are as before.
pub proof fn no_part_is_lost(
    m: Seq<(Seq<char>, Seq<PartV>)>,
    session: Seq<char>,
    parts: Seq<PartV>,
    other: Seq<char>,
)
    requires
        other != session,
    ensures
        (match debounced(m, session, parts).1 {
            Some(out) => out,
            None => Seq::empty(),
        }) + waiting(debounced(m, session, parts).0, session) == waiting(m, session) + parts,
        waiting(debounced(m, session, parts).0, other) == waiting(m, other),
{
    let w = waiting(m, session) + parts;
    without_entry_lookup(m, session, session);
    without_entry_lookup(m, session, other);
    with_entry_lookup(m, session, w, session);
    with_entry_lookup(m, session, w, other);
    assert(w + Seq::<PartV>::empty() =~= w);
    assert(Seq::<PartV>::empty() + w =~= w);
    if !speaks(parts) && parts.len() == 0 {
        assert(w =~= waiting(m, session));
    }
}

/// Once a message speaks, nothing of its session waits.
pub proof fn speaking_ends_the_wait(
    m: Seq<(Seq<char>, Seq<PartV>)>,
    session: Seq<char>,
    parts: Seq<PartV>,
)
    requires
        speaks(parts),
    ensures
        debounced(m, session, parts).1 is Some,
        waiting(debounced(m, session, parts).0, session).len() == 0,
{
    without_entry_lookup(m, session, session);
}

} // verus!
