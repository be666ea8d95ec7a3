//! The tokens of accounts, by the ids of the accounts.

use vstd::prelude::*;

use crate::strs::{trim, trimmed, trimmed_idempotent};
use crate::table::{keys_differ, lookup, pairs, with_entry, with_entry_lookup, Table};

verus! {

/// Texts under the ids of accounts.
pub type Tokens = Seq<(Seq<char>, Seq<char>)>;

/// The token of an account; empty where it has no token file.
pub open spec fn token_of(tokens: Tokens, id: Seq<char>) -> Seq<char> {
    match lookup(tokens, id) {
        Some(t) => t,
        None => Seq::empty(),
    }
}

/// Whether no token has white space around it.
pub open spec fn are_trimmed(tokens: Tokens) -> bool {
    forall|id: Seq<char>| trimmed(#[trigger] token_of(tokens, id)) == token_of(tokens, id)
}

/// The tokens without the white space around them.
pub open spec fn trimmed_tokens(tokens: Tokens) -> Tokens {
    tokens.map_values(|e: (Seq<char>, Seq<char>)| (e.0, trimmed(e.1)))
}

/// Trims every token.
pub fn trim_tokens(tokens: Table<String>) -> (r: Table<String>)
    ensures
        r.texts() == trimmed_tokens(tokens.texts()),
        are_trimmed(r.texts()),
{
    let ghost before = tokens@;
    let mut es: Vec<(String, String)> = tokens.into_entries();
    assert(es@.len() == pairs(es@).len());
    let mut i: usize = 0;
    while i < es.len()
        invariant
            i <= es@.len(),
            es@.len() == before.len(),
            forall|k: int|
                0 <= k < before.len() ==> (#[trigger] pairs(es@)[k]).0 == before[k].0
                    && pairs(es@)[k].1@ == if k < i {
                    trimmed(before[k].1@)
                } else {
                    before[k].1@
                },
        decreases es@.len() - i,
    {
        let ghost now = es@;
        assert(pairs(now)[i as int].1 == now[i as int].1);
        let t: String = trim(es[i].1.as_str()).to_owned();
        es[i].1 = t;
        proof {
            assert forall|k: int| 0 <= k < before.len() implies (#[trigger] pairs(es@)[k]).0
                == before[k].0 && pairs(es@)[k].1@ == if k < i + 1 {
                trimmed(before[k].1@)
            } else {
                before[k].1@
            } by {
                assert(pairs(now)[k].0 == before[k].0);
            }
        }
        i = i + 1;
    }
    assert(keys_differ(pairs(es@))) by {
        assert forall|a: int, b: int| 0 <= a < b < before.len() implies (#[trigger] pairs(es@)[a]).0
            != (#[trigger] pairs(es@)[b]).0 by {
            assert(before[a].0 != before[b].0);
        }
    }
    let r: Table<String> = Table::from_entries(es);
    proof {
        assert(r.texts() =~= trimmed_tokens(tokens.texts()));
        trimmed_tokens_are_trimmed(tokens.texts());
    }
    r
}

/// Trimming leaves no white space around a token, and trims each under its own id.
pub proof fn trimmed_tokens_are_trimmed(tokens: Tokens)
    ensures
        are_trimmed(trimmed_tokens(tokens)),
        forall|id: Seq<char>| #[trigger]
            token_of(trimmed_tokens(tokens), id) == trimmed(token_of(tokens, id)),
{
    assert forall|id: Seq<char>| #[trigger]
        token_of(trimmed_tokens(tokens), id) == trimmed(token_of(tokens, id)) by {
        trimmed_lookup(tokens, id);
    }
    assert forall|id: Seq<char>| trimmed(#[trigger] token_of(trimmed_tokens(tokens), id))
        == token_of(trimmed_tokens(tokens), id) by {
        trimmed_idempotent(token_of(tokens, id));
    }
}

proof fn trimmed_lookup(tokens: Tokens, id: Seq<char>)
    ensures
        lookup(trimmed_tokens(tokens), id) == match lookup(tokens, id) {
            Some(t) => Some(trimmed(t)),
            None => None,
        },
    decreases tokens.len(),
{
    if tokens.len() > 0 {
        trimmed_lookup(tokens.drop_first(), id);
        assert(trimmed_tokens(tokens).drop_first() == trimmed_tokens(tokens.drop_first()));
    }
}

/// A token that is put trimmed leaves the tokens trimmed.
pub proof fn putting_keeps_tokens_trimmed(tokens: Tokens, id: Seq<char>, token: Seq<char>)
    requires
        are_trimmed(tokens),
    ensures
        are_trimmed(with_entry(tokens, id, trimmed(token))),
{
    let after = with_entry(tokens, id, trimmed(token));
    trimmed_idempotent(token);
    assert forall|q: Seq<char>| trimmed(#[trigger] token_of(after, q)) == token_of(after, q) by {
        with_entry_lookup(tokens, id, trimmed(token), q);
        assert(trimmed(token_of(tokens, q)) == token_of(tokens, q));
    }
}

} // verus!
