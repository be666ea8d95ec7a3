//! File paths as texts, with `/` as the separator.

use vstd::prelude::*;

use crate::strs::{
    begins, chars_of, ends_with, finishes, last_at, rfind, same, slice_string, starts_with,
};

verus! {

/// `b` under the directory `a`. An absolute `b` stands for itself.
#[verifier::opaque]
pub open spec fn path_of(a: Seq<char>, b: Seq<char>) -> Seq<char> {
    if begins(b, "/"@) {
        b
    } else if a.len() == 0 || finishes(a, "/"@) {
        a + b
    } else {
        a + "/"@ + b
    }
}

/// `b` under the directory `a`.
pub fn path_join(a: &str, b: &str) -> (r: String)
    ensures
        r@ == path_of(a@, b@),
{
    reveal(path_of);
    if starts_with(b, "/") {
        return b.to_owned();
    }
    let mut r: String = a.to_owned();
    if !(a.is_empty() || ends_with(a, "/")) {
        r.append("/");
    }
    r.append(b);
    r
}

/// A path without the separators, and the names of the directory itself, at its end.
pub open spec fn bare(p: Seq<char>) -> Seq<char>
    decreases p.len(),
{
    if p.len() >= 1 && p.last() == '/' {
        bare(p.drop_last())
    } else if p.len() >= 2 && p.last() == '.' && p[p.len() - 2] == '/' {
        bare(p.take(p.len() - 2))
    } else {
        p
    }
}

/// The last name in a path; none where the path leads to its start or upwards.
pub open spec fn file_name_of(p: Seq<char>) -> Option<Seq<char>> {
    let q = bare(p);
    let n = match last_at(q, "/"@) {
        Some(i) => q.skip(i + 1),
        None => q,
    };
    if n.len() == 0 || n == "."@ || n == ".."@ {
        None
    } else {
        Some(n)
    }
}

/// What follows the last dot in the last name of a path, where a name comes before the dot.
pub open spec fn extension_of(p: Seq<char>) -> Option<Seq<char>> {
    match file_name_of(p) {
        Some(n) => match last_at(n, "."@) {
            Some(i) => if i > 0 {
                Some(n.skip(i + 1))
            } else {
                None
            },
            None => None,
        },
        None => None,
    }
}

/// The last name in a path.
pub fn file_name(p: &str) -> (r: Option<String>)
    ensures
        r.deep_view() == file_name_of(p@),
{
    let v: Vec<char> = chars_of(p);
    let mut n: usize = v.len();
    assert(v@.take(n as int) == v@);
    loop
        invariant
            n <= v@.len(),
            v@ == p@,
            bare(p@) == bare(v@.take(n as int)),
        ensures
            n <= v@.len(),
            bare(p@) == v@.take(n as int),
        decreases n,
    {
        let ghost cur = v@.take(n as int);
        if n >= 1 && v[n - 1] == '/' {
            assert(cur.drop_last() == v@.take(n - 1));
            n = n - 1;
        } else if n >= 2 && v[n - 1] == '.' && v[n - 2] == '/' {
            assert(cur.take(n - 2) == v@.take(n - 2));
            n = n - 2;
        } else {
            break ;
        }
    }
    let q: String = slice_string(&v, 0, n);
    assert(q@ == bare(p@));
    let w: Vec<char> = chars_of(q.as_str());
    proof {
        reveal_strlit("/");
    }
    let name: String = match rfind(q.as_str(), "/") {
        Some(i) => slice_string(&w, i + 1, w.len()),
        None => q,
    };
    if name.as_str().is_empty() || same(name.as_str(), ".") || same(name.as_str(), "..") {
        None
    } else {
        Some(name)
    }
}

/// What follows the last dot in the last name of a path, where a name comes before the dot.
pub fn extension(p: &str) -> (r: Option<String>)
    ensures
        r.deep_view() == extension_of(p@),
{
    proof {
        reveal_strlit(".");
    }
    match file_name(p) {
        Some(n) => match rfind(n.as_str(), ".") {
            Some(i) => {
                if i > 0 {
                    let v: Vec<char> = chars_of(n.as_str());
                    let len: usize = v.len();
                    Some(slice_string(&v, i + 1, len))
                } else {
                    None
                }
            },
            None => None,
        },
        None => None,
    }
}

// ---------------------------------------------------------------------------------------------
// Laws
// ---------------------------------------------------------------------------------------------

/// A relative path that is put after a directory leads into it: there is one separator between the
/// two, and both are there whole. An absolute path stays as it is.
pub proof fn joined_paths_lead_into_the_directory(a: Seq<char>, b: Seq<char>)
    ensures
        b.len() > 0 && b[0] == '/' ==> path_of(a, b) == b,
        (b.len() == 0 || b[0] != '/') && a.len() > 0 && a.last() != '/' ==> path_of(a, b) == a.push(
            '/',
        ) + b,
        (b.len() == 0 || b[0] != '/') && a.len() > 0 && a.last() == '/' ==> path_of(a, b) == a + b,
        (b.len() == 0 || b[0] != '/') && a.len() == 0 ==> path_of(a, b) == b,
{
    reveal_strlit("/");
    reveal(path_of);
    let slash = "/"@;
    if b.len() > 0 {
        assert(b.take(1)[0] == b[0]);
        assert(b[0] == '/' ==> b.take(1) =~= slash);
    }
    if a.len() > 0 {
        assert(a.skip(a.len() - 1)[0] == a.last());
        assert(a.last() == '/' ==> a.skip(a.len() - 1) =~= slash);
    }
    assert(a + slash + b =~= a.push('/') + b);
    assert(a.len() == 0 ==> a + b =~= b);
}

} // verus!
