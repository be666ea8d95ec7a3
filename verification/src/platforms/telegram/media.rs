//! Files that come from Telegram and go to it.

use vstd::prelude::*;

use crate::error::{ErrorV, GatewayError};
use crate::ids::{is_small_hex, new_simple_uuid};
use crate::paths::{extension, extension_of};
use crate::strs::{after_prefix, concat2, concat3, strip_prefix, take_chars, trim, trimmed};

verus! {

/// How large a file may be, in bytes.
pub const MAX_FILE_BYTES: u64 = 52_428_800;

/// The end of the name under which a file is kept: the extension of its path, else that of the
/// name it came under, else `.bin`.
pub open spec fn suffix_of(file_path: Seq<char>, hint: Seq<char>) -> Seq<char> {
    match extension_of(file_path) {
        Some(x) => "."@ + x,
        None => match extension_of(hint) {
            Some(x) => "."@ + x,
            None => ".bin"@,
        },
    }
}

/// The end of the name under which a file is kept.
pub fn media_suffix(file_path: &str, hint: &str) -> (r: String)
    ensures
        r@ == suffix_of(file_path@, hint@),
{
    match extension(file_path) {
        Some(x) => concat2(".", x.as_str()),
        None => match extension(hint) {
            Some(x) => concat2(".", x.as_str()),
            None => ".bin".to_owned(),
        },
    }
}

/// A name under which a file is kept: twelve hexadecimal digits and the suffix.
pub open spec fn is_local_name(s: Seq<char>, suffix: Seq<char>) -> bool {
    exists|d: Seq<char>|
        s == d + suffix && d.len() == 12 && forall|i: int|
            0 <= i < 12 ==> is_small_hex(#[trigger] d[i])
}

/// What to fetch, and under which name to keep it; `None` where the path of the file is blank.
pub fn plan_download(path: &str, filename_hint: &str) -> (r: Option<(String, String)>)
    ensures
        match r {
            Some((file_path, local_name)) => {
                &&& trimmed(path@).len() > 0
                &&& file_path@ == trimmed(path@)
                &&& is_local_name(local_name@, suffix_of(trimmed(path@), filename_hint@))
            },
            None => trimmed(path@).len() == 0,
        },
{
    let p: &str = trim(path);
    if p.is_empty() {
        return None;
    }
    let u: String = new_simple_uuid();
    let d: &str = take_chars(u.as_str(), 12);
    assert forall|i: int| 0 <= i < 12 implies is_small_hex(#[trigger] d@[i]) by {
        assert(d@[i] == u@[i]);
    }
    let suffix: String = media_suffix(p, filename_hint);
    let name: String = concat2(d, suffix.as_str());
    Some((p.to_owned(), name))
}

/// The URL of a file that is kept here.
pub fn file_uri(path: &str) -> (r: String)
    ensures
        r@ == "file://"@ + path@,
{
    concat2("file://", path)
}

/// The path of the file that a URL names, where it is one that is kept here.
pub fn local_path_from_url(url: &str) -> (r: Option<String>)
    ensures
        r.deep_view() == after_prefix(url@, "file://"@),
{
    match strip_prefix(url, "file://") {
        Some(p) => Some(p.to_owned()),
        None => None,
    }
}

/// A file that is kept here is found again under its URL.
pub proof fn local_path_of_file_uri(path: Seq<char>)
    ensures
        after_prefix("file://"@ + path, "file://"@) == Some(path),
{
    let p = "file://"@;
    assert((p + path).take(p.len() as int) == p);
    assert((p + path).skip(p.len() as int) == path);
}

/// Lets a file of `len` bytes pass where it is not too large. `megabytes` is its size as it is
/// shown.
pub fn check_file_size(len: u64, megabytes: &str) -> (r: Result<u64, GatewayError>)
    ensures
        match r {
            Ok(n) => len <= MAX_FILE_BYTES && n == len,
            Err(e) => len > MAX_FILE_BYTES && e@ == (ErrorV::Channel {
                channel: "telegram"@,
                message: "file too large ("@ + megabytes@ + " MB, limit 50 MB)"@,
            }),
        },
{
    if len > MAX_FILE_BYTES {
        return Err(
            GatewayError::Channel {
                channel: "telegram".to_owned(),
                message: concat3("file too large (", megabytes, " MB, limit 50 MB)"),
            },
        );
    }
    Ok(len)
}

} // verus!
