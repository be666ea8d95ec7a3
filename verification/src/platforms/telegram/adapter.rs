//! The runner of one Telegram account: which messages it takes, and how they wait their turn.

use vstd::prelude::*;

use crate::error::{ErrorV, GatewayError};
use crate::json::{dup_entries, get_entry_bool_or, push_field, truth_of_or, Json, JsonV};
use crate::pipeline::{
    message_priority, native_from, part_from, query_of, session_id_of, session_of, NativeMessage,
    NativeV,
};
use crate::platforms::telegram::debounce::{apply_debounce, debounced, MediaDebounce};
use crate::platforms::telegram::inbound::{addresses_bot, check_group_mention, BotIdentity};
use crate::platforms::telegram::registry::{identified, TelegramAccountRegistry};
use crate::queue::priority_of;
use crate::strs::{decimal, lowered, trim, trimmed, u64_string};
use crate::table::lookup;
use crate::types::{text_part_view, ChannelPart, PartKind, PartV};

verus! {

/// What starting a runner came to.
#[derive(Debug)]
pub enum TelegramRunnerStart {
    Started,
    /// The account was merged into this one, which runs already.
    Merged(String),
}

/// The token to run a bot with.
pub fn bot_token(token: &str) -> (r: Result<String, GatewayError>)
    ensures
        match r {
            Ok(t) => trimmed(token@).len() > 0 && t@ == trimmed(token@),
            Err(e) => trimmed(token@).len() == 0 && e@ == ErrorV::Config(
                "telegram account bot_token is required"@,
            ),
        },
{
    let t: &str = trim(token);
    if t.is_empty() {
        return Err(GatewayError::Config("telegram account bot_token is required".to_owned()));
    }
    Ok(t.to_owned())
}

/// Takes note of who the bot of an account is. Where another account runs the same bot, there is
/// nothing to start.
pub fn identify(
    registry: &mut TelegramAccountRegistry,
    account_id: &str,
    identity: &BotIdentity,
) -> (r: Result<TelegramRunnerStart, GatewayError>)
    ensures
        ({
            let (v, m) = identified(
                old(registry)@,
                account_id@,
                decimal(identity.id as nat),
                identity.username@,
            );
            &&& final(registry)@ == v
            &&& match m {
                Some(existing) => r matches Ok(TelegramRunnerStart::Merged(id)) && id@ == existing,
                None => r matches Ok(TelegramRunnerStart::Started),
            }
        }),
{
    let id: String = u64_string(identity.id);
    match registry.upsert_bot_identity(account_id, id.as_str(), identity.username.as_str()) {
        Ok(Some(existing)) => Ok(TelegramRunnerStart::Merged(existing)),
        Ok(None) => Ok(TelegramRunnerStart::Started),
        Err(e) => Err(e),
    }
}

// ---------------------------------------------------------------------------------------------
// Messages that wait
// ---------------------------------------------------------------------------------------------

/// The name of the kind of a part.
pub open spec fn kind_name(k: PartKind) -> Seq<char> {
    match k {
        PartKind::Image => "image"@,
        PartKind::Video => "video"@,
        PartKind::File => "file"@,
        PartKind::Audio => "audio"@,
        _ => "text"@,
    }
}

/// The name of the member that holds the URL of a part.
pub open spec fn url_name(k: PartKind) -> Option<Seq<char>> {
    match k {
        PartKind::Image => Some("image_url"@),
        PartKind::Video => Some("video_url"@),
        PartKind::File => Some("file_url"@),
        PartKind::Audio => Some("audio_url"@),
        _ => None,
    }
}

/// A part as it waits.
pub open spec fn part_payload(p: PartV) -> JsonV {
    let base = seq![("type"@, JsonV::Str(kind_name(p.kind))), ("text"@, JsonV::Str(p.text))];
    JsonV::Object(
        match url_name(p.kind) {
            Some(k) => if p.url.len() > 0 {
                base.push((k, JsonV::Str(p.url)))
            } else {
                base
            },
            None => base,
        },
    )
}

/// A message as it waits.
pub open spec fn native_payload(n: NativeV, session: Seq<char>) -> JsonV {
    JsonV::Object(
        seq![
            ("channel_id"@, JsonV::Str(n.channel_id)),
            ("sender_id"@, JsonV::Str(n.sender_id)),
            ("session_id"@, JsonV::Str(session)),
            (
                "content_parts"@,
                JsonV::Array(n.content_parts.map_values(|p: PartV| part_payload(p))),
            ),
            ("meta"@, JsonV::Object(n.meta)),
        ],
    )
}

fn part_to_json(p: &ChannelPart) -> (r: Json)
    ensures
        r@ == part_payload(p@),
{
    let (kind, url): (&str, Option<&str>) = match p.kind {
        PartKind::Image => ("image", Some("image_url")),
        PartKind::Video => ("video", Some("video_url")),
        PartKind::File => ("file", Some("file_url")),
        PartKind::Audio => ("audio", Some("audio_url")),
        _ => ("text", None),
    };
    let mut m: Vec<(String, Json)> = Vec::new();
    assert(m.deep_view() =~= Seq::<(Seq<char>, JsonV)>::empty());
    push_field(&mut m, "type", Json::text(kind));
    push_field(&mut m, "text", Json::text(p.text.as_str()));
    if let Some(k) = url {
        if !p.url.as_str().is_empty() {
            push_field(&mut m, k, Json::text(p.url.as_str()));
        }
    }
    proof {
        let base = seq![
            ("type"@, JsonV::Str(kind_name(p.kind))),
            ("text"@, JsonV::Str(p.text@)),
        ];
        assert(Seq::<(Seq<char>, JsonV)>::empty().push(base[0]).push(base[1]) =~= base);
    }
    Json::object(m)
}

/// A message as it waits.
pub fn native_to_json(native: &NativeMessage, session_id: &str) -> (r: Json)
    ensures
        r@ == native_payload(native@, session_id@),
{
    let ghost f = |p: PartV| part_payload(p);
    let ghost all = native.content_parts.deep_view();
    let mut parts: Vec<Json> = Vec::new();
    let mut i: usize = 0;
    assert(parts.deep_view() =~= all.take(0).map_values(f));
    while i < native.content_parts.len()
        invariant
            i <= native.content_parts@.len(),
            all == native.content_parts.deep_view(),
            f == |p: PartV| part_payload(p),
            parts.deep_view() == all.take(i as int).map_values(f),
        decreases native.content_parts@.len() - i,
    {
        let ghost before = parts.deep_view();
        parts.push(part_to_json(&native.content_parts[i]));
        proof {
            assert(parts.deep_view() =~= before.push(part_payload(all[i as int])));
            assert(all.take(i + 1).map_values(f) =~= all.take(i as int).map_values(f).push(
                part_payload(all[i as int]),
            ));
        }
        i = i + 1;
    }
    assert(all.take(all.len() as int) == all);
    let mut m: Vec<(String, Json)> = Vec::new();
    assert(m.deep_view() =~= Seq::<(Seq<char>, JsonV)>::empty());
    push_field(&mut m, "channel_id", Json::text(native.channel_id.as_str()));
    push_field(&mut m, "sender_id", Json::text(native.sender_id.as_str()));
    push_field(&mut m, "session_id", Json::text(session_id));
    push_field(&mut m, "content_parts", Json::array(parts));
    push_field(&mut m, "meta", Json::object(dup_entries(&native.meta)));
    assert(m.deep_view() =~= native_payload(native@, session_id@)->Object_0);
    Json::object(m)
}

/// A message that waits its turn in its session.
pub struct Queued {
    pub session_id: String,
    pub priority: i32,
    pub payload: Json,
}

/// Takes in a message: `None` where it is not for the bot, or waits for more to come. Otherwise
/// the message, with what waited for it.
pub fn take_message(
    debounce: &mut MediaDebounce,
    require_mention: bool,
    native: NativeMessage,
) -> (r: Option<Queued>)
    ensures
        ({
            let n = native@;
            let is_group = truth_of_or(n.meta, "is_group"@, false);
            let (pending, parts) = debounced(old(debounce)@, session_of(n), n.content_parts);
            if !addresses_bot(require_mention, is_group, n.meta) {
                r is None && final(debounce)@ == old(debounce)@
            } else {
                &&& final(debounce)@ == pending
                &&& match parts {
                    None => r is None,
                    Some(parts) => r matches Some(q) && q.session_id@ == session_of(n)
                        && q.priority == priority_of(lowered(trimmed(query_of(parts))))
                        && q.payload@ == native_payload(
                        NativeV { content_parts: parts, ..n },
                        session_of(n),
                    ),
                }
            }
        }),
{
    let is_group: bool = get_entry_bool_or(&native.meta, "is_group", false);
    if !check_group_mention(require_mention, is_group, &native.meta) {
        return None;
    }
    let session_id: String = session_id_of(&native);
    let merged: Vec<ChannelPart> = match apply_debounce(
        debounce,
        session_id.as_str(),
        &native.content_parts,
    ) {
        Some(parts) => parts,
        None => {
            return None;
        },
    };
    let mut native: NativeMessage = native;
    native.content_parts = merged;
    let priority: i32 = message_priority(&native);
    let payload: Json = native_to_json(&native, session_id.as_str());
    Some(Queued { session_id: session_id, priority: priority, payload: payload })
}

// ---------------------------------------------------------------------------------------------
// Laws
// ---------------------------------------------------------------------------------------------

/// What is left of a part that waited: the URL of a text, and what the platform said of the part,
/// stay behind.
pub open spec fn kept(p: PartV) -> PartV {
    match url_name(p.kind) {
        Some(_) => PartV { data: None, extra: Seq::empty(), ..p },
        None => text_part_view(p.text),
    }
}

proof fn part_reads_back(p: PartV)
    ensures
        part_from(part_payload(p)) == kept(p),
{
    reveal_strlit("type");
    reveal_strlit("text");
    reveal_strlit("image");
    reveal_strlit("video");
    reveal_strlit("file");
    reveal_strlit("audio");
    reveal_strlit("image_url");
    reveal_strlit("video_url");
    reveal_strlit("file_url");
    reveal_strlit("audio_url");
    reveal_strlit("data");
    reveal_strlit("extra");
    assert("type"@[1] != "text"@[1]);
    assert("image"@[0] != "video"@[0]);
    assert("image"@[0] != "audio"@[0]);
    assert("video"@[0] != "audio"@[0]);
    assert("data"@[0] != "type"@[0]);
    assert("data"@[0] != "text"@[0]);
    assert("text"@[0] != "file"@[0]);
    reveal_with_fuel(lookup, 4);
    let m = part_payload(p)->Object_0;
    let d = m.drop_first();
    assert(m[0].0 == "type"@ && m[1].0 == "text"@);
    assert(d[0] == m[1]);
    assert(lookup(m, "type"@) == Some(JsonV::Str(kind_name(p.kind))));
    assert(lookup(m, "text"@) == Some(JsonV::Str(p.text)));
    let e = d.drop_first();
    match url_name(p.kind) {
        Some(k) => {
            if p.url.len() > 0 {
                assert(e[0] == (k, JsonV::Str(p.url)));
                assert(e.drop_first().len() == 0);
                assert(lookup(m, k) == Some(JsonV::Str(p.url)));
                assert(k.len() >= 8 && "data"@.len() == 4 && "extra"@.len() == 5);
            } else {
                assert(e.len() == 0);
                assert(lookup(m, k) is None);
                assert(p.url =~= Seq::empty());
            }
        },
        None => {
            assert(e.len() == 0);
        },
    }
    assert(lookup(m, "data"@) is None);
    assert(lookup(m, "extra"@) is None);
    assert(part_from(part_payload(p)) =~= kept(p));
}

/// A message that waited comes back with its sender, its session, all it is known by, and its parts
/// in order. Of a part, what the platform said of it stays behind.
pub proof fn waiting_message_reads_back(n: NativeV, session: Seq<char>)
    ensures
        native_from(n.channel_id, native_payload(n, session)) == Ok::<NativeV, ErrorV>(
            NativeV {
                session_id: Some(session),
                content_parts: n.content_parts.map_values(|p: PartV| kept(p)),
                ..n
            },
        ),
{
    reveal_strlit("channel_id");
    reveal_strlit("sender_id");
    reveal_strlit("session_id");
    reveal_strlit("content_parts");
    reveal_strlit("meta");
    assert("channel_id"@[0] != "session_id"@[0]);
    assert("channel_id"@.len() == 10 && "sender_id"@.len() == 9 && "session_id"@.len() == 10);
    assert("content_parts"@.len() == 13 && "meta"@.len() == 4);
    reveal_with_fuel(lookup, 6);
    let v = native_payload(n, session);
    let m = v->Object_0;
    let m1 = m.drop_first();
    let m2 = m1.drop_first();
    let m3 = m2.drop_first();
    let m4 = m3.drop_first();
    assert(m1[0] == m[1] && m2[0] == m[2] && m3[0] == m[3] && m4[0] == m[4]);
    let f = |p: PartV| part_payload(p);
    let g = |p: JsonV| part_from(p);
    assert(lookup(m, "sender_id"@) == Some(JsonV::Str(n.sender_id)));
    assert(lookup(m, "session_id"@) == Some(JsonV::Str(session)));
    assert(lookup(m, "content_parts"@) == Some(
        JsonV::Array(n.content_parts.map_values(f)),
    ));
    assert(lookup(m, "meta"@) == Some(JsonV::Object(n.meta)));
    let parts = n.content_parts.map_values(f).map_values(g);
    assert(parts =~= n.content_parts.map_values(|p: PartV| kept(p))) by {
        assert forall|i: int| 0 <= i < n.content_parts.len() implies #[trigger] parts[i] == kept(
            n.content_parts[i],
        ) by {
            part_reads_back(n.content_parts[i]);
        }
    }
    assert(native_from(n.channel_id, v)->Ok_0 =~= NativeV {
        session_id: Some(session),
        content_parts: n.content_parts.map_values(|p: PartV| kept(p)),
        ..n
    });
}

} // verus!
