//! Laws of the WeChat channel: what is sent can be read, what comes in is handed on, and answers go
//! where the message came from.

use vstd::prelude::*;

use crate::error::ErrorV;
use crate::json::{
    elements_field, field, field2, text_field, text_field_or, text_of, JsonV, Members, NumberV,
};
use crate::platforms::wechat::adapter::{
    context_token, cursor_in, cursor_names, first_text, inbound, inbound_meta, is_recent, item_part,
    item_parts, message_id_of, messages_of, receiver_names, receiver_of, recipient, reply_body,
    reply_token, target_of, ticket_in, ticket_step, with_context_token, with_ticket,
    with_ticket_failure, TicketStepV, TicketV,
};
use crate::platforms::wechat::client::{
    base_info, brings_messages, is_auth_error, login_step, media_url, previewed, redacted,
    ret_message, ret_of, signed_field, text_message, token_in_file, typing_body, waited, ClientV,
    LoginStepV, LoginWait,
};
use crate::platforms::wechat::crypto::headers_of;
use crate::strs::{ascii_lowered, begins, decimal, is_ws, occurs_at, signed_decimal, trimmed};
use crate::table::{first_entry, lookup, no_entry, with_entry_lookup};
use crate::text::{fitting, fitting_is_longest};
use crate::types::PartKind;
use crate::codec::query_text;

verus! {

// ---------------------------------------------------------------------------------------------
// What is sent
// ---------------------------------------------------------------------------------------------

/// A text without white space at either end is its own trimmed form.
pub proof fn tight_text_is_trimmed(t: Seq<char>)
    requires
        t.len() > 0 ==> !is_ws(t[0]) && !is_ws(t.last()),
    ensures
        trimmed(t) == t,
{
}

/// The reader of inbound items finds in a message that is sent one text, which is the text that was
/// to be sent; and the message names whom it goes to, the conversation and its id. So messages for
/// different texts differ.
pub proof fn sent_text_reads_back(
    to: Seq<char>,
    text: Seq<char>,
    token: Seq<char>,
    id: Seq<char>,
    other: Seq<char>,
)
    ensures
        ({
            let m = text_message(to, text, token, id);
            let items = elements_field(m, "item_list"@);
            &&& items matches Some(s) && s.len() == 1 && signed_field(s[0], "type"@) == Some(1i64)
                && field2(s[0], "text_item"@, "text"@) == Some(JsonV::Str(text))
            &&& text.len() > 0 && !is_ws(text[0]) && !is_ws(text.last()) ==> ({
                let parts = item_parts(items->0);
                &&& parts.len() == 1
                &&& parts[0].kind == PartKind::Text
                &&& parts[0].text == text
            })
            &&& text_field(m, "to_user_id"@) == Some(to)
            &&& text_field(m, "context_token"@) == Some(token)
            &&& text_field(m, "client_id"@) == Some(id)
            &&& text_field(m, "from_user_id"@) == Some(Seq::<char>::empty())
            &&& signed_field(m, "message_type"@) == Some(2i64)
            &&& signed_field(m, "message_state"@) == Some(2i64)
        }),
        text != other ==> text_message(to, text, token, id) != text_message(to, other, token, id),
{
    sent_text_is_one_item(to, text, token, id);
    sent_text_is_one_item(to, other, token, id);
    let items = elements_field(text_message(to, text, token, id), "item_list"@)->0;
    if text.len() > 0 && !is_ws(text[0]) && !is_ws(text.last()) {
        tight_text_is_trimmed(text);
        assert(items.drop_last() =~= Seq::<JsonV>::empty());
        assert(item_parts(items.drop_last()) =~= Seq::empty());
        assert(items.last() == items[0]);
    }
}

proof fn sent_text_is_one_item(to: Seq<char>, text: Seq<char>, token: Seq<char>, id: Seq<char>)
    ensures
        ({
            let m = text_message(to, text, token, id);
            let items = elements_field(m, "item_list"@);
            &&& items matches Some(s) && s.len() == 1 && signed_field(s[0], "type"@) == Some(1i64)
                && field2(s[0], "text_item"@, "text"@) == Some(JsonV::Str(text))
            &&& text_field(m, "to_user_id"@) == Some(to)
            &&& text_field(m, "context_token"@) == Some(token)
            &&& text_field(m, "client_id"@) == Some(id)
            &&& text_field(m, "from_user_id"@) == Some(Seq::<char>::empty())
            &&& signed_field(m, "message_type"@) == Some(2i64)
            &&& signed_field(m, "message_state"@) == Some(2i64)
        }),
{
    let m = text_message(to, text, token, id)->Object_0;
    reveal_strlit("from_user_id");
    reveal_strlit("to_user_id");
    reveal_strlit("client_id");
    reveal_strlit("message_type");
    reveal_strlit("message_state");
    reveal_strlit("context_token");
    reveal_strlit("item_list");
    assert("from_user_id"@.len() != "to_user_id"@.len());
    assert("from_user_id"@.len() != "client_id"@.len());
    assert("from_user_id"@[0] != "message_type"@[0]);
    assert("from_user_id"@.len() != "message_state"@.len());
    assert("from_user_id"@.len() != "context_token"@.len());
    assert("from_user_id"@.len() != "item_list"@.len());
    assert("to_user_id"@.len() != "client_id"@.len());
    assert("to_user_id"@.len() != "message_type"@.len());
    assert("to_user_id"@.len() != "message_state"@.len());
    assert("to_user_id"@.len() != "context_token"@.len());
    assert("to_user_id"@.len() != "item_list"@.len());
    assert("client_id"@.len() != "message_type"@.len());
    assert("client_id"@.len() != "message_state"@.len());
    assert("client_id"@.len() != "context_token"@.len());
    assert("client_id"@[0] != "item_list"@[0]);
    assert("message_type"@.len() != "message_state"@.len());
    assert("message_type"@.len() != "context_token"@.len());
    assert("message_type"@.len() != "item_list"@.len());
    assert("message_state"@[0] != "context_token"@[0]);
    assert("message_state"@.len() != "item_list"@.len());
    assert("context_token"@.len() != "item_list"@.len());
    assert(m[0].0 == "from_user_id"@);
    assert(m[1].0 == "to_user_id"@);
    assert(m[2].0 == "client_id"@);
    assert(m[3].0 == "message_type"@);
    assert(m[4].0 == "message_state"@);
    assert(m[5].0 == "context_token"@);
    assert(m[6].0 == "item_list"@);
    first_entry(m, "from_user_id"@, 0);
    first_entry(m, "to_user_id"@, 1);
    first_entry(m, "client_id"@, 2);
    first_entry(m, "message_type"@, 3);
    first_entry(m, "message_state"@, 4);
    first_entry(m, "context_token"@, 5);
    first_entry(m, "item_list"@, 6);
    let item = m[6].1->Array_0[0]->Object_0;
    reveal_strlit("type");
    reveal_strlit("text_item");
    reveal_strlit("text");
    assert("type"@.len() != "text_item"@.len());
    assert("type"@[1] != "text"@[1]);
    assert("text_item"@.len() != "text"@.len());
    assert(item[0].0 == "type"@);
    assert(item[1].0 == "text_item"@);
    first_entry(item, "type"@, 0);
    first_entry(item, "text_item"@, 1);
    first_entry(item[1].1->Object_0, "text"@, 0);
}

/// Whether the bot is typing is told of one user, with the ticket that was given for it.
pub proof fn typing_is_told_of_the_user(user: Seq<char>, ticket: Seq<char>, status: i64)
    requires
        status >= 0,
    ensures
        text_field(typing_body(user, ticket, status), "ilink_user_id"@) == Some(user),
        text_field(typing_body(user, ticket, status), "typing_ticket"@) == Some(ticket),
        signed_field(typing_body(user, ticket, status), "status"@) == Some(status),
        field2(typing_body(user, ticket, status), "base_info"@, "channel_version"@) == Some(
            JsonV::Str("2.0.1"@),
        ),
{
    let m = typing_body(user, ticket, status)->Object_0;
    reveal_strlit("ilink_user_id");
    reveal_strlit("typing_ticket");
    reveal_strlit("status");
    reveal_strlit("base_info");
    assert("ilink_user_id"@[0] != "typing_ticket"@[0]);
    assert("ilink_user_id"@.len() != "status"@.len());
    assert("ilink_user_id"@.len() != "base_info"@.len());
    assert("typing_ticket"@.len() != "status"@.len());
    assert("typing_ticket"@.len() != "base_info"@.len());
    assert("status"@.len() != "base_info"@.len());
    assert(m[0].0 == "ilink_user_id"@);
    assert(m[1].0 == "typing_ticket"@);
    assert(m[2].0 == "status"@);
    assert(m[3].0 == "base_info"@);
    first_entry(m, "ilink_user_id"@, 0);
    first_entry(m, "typing_ticket"@, 1);
    first_entry(m, "status"@, 2);
    first_entry(m, "base_info"@, 3);
    first_entry(base_info()->Object_0, "channel_version"@, 0);
}

/// A request is signed with the token of the bot, where it has one, and with nothing else.
pub proof fn requests_carry_the_token(token: Seq<char>, mark: Seq<char>)
    ensures
        token.len() > 0 ==> lookup(headers_of(token, mark), "Authorization"@) == Some(
            "Bearer "@ + token,
        ),
        token.len() == 0 ==> lookup(headers_of(token, mark), "Authorization"@) is None,
        lookup(headers_of(token, mark), "Content-Type"@) == Some("application/json"@),
        lookup(headers_of(token, mark), "AuthorizationType"@) == Some("ilink_bot_token"@),
        lookup(headers_of(token, mark), "X-WECHAT-UIN"@) == Some(mark),
{
    let m = headers_of(token, mark);
    reveal_strlit("Content-Type");
    reveal_strlit("AuthorizationType");
    reveal_strlit("X-WECHAT-UIN");
    reveal_strlit("Authorization");
    assert("Content-Type"@.len() != "AuthorizationType"@.len());
    assert("Content-Type"@[0] != "X-WECHAT-UIN"@[0]);
    assert("Content-Type"@.len() != "Authorization"@.len());
    assert("AuthorizationType"@.len() != "X-WECHAT-UIN"@.len());
    assert("AuthorizationType"@.len() != "Authorization"@.len());
    assert("X-WECHAT-UIN"@.len() != "Authorization"@.len());
    assert(m[0].0 == "Content-Type"@);
    assert(m[1].0 == "AuthorizationType"@);
    assert(m[2].0 == "X-WECHAT-UIN"@);
    first_entry(m, "Content-Type"@, 0);
    first_entry(m, "AuthorizationType"@, 1);
    first_entry(m, "X-WECHAT-UIN"@, 2);
    if token.len() > 0 {
        assert(m[3].0 == "Authorization"@);
        first_entry(m, "Authorization"@, 3);
    } else {
        no_entry(m, "Authorization"@);
    }
}

// ---------------------------------------------------------------------------------------------
// What comes in
// ---------------------------------------------------------------------------------------------

/// A message of a user that is not blank.
pub open spec fn comes_from(v: JsonV, from: Seq<char>) -> bool {
    &&& signed_field(v, "message_type"@) == Some(1i64)
    &&& text_field(v, "from_user_id"@) == Some(from)
    &&& from.len() > 0
}

/// An item with a text.
pub open spec fn is_text_item(item: JsonV, text: Seq<char>) -> bool {
    &&& signed_field(item, "type"@) == Some(1i64)
    &&& field2(item, "text_item"@, "text"@) == Some(JsonV::Str(text))
}

/// What a user writes is handed on, from the user, with the text; and what is kept beside it names
/// the user, the account, the chat to answer in (the group, where there is one) and the token of
/// the conversation.
pub proof fn inbound_text_is_handed_on(
    v: JsonV,
    shown: Seq<char>,
    account: Seq<char>,
    channel: Seq<char>,
    from: Seq<char>,
    item: JsonV,
    text: Seq<char>,
)
    requires
        comes_from(v, from),
        elements_field(v, "item_list"@) == Some(seq![item]),
        is_text_item(item, text),
        text.len() > 0,
        !is_ws(text[0]),
        !is_ws(text.last()),
    ensures
        inbound(v, shown, account, channel) matches Some(n) && {
            let group = text_field_or(v, "group_id"@, Seq::empty());
            &&& n.channel_id == channel
            &&& n.sender_id == from
            &&& n.content_parts.len() == 1
            &&& n.content_parts[0].kind == PartKind::Text
            &&& n.content_parts[0].text == text
            &&& text_of(n.meta, "from_user_id"@) == Some(from)
            &&& text_of(n.meta, "account_id"@) == Some(account)
            &&& text_of(n.meta, "context_token"@) == Some(
                text_field_or(v, "context_token"@, Seq::empty()),
            )
            &&& lookup(n.meta, "is_group"@) == Some(JsonV::Bool(group.len() > 0))
            &&& group.len() == 0 ==> n.session_id == Some("wechat:"@ + account + ":dm:"@ + from)
                && text_of(n.meta, "reply_to_user_id"@) == Some(from) && recipient(n.meta) == Some(
                from,
            )
            &&& group.len() > 0 ==> n.session_id == Some("wechat:"@ + account + ":group:"@ + group)
                && text_of(n.meta, "reply_to_user_id"@) == Some(group) && text_of(
                n.meta,
                "group_id"@,
            ) == Some(group) && recipient(n.meta) == Some(group)
        },
{
    tight_text_is_trimmed(text);
    let items = seq![item];
    assert(items.drop_last() =~= Seq::<JsonV>::empty());
    assert(item_parts(items.drop_last()) =~= Seq::empty());
    assert(items.last() == item);
    assert(item_parts(items).len() == 1);
    meta_names_the_chat(v, shown, account, from);
}

proof fn meta_names_the_chat(v: JsonV, shown: Seq<char>, account: Seq<char>, from: Seq<char>)
    requires
        text_field(v, "from_user_id"@) == Some(from),
    ensures
        ({
            let m = inbound_meta(v, shown, account);
            let group = text_field_or(v, "group_id"@, Seq::empty());
            let to = if group.len() > 0 {
                group
            } else {
                from
            };
            &&& text_of(m, "from_user_id"@) == Some(from)
            &&& text_of(m, "account_id"@) == Some(account)
            &&& text_of(m, "message_id"@) == Some(message_id_of(v, shown))
            &&& text_of(m, "to_user_id"@) == Some(receiver_of(v))
            &&& text_of(m, "context_token"@) == Some(
                text_field_or(v, "context_token"@, Seq::empty()),
            )
            &&& lookup(m, "is_group"@) == Some(JsonV::Bool(group.len() > 0))
            &&& text_of(m, "reply_to_user_id"@) == Some(to)
            &&& recipient(m) == Some(to)
            &&& group.len() > 0 ==> text_of(m, "group_id"@) == Some(group)
        }),
{
    let m = inbound_meta(v, shown, account);
    let group = text_field_or(v, "group_id"@, Seq::empty());
    reveal_strlit("message_id");
    reveal_strlit("account_id");
    reveal_strlit("from_user_id");
    reveal_strlit("reply_to_user_id");
    reveal_strlit("to_user_id");
    reveal_strlit("context_token");
    reveal_strlit("is_group");
    reveal_strlit("group_id");
    assert("message_id"@[0] != "account_id"@[0]);
    assert("message_id"@.len() != "from_user_id"@.len());
    assert("message_id"@.len() != "reply_to_user_id"@.len());
    assert("message_id"@[0] != "to_user_id"@[0]);
    assert("message_id"@.len() != "context_token"@.len());
    assert("message_id"@.len() != "is_group"@.len());
    assert("message_id"@.len() != "group_id"@.len());
    assert("account_id"@.len() != "from_user_id"@.len());
    assert("account_id"@.len() != "reply_to_user_id"@.len());
    assert("account_id"@[0] != "to_user_id"@[0]);
    assert("account_id"@.len() != "context_token"@.len());
    assert("account_id"@.len() != "is_group"@.len());
    assert("account_id"@.len() != "group_id"@.len());
    assert("from_user_id"@.len() != "reply_to_user_id"@.len());
    assert("from_user_id"@.len() != "to_user_id"@.len());
    assert("from_user_id"@.len() != "context_token"@.len());
    assert("from_user_id"@.len() != "is_group"@.len());
    assert("from_user_id"@.len() != "group_id"@.len());
    assert("reply_to_user_id"@.len() != "to_user_id"@.len());
    assert("reply_to_user_id"@.len() != "context_token"@.len());
    assert("reply_to_user_id"@.len() != "is_group"@.len());
    assert("reply_to_user_id"@.len() != "group_id"@.len());
    assert("to_user_id"@.len() != "context_token"@.len());
    assert("to_user_id"@.len() != "is_group"@.len());
    assert("to_user_id"@.len() != "group_id"@.len());
    assert("context_token"@.len() != "is_group"@.len());
    assert("context_token"@.len() != "group_id"@.len());
    assert("is_group"@[0] != "group_id"@[0]);
    assert(m[0].0 == "message_id"@);
    assert(m[1].0 == "account_id"@);
    assert(m[2].0 == "from_user_id"@);
    assert(m[3].0 == "reply_to_user_id"@);
    assert(m[4].0 == "to_user_id"@);
    assert(m[5].0 == "context_token"@);
    assert(m[6].0 == "is_group"@);
    first_entry(m, "message_id"@, 0);
    first_entry(m, "account_id"@, 1);
    first_entry(m, "from_user_id"@, 2);
    first_entry(m, "reply_to_user_id"@, 3);
    first_entry(m, "to_user_id"@, 4);
    first_entry(m, "context_token"@, 5);
    first_entry(m, "is_group"@, 6);
    if group.len() > 0 {
        assert(m[7].0 == "group_id"@);
        first_entry(m, "group_id"@, 7);
    }
}

/// What is no message of a user, or says nothing, is not handed on.
pub proof fn other_messages_are_passed_over(
    v: JsonV,
    shown: Seq<char>,
    account: Seq<char>,
    channel: Seq<char>,
)
    ensures
        signed_field(v, "message_type"@) != Some(1i64) ==> inbound(v, shown, account, channel) is None,
        text_field(v, "from_user_id"@) is None ==> inbound(v, shown, account, channel) is None,
        text_field(v, "from_user_id"@) == Some(Seq::<char>::empty()) ==> inbound(
            v,
            shown,
            account,
            channel,
        ) is None,
        elements_field(v, "item_list"@) is None ==> inbound(v, shown, account, channel) is None,
        elements_field(v, "item_list"@) == Some(Seq::<JsonV>::empty()) ==> inbound(
            v,
            shown,
            account,
            channel,
        ) is None,
{
}

/// Items that say something become parts, in order: one more item is one more part, after the
/// others.
pub proof fn items_become_parts_in_order(items: Seq<JsonV>, item: JsonV)
    ensures
        item_part(item) matches Some(p) ==> item_parts(items.push(item)) == item_parts(items).push(p),
        item_part(item) is None ==> item_parts(items.push(item)) == item_parts(items),
        item_parts(Seq::empty()).len() == 0,
{
    assert(items.push(item).drop_last() =~= items);
    assert(items.push(item).last() == item);
}

/// Pictures, voice messages, files and films are handed on as what they are, with the item itself
/// and with a word on what it is; a voice message with what was said, a file with its name. Blank
/// texts and unknown items are not.
pub proof fn media_is_handed_on_as_such(item: JsonV, said: Seq<char>)
    requires
        said.len() > 0,
        !is_ws(said[0]),
        !is_ws(said.last()),
    ensures
        signed_field(item, "type"@) != Some(1i64) ==> (item_part(item) matches Some(p) ==> p.data
            == Some(item) && lookup(p.extra, "wechat_item"@) == Some(item)),
        signed_field(item, "type"@) == Some(2i64) ==> (item_part(item) matches Some(p) && p.kind
            == PartKind::Image && p.text == "[WeChat image message]"@ && text_of(
            p.extra,
            "wechat_item_label"@,
        ) == Some("image"@)),
        signed_field(item, "type"@) == Some(3i64) ==> (item_part(item) matches Some(p) && p.kind
            == PartKind::Audio && text_of(p.extra, "wechat_item_label"@) == Some("voice"@)),
        signed_field(item, "type"@) == Some(3i64) && field2(item, "voice_item"@, "text"@) == Some(
            JsonV::Str(said),
        ) ==> (item_part(item)->0).text == "[WeChat voice message]\n"@ + said,
        signed_field(item, "type"@) == Some(4i64) ==> (item_part(item) matches Some(p) && p.kind
            == PartKind::File && text_of(p.extra, "wechat_item_label"@) == Some("file"@)),
        signed_field(item, "type"@) == Some(4i64) && field2(item, "file_item"@, "file_name"@) == Some(
            JsonV::Str(said),
        ) ==> (item_part(item)->0).text == "[WeChat file message: "@ + said + "]"@,
        signed_field(item, "type"@) == Some(5i64) ==> (item_part(item) matches Some(p) && p.kind
            == PartKind::Video && p.text == "[WeChat video message]"@ && text_of(
            p.extra,
            "wechat_item_label"@,
        ) == Some("video"@)),
        item_part(item) matches Some(p) ==> p.text.len() > 0,
{
    tight_text_is_trimmed(said);
    reveal_strlit("wechat_item");
    reveal_strlit("wechat_item_label");
    assert("wechat_item"@.len() != "wechat_item_label"@.len());
    reveal_strlit("[WeChat ");
    reveal_strlit("image");
    reveal_strlit("video");
    reveal_strlit("voice");
    reveal_strlit("file");
    reveal_strlit(" message]");
    reveal_strlit("[WeChat image message]");
    reveal_strlit("[WeChat video message]");
    reveal_strlit("[WeChat voice message]\n");
    reveal_strlit("[WeChat file message: ");
    reveal_strlit("]");
    assert("[WeChat "@ + "image"@ + " message]"@ =~= "[WeChat image message]"@);
    assert("[WeChat "@ + "video"@ + " message]"@ =~= "[WeChat video message]"@);
    match item_part(item) {
        Some(p) => {
            if signed_field(item, "type"@) != Some(1i64) {
                assert(p.extra[0].0 == "wechat_item"@);
                assert(p.extra[1].0 == "wechat_item_label"@);
                first_entry(p.extra, "wechat_item"@, 0);
                first_entry(p.extra, "wechat_item_label"@, 1);
            }
        },
        None => {},
    }
}

/// The messages of an answer are all that it lists, wherever it lists them; one message by itself
/// is one message.
pub proof fn listed_messages_are_all_there(v: JsonV, s: Seq<JsonV>, m: Members)
    ensures
        elements_field(v, "msgs"@) == Some(s) ==> messages_of(v) == s,
        elements_field(v, "msgs"@) is None && elements_field(v, "msg_list"@) == Some(s) ==> messages_of(v)
            == s,
        no_list(v) && field(v, "msg"@) == Some(JsonV::Object(m)) ==> messages_of(v) == seq![
            JsonV::Object(m),
        ],
        no_list(v) && field(v, "msg"@) is None && (field(v, "data"@) matches Some(d) && elements_field(
            d,
            "msgs"@,
        ) == Some(s)) ==> messages_of(v) == s,
        no_list(v) && field(v, "msg"@) is None && field(v, "data"@) is None ==> messages_of(v).len()
            == 0,
        s.len() > 0 && elements_field(v, "msgs"@) == Some(s) ==> brings_messages(v),
        no_list(v) && field(v, "msg"@) is None && field(v, "data"@) is None ==> !brings_messages(v),
{
}

/// Whether none of the names under which messages are listed stands for a list.
pub open spec fn no_list(v: JsonV) -> bool {
    &&& elements_field(v, "msgs"@) is None
    &&& elements_field(v, "msg_list"@) is None
    &&& elements_field(v, "message_list"@) is None
    &&& elements_field(v, "messages"@) is None
    &&& elements_field(v, "updates"@) is None
}

/// The cursor is the one that the answer names, under any of its names, in the answer itself or in
/// its data.
pub proof fn named_cursor_is_found(v: JsonV, c: Seq<char>)
    requires
        c.len() > 0,
        !is_ws(c[0]),
        !is_ws(c.last()),
    ensures
        text_field(v, "get_updates_buf"@) == Some(c) ==> cursor_in(v) == Some(c),
        no_cursor(v) && (field(v, "data"@) matches Some(d) && text_field(d, "get_updates_buf"@)
            == Some(c)) ==> cursor_in(v) == Some(c),
        text_field(v, "get_updates_buf"@) is None && text_field(v, "getUpdatesBuf"@) == Some(c)
            ==> cursor_in(v) == Some(c),
        no_cursor(v) && field(v, "data"@) is None ==> cursor_in(v) is None,
{
    tight_text_is_trimmed(c);
    reveal_with_fuel(first_text, 6);
    let n = cursor_names();
    assert(n.drop_first() =~= seq![
        "getUpdatesBuf"@,
        "next_get_updates_buf"@,
        "nextGetUpdatesBuf"@,
    ]);
    assert(n.drop_first().drop_first() =~= seq!["next_get_updates_buf"@, "nextGetUpdatesBuf"@]);
    assert(n.drop_first().drop_first().drop_first() =~= seq!["nextGetUpdatesBuf"@]);
    assert(n.drop_first().drop_first().drop_first().drop_first() =~= Seq::<Seq<char>>::empty());
}

/// Whether none of the names of a cursor stands for a text.
pub open spec fn no_cursor(v: JsonV) -> bool {
    &&& text_field(v, "get_updates_buf"@) is None
    &&& text_field(v, "getUpdatesBuf"@) is None
    &&& text_field(v, "next_get_updates_buf"@) is None
    &&& text_field(v, "nextGetUpdatesBuf"@) is None
}

/// A message goes by the id that it has.
pub proof fn messages_go_by_their_id(v: JsonV, shown: Seq<char>, id: Seq<char>)
    requires
        id.len() > 0,
    ensures
        field(v, "message_id"@) == Some(JsonV::Str(id)) ==> message_id_of(v, shown) == id,
        field(v, "message_id"@) is None && field(v, "msg_id"@) == Some(JsonV::Str(id)) ==> message_id_of(
            v,
            shown,
        ) == id,
        field(v, "message_id"@) is None && field(v, "msg_id"@) is None && field(v, "msgid"@) == Some(
            JsonV::Str(id),
        ) ==> message_id_of(v, shown) == id,
        field(v, "message_id"@) is None && field(v, "msg_id"@) is None && field(v, "msgid"@) is None
            && field(v, "client_id"@) == Some(JsonV::Str(id)) ==> message_id_of(v, shown) == id,
{
}

// ---------------------------------------------------------------------------------------------
// Answers
// ---------------------------------------------------------------------------------------------

/// An answer goes to the chat that the message names for answers, or else to its sender.
pub proof fn answers_go_to_the_named_chat(meta: Members, to: Seq<char>, fallback: Seq<char>)
    requires
        to.len() > 0,
        !is_ws(to[0]),
        !is_ws(to.last()),
    ensures
        text_of(meta, "reply_to_user_id"@) == Some(to) ==> target_of(meta, fallback) == to && recipient(
            meta,
        ) == Some(to),
        text_of(meta, "reply_to_user_id"@) is None && text_of(meta, "from_user_id"@) == Some(to)
            ==> target_of(meta, fallback) == to,
        lookup(meta, "reply_to_user_id"@) is None && text_of(meta, "from_user_id"@) == Some(to)
            ==> recipient(meta) == Some(to),
        text_of(meta, "reply_to_user_id"@) is None && text_of(meta, "from_user_id"@) is None
            ==> target_of(meta, fallback) == fallback,
{
    tight_text_is_trimmed(to);
}

/// An answer goes with the token that was last seen of its chat, or else with that of the message.
pub proof fn answers_carry_the_token_of_the_chat(
    tokens: Seq<(Seq<char>, Seq<char>)>,
    meta: Members,
    to: Seq<char>,
    token: Seq<char>,
)
    ensures
        lookup(tokens, to) == Some(token) ==> reply_token(tokens, meta, to) == token,
        lookup(tokens, to) is None && text_of(meta, "context_token"@) == Some(token) ==> reply_token(
            tokens,
            meta,
            to,
        ) == token,
        lookup(tokens, to) is None && text_of(meta, "context_token"@) is None ==> reply_token(
            tokens,
            meta,
            to,
        ).len() == 0,
{
}

/// A token is kept for the user that it came with, and for no other.
pub proof fn tokens_are_kept_by_user(
    tokens: Seq<(Seq<char>, Seq<char>)>,
    user: Seq<char>,
    token: Seq<char>,
    other: Seq<char>,
)
    requires
        user.len() > 0,
        token.len() > 0,
        !is_ws(token[0]),
        !is_ws(token.last()),
    ensures
        lookup(with_context_token(tokens, user, token), user) == Some(token),
        other != user ==> lookup(with_context_token(tokens, user, token), other) == lookup(
            tokens,
            other,
        ),
        with_context_token(tokens, user, Seq::empty()) == tokens,
        with_context_token(tokens, Seq::empty(), token) == tokens,
{
    tight_text_is_trimmed(token);
    tight_text_is_trimmed(Seq::empty());
    with_entry_lookup(tokens, user, token, user);
    with_entry_lookup(tokens, user, token, other);
}

/// The text of an answer is sent whole, behind the prefix of the bot where there is one.
pub proof fn answers_are_sent_whole(prefix: Seq<char>, text: Seq<char>)
    ensures
        prefix.len() == 0 ==> reply_body(prefix, text) == text,
        prefix.len() > 0 ==> reply_body(prefix, text) == prefix + "  "@ + text,
        reply_body(prefix, text).len() >= text.len(),
        reply_body(prefix, text).skip(reply_body(prefix, text).len() - text.len()) == text,
{
    let b = reply_body(prefix, text);
    assert(b.skip(b.len() - text.len()) =~= text);
}

// ---------------------------------------------------------------------------------------------
// Tickets
// ---------------------------------------------------------------------------------------------

/// The ticket is the one that the answer names, in itself or in its data.
pub proof fn named_ticket_is_found(v: JsonV, t: Seq<char>)
    requires
        t.len() > 0,
        !is_ws(t[0]),
        !is_ws(t.last()),
    ensures
        field(v, "typing_ticket"@) == Some(JsonV::Str(t)) ==> ticket_in(v) == Some(t),
        field(v, "typing_ticket"@) is None && field2(v, "data"@, "typing_ticket"@) == Some(
            JsonV::Str(t),
        ) ==> ticket_in(v) == Some(t),
        field(v, "typing_ticket"@) is None && field2(v, "data"@, "typing_ticket"@) is None
            ==> ticket_in(v) is None,
{
    tight_text_is_trimmed(t);
}

/// A ticket is used for a day for the user that it was given for; where none was had, none is asked
/// for within a minute, and then again. Other users are not concerned.
pub proof fn tickets_last_a_day(
    m: Seq<(Seq<char>, TicketV)>,
    user: Seq<char>,
    other: Seq<char>,
    t: Seq<char>,
    now: u64,
    at: u64,
)
    requires
        user.len() > 0,
        t.len() > 0,
        !is_ws(t[0]),
        !is_ws(t.last()),
        now <= at,
        now + 86_400_000 <= u64::MAX,
    ensures
        at < now + 86_400_000 ==> ticket_step(with_ticket(m, user, t, now), user, at)
            == TicketStepV::Have(t),
        at >= now + 86_400_000 ==> ticket_step(with_ticket(m, user, t, now), user, at)
            == TicketStepV::Ask,
        at < now + 60_000 ==> ticket_step(with_ticket_failure(m, user, now), user, at)
            == TicketStepV::Skip,
        at >= now + 60_000 ==> ticket_step(with_ticket_failure(m, user, now), user, at)
            == TicketStepV::Ask,
        other != user ==> ticket_step(with_ticket(m, user, t, now), other, at) == ticket_step(
            m,
            other,
            at,
        ),
        lookup(m, user) is None ==> ticket_step(m, user, at) == TicketStepV::Ask,
{
    tight_text_is_trimmed(t);
    let e = TicketV {
        ticket: t,
        expires_at: (now + 86_400_000) as u64,
        refresh_after: now,
    };
    let f = TicketV {
        ticket: Seq::empty(),
        expires_at: now,
        refresh_after: (now + 60_000) as u64,
    };
    with_entry_lookup(m, user, e, user);
    with_entry_lookup(m, user, e, other);
    with_entry_lookup(m, user, f, user);
}

/// A text that was sent is known as such for two minutes, and no longer.
pub proof fn echoes_last_two_minutes(t: u64, now: u64)
    ensures
        is_recent(t, now) <==> now < t + 120_000,
{
}

// ---------------------------------------------------------------------------------------------
// Errors
// ---------------------------------------------------------------------------------------------

/// An answer that names a code other than zero is an error that tells the code and the reason.
pub proof fn codes_tell_errors(v: JsonV, code: i64, shown: Seq<char>, why: Seq<char>)
    requires
        why.len() > 0,
        !is_ws(why[0]),
        !is_ws(why.last()),
    ensures
        signed_field(v, "ret"@) == Some(code) ==> ret_of(v) == Some(code),
        signed_field(v, "ret"@) is None ==> ret_of(v) == signed_field(v, "errcode"@),
        field(v, "errmsg"@) == Some(JsonV::Str(why)) ==> ret_message(v, code, shown) == "ret="@
            + signed_decimal(code as int) + ": "@ + why,
        field(v, "errmsg"@) is None && field(v, "message"@) == Some(JsonV::Str(why)) ==> ret_message(
            v,
            code,
            shown,
        ) == "ret="@ + signed_decimal(code as int) + ": "@ + why,
        field(v, "errmsg"@) is None && field(v, "message"@) is None ==> ret_message(v, code, shown)
            == "ret="@ + signed_decimal(code as int) + ": "@ + ("ilink api error; response="@ + shown),
{
    tight_text_is_trimmed(why);
}

/// A refused login is told from other errors: by the status, or by what the server says of it.
pub proof fn refused_logins_are_told(status: u16, body: Seq<char>, message: Seq<char>, channel: Seq<char>, i: int)
    ensures
        is_auth_error(ErrorV::Api { status: 401, body: body }),
        is_auth_error(ErrorV::Api { status: 403, body: body }),
        status != 401 && status != 403 ==> !is_auth_error(ErrorV::Api { status: status, body: body }),
        occurs_at(ascii_lowered(message), "token"@, i) || occurs_at(
            ascii_lowered(message),
            "expired"@,
            i,
        ) || occurs_at(ascii_lowered(message), "unauthorized"@, i) || occurs_at(
            ascii_lowered(message),
            "invalid"@,
            i,
        ) ==> is_auth_error(ErrorV::Channel { channel: "wechat"@, message: message }),
        channel != "wechat"@ ==> !is_auth_error(ErrorV::Channel { channel: channel, message: message }),
        !is_auth_error(ErrorV::Other(message)),
        !is_auth_error(ErrorV::Json(message)),
        !is_auth_error(ErrorV::Io(message)),
{
}

/// What a log shows of a text is its start, cut where it takes more characters than are to be
/// shown.
pub proof fn previews_are_starts(text: Seq<char>, max: nat)
    ensures
        text.len() <= max ==> previewed(text, max) == text,
        text.len() > max ==> exists|n: int|
            0 <= n <= max && #[trigger] text.take(n) + "..."@ == previewed(text, max),
{
    if text.len() > max {
        let n = fitting(text, max as int);
        fitting_is_longest(text, max as int);
        crate::strs::byte_len_bounds(text.take(n));
        assert(text.take(n) + "..."@ == previewed(text, max));
    }
}

/// What a log shows of a message hides its tokens, keys and texts, and keeps the rest.
pub proof fn secrets_are_hidden(m: Members, i: int)
    requires
        0 <= i < m.len(),
    ensures
        redacted(JsonV::Object(m)) matches JsonV::Object(r) && r.len() == m.len() && r[i].0 == m[i].0,
        ({
            let k = ascii_lowered(m[i].0);
            k == "context_token"@ || k == "bot_token"@ || k == "aes_key"@ || k == "aeskey"@ || k
                == "text"@ || k == "item_list"@ || k == "typing_ticket"@ || k == "qrcode"@ || k
                == "encrypt_query_param"@
        }) ==> (redacted(JsonV::Object(m))->Object_0)[i].1 == JsonV::Str("***"@),
        ascii_lowered(m[i].0) == "ret"@ && m[i].1 is Number ==> (redacted(
            JsonV::Object(m),
        )->Object_0)[i].1 == m[i].1,
{
    reveal_with_fuel(redacted, 2);
    reveal_strlit("ret");
    reveal_strlit("context_token");
    reveal_strlit("typing_ticket");
    reveal_strlit("bot_token");
    reveal_strlit("aes_key");
    reveal_strlit("encrypt_query_param");
    reveal_strlit("qrcode");
    reveal_strlit("text");
    reveal_strlit("item_list");
    reveal_strlit("aeskey");
    assert("ret"@.len() != "context_token"@.len());
    assert("ret"@.len() != "typing_ticket"@.len());
    assert("ret"@.len() != "bot_token"@.len());
    assert("ret"@.len() != "aes_key"@.len());
    assert("ret"@.len() != "encrypt_query_param"@.len());
    assert("ret"@.len() != "qrcode"@.len());
    assert("ret"@.len() != "text"@.len());
    assert("ret"@.len() != "item_list"@.len());
    assert("ret"@.len() != "aeskey"@.len());
}

// ---------------------------------------------------------------------------------------------
// Logging in
// ---------------------------------------------------------------------------------------------

/// A confirmed login gives the token that the server names, and its address and the bot where it
/// names them; an expired one fails; any other is waited for.
pub proof fn logins_give_the_token(v: JsonV, base: Seq<char>, token: Seq<char>, url: Seq<char>)
    requires
        token.len() > 0,
        !is_ws(token[0]),
        !is_ws(token.last()),
    ensures
        text_field(v, "status"@) == Some("confirmed"@) && text_field(v, "bot_token"@) == Some(token)
            ==> (login_step(v, base) matches LoginStepV::Done(l) && l.bot_token == token && (field(
            v,
            "baseurl"@,
        ) == Some(JsonV::Str(url)) ==> l.base_url == url) && (field(v, "baseurl"@) is None && field(
            v,
            "base_url"@,
        ) is None ==> l.base_url == base) && (field(v, "ilink_bot_id"@) == Some(JsonV::Str(token))
            ==> l.bot_user_id == Some(token))),
        text_field(v, "status"@) == Some("confirmed"@) && text_field(v, "bot_token"@) is None
            ==> login_step(v, base) is Fail,
        text_field(v, "status"@) == Some("expired"@) ==> login_step(v, base) is Fail,
        text_field(v, "status"@) == Some("wait"@) ==> login_step(v, base) is Wait,
        text_field(v, "status"@) is None ==> login_step(v, base) is Wait,
{
    reveal_strlit("confirmed");
    reveal_strlit("expired");
    reveal_strlit("wait");
    assert("confirmed"@.len() != "expired"@.len());
    assert("confirmed"@.len() != "wait"@.len());
    assert("expired"@.len() != "wait"@.len());
    tight_text_is_trimmed(token);
    assert("confirmed"@.len() > 0 && "expired"@.len() > 0);
}

/// A token in the file of the account is taken where it is another one than that in use.
pub proof fn newer_token_is_taken(c: ClientV, t: Seq<char>)
    requires
        t.len() > 0,
        !is_ws(t[0]),
        !is_ws(t.last()),
    ensures
        c.token_file is Some && t != c.bot_token ==> token_in_file(c, Some(t)) == Some(t),
        t == c.bot_token ==> token_in_file(c, Some(t)) is None,
        c.token_file is None ==> token_in_file(c, Some(t)) is None,
        token_in_file(c, None) is None,
        token_in_file(c, Some(Seq::empty())) is None,
{
    tight_text_is_trimmed(t);
    tight_text_is_trimmed(Seq::empty());
}

/// Each question adds its interval to the time waited, and nothing else changes.
pub proof fn waiting_adds_up(w: LoginWait)
    requires
        w.waited_ms + w.interval_ms <= u64::MAX,
    ensures
        waited(w).waited_ms == w.waited_ms + w.interval_ms,
        waited(w).interval_ms == w.interval_ms,
        waited(w).max_wait_ms == w.max_wait_ms,
{
}

/// Media is fetched from the store under the parameter that the message gives, or else from the
/// address that it gives; anything else is refused.
pub proof fn media_comes_from_the_store(url: Seq<char>, param: Seq<char>)
    ensures
        param.len() > 0 ==> (media_url(url, param) matches Ok(u) && begins(
            u,
            "https://novac2c.cdn.weixin.qq.com/c2c/download?encrypted_query_param="@,
        )),
        param.len() == 0 && begins(url, "http"@) ==> media_url(url, param) == Ok::<Seq<char>, ErrorV>(
            url,
        ),
        param.len() == 0 && !begins(url, "http"@) ==> media_url(url, param) is Err,
{
    let p = "https://novac2c.cdn.weixin.qq.com/c2c/download?encrypted_query_param="@;
    match media_url(url, param) {
        Ok(u) => {
            if param.len() > 0 {
                assert(u.take(p.len() as int) =~= p);
            }
        },
        Err(_) => {},
    }
}

/// A message is for the bot that it names, under any of the names that the server uses for it; a
/// number is an id, too.
pub proof fn messages_name_their_bot(v: JsonV, bot: Seq<char>, n: u64, shown: Seq<char>)
    requires
        bot.len() > 0,
        !is_ws(bot[0]),
        !is_ws(bot.last()),
    ensures
        text_field(v, "to_user_id"@) == Some(bot) ==> receiver_of(v) == bot,
        text_field(v, "to_user_id"@) is None && text_field(v, "bot_user_id"@) == Some(bot)
            ==> receiver_of(v) == bot,
        text_field(v, "to_user_id"@) is None && text_field(v, "bot_user_id"@) is None && text_field(
            v,
            "botUserId"@,
        ) == Some(bot) ==> receiver_of(v) == bot,
        field(v, "message_id"@) == Some(JsonV::Number(NumberV::Unsigned(n))) ==> message_id_of(v, shown)
            == decimal(n as nat),
{
    tight_text_is_trimmed(bot);
    reveal_with_fuel(first_text, 6);
    let r = receiver_names();
    assert(r.drop_first() =~= seq![
        "bot_user_id"@,
        "botUserId"@,
        "receiver_user_id"@,
        "receiverUserId"@,
    ]);
    assert(r.drop_first().drop_first() =~= seq![
        "botUserId"@,
        "receiver_user_id"@,
        "receiverUserId"@,
    ]);
}

/// The parameter of media is the end of the address that it is fetched from.
pub proof fn media_is_fetched_by_its_parameter(url: Seq<char>, param: Seq<char>)
    requires
        param.len() > 0,
    ensures
        media_url(url, param) == Ok::<Seq<char>, ErrorV>(
            "https://novac2c.cdn.weixin.qq.com/c2c/download?encrypted_query_param="@ + query_text(param),
        ),
{
}

} // verus!
