//! How urgent a message is, and which conversation it belongs to.

use vstd::prelude::*;

use crate::strs::{begins, concat3, lowered, same, starts_with, to_lowercase, trim, trimmed};

verus! {

/// The priority of an ordinary message. Smaller numbers come first.
pub const PRIORITY_NORMAL: i32 = 20;

/// The priority of a message whose text, trimmed and in lower case, is `q`.
pub open spec fn priority_of(q: Seq<char>) -> i32 {
    if q == "/stop"@ {
        0
    } else if begins(q, "/daemon "@) || q == "/status"@ || q == "/restart"@ || begins(
        q,
        "/approve"@,
    ) || begins(q, "/deny"@) || begins(q, "/answer"@) {
        10
    } else {
        PRIORITY_NORMAL
    }
}

/// The priority of a message whose text, trimmed and in lower case, is `q`.
pub fn priority_of_command(q: &str) -> (r: i32)
    ensures
        r == priority_of(q@),
{
    if same(q, "/stop") {
        return 0;
    }
    if starts_with(q, "/daemon ") || same(q, "/status") || same(q, "/restart") || starts_with(
        q,
        "/approve",
    ) || starts_with(q, "/deny") || starts_with(q, "/answer") {
        return 10;
    }
    PRIORITY_NORMAL
}

/// The priority of a message with the text `query`.
pub fn priority_for_query(query: &str) -> (r: i32)
    ensures
        r == priority_of(lowered(trimmed(query@))),
{
    let q: String = to_lowercase(trim(query));
    priority_of_command(q.as_str())
}

/// The conversation of a sender on a channel.
pub open spec fn session_key_of(channel: Seq<char>, sender_id: Seq<char>) -> Seq<char> {
    channel + ":"@ + sender_id
}

/// The conversation of a sender on a channel.
pub fn session_key(channel: &str, sender_id: &str) -> (r: String)
    ensures
        r@ == session_key_of(channel@, sender_id@),
{
    concat3(channel, ":", sender_id)
}

/// On one channel, two senders never share a conversation.
pub proof fn session_keys_differ(channel: Seq<char>, a: Seq<char>, b: Seq<char>)
    requires
        a != b,
    ensures
        session_key_of(channel, a) != session_key_of(channel, b),
{
    let p = channel + ":"@;
    assert((p + a).skip(p.len() as int) == a);
    assert((p + b).skip(p.len() as int) == b);
}

// ---------------------------------------------------------------------------------------------
// Queues
// ---------------------------------------------------------------------------------------------

/// A queue: the channel, the conversation and the priority of what waits in it.
pub type QueueKey = (String, String, i32);

/// The queues that were opened, in order. Each has a consumer of its own.
pub struct UnifiedQueue {
    pub keys: Vec<QueueKey>,
    /// How many messages can wait in a queue.
    pub capacity: usize,
}

/// What a key holds.
pub type KeyV = (Seq<char>, Seq<char>, i32);

impl View for UnifiedQueue {
    type V = Seq<KeyV>;

    open spec fn view(&self) -> Seq<KeyV> {
        self.keys@.map_values(|k: QueueKey| (k.0@, k.1@, k.2))
    }
}

/// A place in a queue.
#[derive(Debug, Clone, Copy, PartialEq, Eq, Structural)]
pub struct Place {
    /// The number of the queue.
    pub queue: usize,
    /// Whether the queue was opened just now, and needs a consumer.
    pub opened: bool,
}

impl UnifiedQueue {
    /// No queue is open.
    pub fn new(capacity: usize) -> (r: UnifiedQueue)
        ensures
            r@ == Seq::<KeyV>::empty(),
            r.capacity == capacity,
    {
        let r: UnifiedQueue = UnifiedQueue { keys: Vec::new(), capacity: capacity };
        assert(r@ =~= Seq::<KeyV>::empty());
        r
    }

    /// The queue for a message, which is opened where there is none.
    pub fn enqueue(&mut self, channel_id: &str, session_id: &str, priority: i32) -> (r: Place)
        ensures
            final(self).capacity == old(self).capacity,
            r.queue < final(self)@.len(),
            final(self)@[r.queue as int] == (channel_id@, session_id@, priority),
            forall|i: int|
                0 <= i < r.queue ==> #[trigger] final(self)@[i] != (
                    channel_id@,
                    session_id@,
                    priority,
                ),
            r.opened == !old(self)@.contains((channel_id@, session_id@, priority)),
            final(self)@ == if r.opened {
                old(self)@.push((channel_id@, session_id@, priority))
            } else {
                old(self)@
            },
    {
        let ghost key: KeyV = (channel_id@, session_id@, priority);
        let mut i: usize = 0;
        while i < self.keys.len()
            invariant
                i <= self.keys@.len(),
                self@ == old(self)@,
                self.capacity == old(self).capacity,
                key == (channel_id@, session_id@, priority),
                forall|k: int| 0 <= k < i ==> #[trigger] self@[k] != key,
            decreases self.keys@.len() - i,
        {
            let k: &QueueKey = &self.keys[i];
            assert(self@[i as int] == (k.0@, k.1@, k.2));
            if same(k.0.as_str(), channel_id) && same(k.1.as_str(), session_id) && k.2 == priority {
                return Place { queue: i, opened: false };
            }
            i = i + 1;
        }
        self.keys.push((channel_id.to_owned(), session_id.to_owned(), priority));
        assert(self@ =~= old(self)@.push(key));
        Place { queue: i, opened: true }
    }
}

/// A request to stop comes before every other message, and a decision on what an agent waits for
/// comes before every message that is neither. Whatever follows the word does not matter.
pub proof fn urgent_messages_come_first(q: Seq<char>, rest: Seq<char>)
    ensures
        priority_of("/stop"@) < priority_of("/approve"@ + rest) < priority_of("hello"@ + rest),
        priority_of("/approve"@ + rest) == priority_of("/deny"@ + rest),
        priority_of("/answer"@ + rest) == priority_of("/deny"@ + rest),
        priority_of("/status"@) == priority_of("/deny"@ + rest),
        priority_of("/restart"@) == priority_of("/deny"@ + rest),
        priority_of("/daemon "@ + rest) == priority_of("/deny"@ + rest),
        q != "/stop"@ ==> priority_of("/stop"@) < priority_of(q),
        q.len() == 0 || q[0] != '/' ==> priority_of(q) == 20,
        priority_of("/stop"@) == 0,
        priority_of("/deny"@ + rest) == 10,
{
    reveal_strlit("/stop");
    reveal_strlit("/approve");
    reveal_strlit("/deny");
    reveal_strlit("/answer");
    reveal_strlit("/status");
    reveal_strlit("/restart");
    reveal_strlit("/daemon ");
    reveal_strlit("hello");
    assert(("/approve"@ + rest).take(8) =~= "/approve"@);
    assert(("/deny"@ + rest).take(5) =~= "/deny"@);
    assert(("/answer"@ + rest).take(7) =~= "/answer"@);
    assert(("/daemon "@ + rest).take(8) =~= "/daemon "@);
    let h = "hello"@ + rest;
    assert(h[0] == 'h');
    assert(("/approve"@ + rest)[1] != "/stop"@[1]);
    assert(("/deny"@ + rest)[1] != "/stop"@[1]);
    assert(("/answer"@ + rest)[1] != "/stop"@[1]);
    assert(("/daemon "@ + rest)[1] != "/stop"@[1]);
    assert("/status"@.len() != "/stop"@.len());
    assert("/restart"@.len() != "/stop"@.len());
    starts_otherwise(h);
    if q.len() == 0 || q[0] != '/' {
        starts_otherwise(q);
    }
}

proof fn starts_otherwise(q: Seq<char>)
    requires
        q.len() == 0 || q[0] != '/',
    ensures
        priority_of(q) == PRIORITY_NORMAL,
{
    reveal_strlit("/stop");
    reveal_strlit("/approve");
    reveal_strlit("/deny");
    reveal_strlit("/answer");
    reveal_strlit("/status");
    reveal_strlit("/restart");
    reveal_strlit("/daemon ");
    assert("/stop"@[0] == '/' && "/status"@[0] == '/' && "/restart"@[0] == '/');
    assert forall|p: Seq<char>| p.len() > 0 && p[0] == '/' implies !#[trigger] begins(q, p) by {
        if begins(q, p) {
            assert(q.take(p.len() as int)[0] == p[0]);
        }
    }
    assert(!begins(q, "/daemon "@));
    assert(!begins(q, "/approve"@));
    assert(!begins(q, "/deny"@));
    assert(!begins(q, "/answer"@));
}

/// A conversation is known by its channel and its sender: both can be read from its key, where the
/// channel and the sender are told apart by where the channel ends.
pub proof fn session_key_names_channel_and_sender(channel: Seq<char>, sender_id: Seq<char>)
    ensures
        session_key_of(channel, sender_id).take(channel.len() as int) == channel,
        session_key_of(channel, sender_id)[channel.len() as int] == ':',
        session_key_of(channel, sender_id).skip((channel.len() + 1) as int) == sender_id,
{
    reveal_strlit(":");
    let k = session_key_of(channel, sender_id);
    assert(k.take(channel.len() as int) =~= channel);
    assert(k.skip((channel.len() + 1) as int) =~= sender_id);
}

} // verus!
