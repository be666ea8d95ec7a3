//! The order in which a runner asks for messages and works them off.

use vstd::arithmetic::power2::{lemma2_to64, lemma_pow2_strictly_increases};
use vstd::prelude::*;

use crate::platforms::wechat::runner::{backoff, poll_backoff, Intake};

verus! {

/// What became of a message when it was taken in.
#[derive(Debug, Clone, Copy, PartialEq, Eq, Structural)]
pub enum Took {
    /// Nothing is to be done about it.
    Nothing,
    /// Another account runs the same bot.
    Merged,
    /// It is to be answered at once; its pictures are read first where the flag says so.
    Inline(bool),
    /// It is to wait its turn.
    Queue,
}

/// What is being waited for.
#[derive(Debug, Clone, Copy, PartialEq, Eq, Structural)]
pub enum PollPhase {
    Ask,
    Pause,
    Rest,
    Take,
    Images,
    Refuse,
    Deliver,
    Wait,
    Enqueue,
    Keep,
    End,
}

/// How far a runner has come: of the `total` messages that the last poll brought, the first `done`
/// are worked off.
#[derive(Debug, Clone, Copy, PartialEq, Eq, Structural)]
pub struct PollState {
    /// How many polls in a row have failed.
    pub failures: u32,
    pub total: usize,
    pub done: usize,
    pub phase: PollPhase,
}

/// What happened.
#[derive(Debug, Clone, Copy, PartialEq, Eq, Structural)]
pub enum PollEvent {
    /// The poll brought so many messages.
    Got(usize),
    /// The poll failed.
    Failed,
    /// The runner was asked to stop before the poll, during it, or in the pause after it.
    Stopped,
    Paused,
    Rested,
    Took(Took),
    /// Whether the pictures could be read.
    ImagesRead(bool),
    Refused,
    /// Whether the answer was delivered, and whether the runner was asked to stop.
    Delivered { ok: bool, stop: bool },
    Waited,
    Enqueued,
    Kept,
}

/// What is to be done.
#[derive(Debug, Clone, Copy, PartialEq, Eq, Structural)]
pub enum PollAction {
    /// Ask for what came after the cursor.
    Ask,
    /// Pause for so many seconds: the poll failed.
    Pause(u64),
    /// Rest a while: the poll brought nothing.
    Rest,
    /// Take in the message at this place.
    Take(usize),
    /// Read the pictures of the message.
    ReadImages,
    /// Tell the sender that the pictures cannot be read.
    Refuse,
    /// Work on the message and deliver the answer.
    Deliver,
    /// Wait before the message is delivered again.
    Wait,
    /// Let the message wait its turn.
    Enqueue,
    /// All messages are worked off: keep the cursor.
    KeepCursor,
    /// The runner ends, with the cursor as it was.
    Stop,
}

/// Where a runner begins.
pub open spec fn first_step() -> (PollState, PollAction) {
    (PollState { failures: 0, total: 0, done: 0, phase: PollPhase::Ask }, PollAction::Ask)
}

/// What comes once a poll has brought so many messages.
pub open spec fn begun(total: usize) -> (PollState, PollAction) {
    if total == 0 {
        (PollState { failures: 0, total: 0, done: 0, phase: PollPhase::Rest }, PollAction::Rest)
    } else {
        (
            PollState { failures: 0, total: total, done: 0, phase: PollPhase::Take },
            PollAction::Take(0),
        )
    }
}

/// One more failure, as far as they are counted.
pub open spec fn one_more(failures: u32) -> u32 {
    if failures < u32::MAX {
        (failures + 1) as u32
    } else {
        failures
    }
}

/// What comes once a message is worked off: the next one, or else the end.
pub open spec fn next_message(s: PollState) -> (PollState, PollAction) {
    if s.done + 1 < s.total {
        (
            PollState { done: (s.done + 1) as usize, phase: PollPhase::Take, ..s },
            PollAction::Take((s.done + 1) as usize),
        )
    } else {
        (PollState { phase: PollPhase::Keep, ..s }, PollAction::KeepCursor)
    }
}

/// What comes next. What was not waited for ends the runner.
pub open spec fn step_of(s: PollState, event: PollEvent) -> (PollState, PollAction) {
    match (s.phase, event) {
        (PollPhase::Ask, PollEvent::Got(total)) => begun(total),
        (PollPhase::Ask, PollEvent::Failed) => (
            PollState { failures: one_more(s.failures), phase: PollPhase::Pause, ..s },
            PollAction::Pause(backoff(one_more(s.failures) as nat) as u64),
        ),
        (PollPhase::Pause, PollEvent::Paused) => (
            PollState { phase: PollPhase::Ask, ..s },
            PollAction::Ask,
        ),
        (PollPhase::Rest, PollEvent::Rested) => (
            PollState { phase: PollPhase::Keep, ..s },
            PollAction::KeepCursor,
        ),
        (PollPhase::Take, PollEvent::Took(Took::Nothing)) => next_message(s),
        (PollPhase::Take, PollEvent::Took(Took::Inline(true))) => (
            PollState { phase: PollPhase::Images, ..s },
            PollAction::ReadImages,
        ),
        (PollPhase::Take, PollEvent::Took(Took::Inline(false))) => (
            PollState { phase: PollPhase::Deliver, ..s },
            PollAction::Deliver,
        ),
        (PollPhase::Take, PollEvent::Took(Took::Queue)) => (
            PollState { phase: PollPhase::Enqueue, ..s },
            PollAction::Enqueue,
        ),
        (PollPhase::Images, PollEvent::ImagesRead(true)) => (
            PollState { phase: PollPhase::Deliver, ..s },
            PollAction::Deliver,
        ),
        (PollPhase::Images, PollEvent::ImagesRead(false)) => (
            PollState { phase: PollPhase::Refuse, ..s },
            PollAction::Refuse,
        ),
        (PollPhase::Refuse, PollEvent::Refused) => next_message(s),
        (PollPhase::Deliver, PollEvent::Delivered { ok: true, .. }) => next_message(s),
        (PollPhase::Deliver, PollEvent::Delivered { ok: false, stop: false }) => (
            PollState { phase: PollPhase::Wait, ..s },
            PollAction::Wait,
        ),
        (PollPhase::Wait, PollEvent::Waited) => (
            PollState { phase: PollPhase::Deliver, ..s },
            PollAction::Deliver,
        ),
        (PollPhase::Enqueue, PollEvent::Enqueued) => next_message(s),
        (PollPhase::Keep, PollEvent::Kept) => (
            PollState { phase: PollPhase::Ask, ..s },
            PollAction::Ask,
        ),
        _ => (PollState { phase: PollPhase::End, ..s }, PollAction::Stop),
    }
}

/// What became of a message when it was taken in.
pub fn took(intake: &Intake) -> (r: Took)
    ensures
        r == match intake {
            Intake::Ignored | Intake::Echo | Intake::Duplicate => Took::Nothing,
            Intake::Merged(_) => Took::Merged,
            Intake::Inline(_, read) => Took::Inline(*read),
            Intake::Taken(_) => Took::Queue,
        },
{
    match intake {
        Intake::Ignored | Intake::Echo | Intake::Duplicate => Took::Nothing,
        Intake::Merged(_) => Took::Merged,
        Intake::Inline(_, read) => Took::Inline(*read),
        Intake::Taken(_) => Took::Queue,
    }
}

fn begin_messages(total: usize) -> (r: (PollState, PollAction))
    ensures
        r == begun(total),
{
    if total == 0 {
        (PollState { failures: 0, total: 0, done: 0, phase: PollPhase::Rest }, PollAction::Rest)
    } else {
        (
            PollState { failures: 0, total: total, done: 0, phase: PollPhase::Take },
            PollAction::Take(0),
        )
    }
}

fn count_failure(s: PollState) -> (r: (PollState, PollAction))
    ensures
        r == (
            PollState { failures: one_more(s.failures), phase: PollPhase::Pause, ..s },
            PollAction::Pause(backoff(one_more(s.failures) as nat) as u64),
        ),
{
    let failures: u32 = if s.failures < u32::MAX {
        s.failures + 1
    } else {
        s.failures
    };
    (
        PollState { failures: failures, total: s.total, done: s.done, phase: PollPhase::Pause },
        PollAction::Pause(poll_backoff(failures)),
    )
}

fn in_phase(s: PollState, phase: PollPhase, action: PollAction) -> (r: (PollState, PollAction))
    ensures
        r == (PollState { phase: phase, ..s }, action),
{
    (PollState { failures: s.failures, total: s.total, done: s.done, phase: phase }, action)
}

fn to_next(s: PollState) -> (r: (PollState, PollAction))
    ensures
        r == next_message(s),
{
    if s.total > 0 && s.done < s.total - 1 {
        let at: usize = s.done + 1;
        (
            PollState { failures: s.failures, total: s.total, done: at, phase: PollPhase::Take },
            PollAction::Take(at),
        )
    } else {
        in_phase(s, PollPhase::Keep, PollAction::KeepCursor)
    }
}

/// What comes next. What was not waited for ends the runner.
pub fn poll_step(state: PollState, event: PollEvent) -> (r: (PollState, PollAction))
    ensures
        r == step_of(state, event),
{
    let s: PollState = state;
    match (s.phase, event) {
        (PollPhase::Ask, PollEvent::Got(total)) => begin_messages(total),
        (PollPhase::Ask, PollEvent::Failed) => count_failure(s),
        (PollPhase::Pause, PollEvent::Paused) => in_phase(s, PollPhase::Ask, PollAction::Ask),
        (PollPhase::Rest, PollEvent::Rested) => in_phase(
            s,
            PollPhase::Keep,
            PollAction::KeepCursor,
        ),
        (PollPhase::Take, PollEvent::Took(Took::Nothing)) => to_next(s),
        (PollPhase::Take, PollEvent::Took(Took::Inline(read))) => if read {
            in_phase(s, PollPhase::Images, PollAction::ReadImages)
        } else {
            in_phase(s, PollPhase::Deliver, PollAction::Deliver)
        },
        (PollPhase::Take, PollEvent::Took(Took::Queue)) => in_phase(
            s,
            PollPhase::Enqueue,
            PollAction::Enqueue,
        ),
        (PollPhase::Images, PollEvent::ImagesRead(ok)) => if ok {
            in_phase(s, PollPhase::Deliver, PollAction::Deliver)
        } else {
            in_phase(s, PollPhase::Refuse, PollAction::Refuse)
        },
        (PollPhase::Refuse, PollEvent::Refused) => to_next(s),
        (PollPhase::Deliver, PollEvent::Delivered { ok, stop }) => if ok {
            to_next(s)
        } else if stop {
            in_phase(s, PollPhase::End, PollAction::Stop)
        } else {
            in_phase(s, PollPhase::Wait, PollAction::Wait)
        },
        (PollPhase::Wait, PollEvent::Waited) => in_phase(
            s,
            PollPhase::Deliver,
            PollAction::Deliver,
        ),
        (PollPhase::Enqueue, PollEvent::Enqueued) => to_next(s),
        (PollPhase::Keep, PollEvent::Kept) => in_phase(s, PollPhase::Ask, PollAction::Ask),
        _ => in_phase(s, PollPhase::End, PollAction::Stop),
    }
}

// ---------------------------------------------------------------------------------------------
// Laws
// ---------------------------------------------------------------------------------------------

/// Whether the event can follow the action: it says that the action was carried out, or that the
/// runner was asked to stop meanwhile.
pub open spec fn answers(action: PollAction, event: PollEvent) -> bool {
    match action {
        PollAction::Ask => event is Got || event is Failed || event is Stopped,
        PollAction::Pause(_) => event is Paused || event is Stopped,
        PollAction::Rest => event is Rested,
        PollAction::Take(_) => event is Took,
        PollAction::ReadImages => event is ImagesRead,
        PollAction::Refuse => event is Refused,
        PollAction::Deliver => event is Delivered,
        PollAction::Wait => event is Waited,
        PollAction::Enqueue => event is Enqueued,
        PollAction::KeepCursor => event is Kept,
        PollAction::Stop => false,
    }
}

/// Where a runner stands after what happened.
pub open spec fn after(events: Seq<PollEvent>) -> (PollState, PollAction)
    decreases events.len(),
{
    if events.len() == 0 {
        first_step()
    } else {
        step_of(after(events.drop_last()).0, events.last())
    }
}

/// Each event can follow the action before it.
pub open spec fn in_order(events: Seq<PollEvent>) -> bool
    decreases events.len(),
{
    events.len() > 0 ==> in_order(events.drop_last()) && answers(
        after(events.drop_last()).1,
        events.last(),
    )
}

/// Whether a message is worked off with this event: nothing was to be done about it, its sender was
/// told that its pictures cannot be read, its answer was delivered, or it waits its turn.
pub open spec fn works_off(event: PollEvent) -> bool {
    match event {
        PollEvent::Took(t) => t == Took::Nothing,
        PollEvent::Refused | PollEvent::Enqueued => true,
        PollEvent::Delivered { ok, .. } => ok,
        _ => false,
    }
}

/// How many messages the last poll brought.
pub open spec fn brought(events: Seq<PollEvent>) -> usize
    decreases events.len(),
{
    if events.len() == 0 {
        0
    } else {
        match events.last() {
            PollEvent::Got(n) => n,
            _ => brought(events.drop_last()),
        }
    }
}

/// With which events the messages of the last poll were worked off: the first message with the first
/// of them, and so on.
pub open spec fn fates(events: Seq<PollEvent>) -> Seq<PollEvent>
    decreases events.len(),
{
    if events.len() == 0 || events.last() is Got {
        Seq::empty()
    } else if works_off(events.last()) {
        fates(events.drop_last()).push(events.last())
    } else {
        fates(events.drop_last())
    }
}

/// Whether the last event was the one with which all messages of the poll were worked off; where the
/// poll brought none, the rest after it.
pub open spec fn finishes(events: Seq<PollEvent>) -> bool {
    &&& events.len() > 0
    &&& works_off(events.last()) || events.last() is Rested
    &&& fates(events).len() == brought(events)
}

/// Whether the action is work on a message.
pub open spec fn is_about_a_message(action: PollAction) -> bool {
    match action {
        PollAction::Take(_)
        | PollAction::ReadImages
        | PollAction::Refuse
        | PollAction::Deliver
        | PollAction::Wait
        | PollAction::Enqueue => true,
        _ => false,
    }
}

/// What is being waited for goes with what is to be done.
spec fn fits(s: PollState, action: PollAction) -> bool {
    match action {
        PollAction::Ask => s.phase == PollPhase::Ask,
        PollAction::Pause(_) => s.phase == PollPhase::Pause,
        PollAction::Rest => s.phase == PollPhase::Rest,
        PollAction::Take(i) => s.phase == PollPhase::Take && i == s.done,
        PollAction::ReadImages => s.phase == PollPhase::Images,
        PollAction::Refuse => s.phase == PollPhase::Refuse,
        PollAction::Deliver => s.phase == PollPhase::Deliver,
        PollAction::Wait => s.phase == PollPhase::Wait,
        PollAction::Enqueue => s.phase == PollPhase::Enqueue,
        PollAction::KeepCursor => s.phase == PollPhase::Keep,
        PollAction::Stop => s.phase == PollPhase::End,
    }
}

proof fn counts_agree(events: Seq<PollEvent>)
    requires
        in_order(events),
    ensures
        ({
            let (s, action) = after(events);
            &&& fits(s, action)
            &&& s.total == brought(events)
            &&& is_about_a_message(action) ==> s.done == fates(events).len() && s.done < s.total
            &&& action is Rest ==> s.total == 0 && fates(events).len() == 0
            &&& action is KeepCursor <==> finishes(events)
            &&& fates(events).len() <= s.total
        }),
    decreases events.len(),
{
    if events.len() > 0 {
        counts_agree(events.drop_last());
    }
}

/// The cursor is kept exactly when all messages of the poll are worked off, after a rest where there
/// are none.
pub proof fn cursor_is_kept_once_all_is_worked_off(events: Seq<PollEvent>)
    requires
        in_order(events),
    ensures
        after(events).1 is KeepCursor <==> finishes(events),
{
    counts_agree(events);
}

/// The messages are worked off one after another: what is being done is about the first one that is
/// not worked off.
pub proof fn messages_are_worked_off_in_order(events: Seq<PollEvent>)
    requires
        in_order(events),
    ensures
        is_about_a_message(after(events).1) ==> after(events).0.done == fates(events).len()
            && fates(events).len() < brought(events),
        after(events).1 matches PollAction::Take(i) ==> i == fates(events).len(),
{
    counts_agree(events);
}

/// Each message that is worked off was nothing to act on, refused to its sender for its pictures,
/// answered with success, or put where it waits its turn; the last of these only where a message was
/// to wait.
pub proof fn fates_are_ends(events: Seq<PollEvent>)
    requires
        in_order(events),
    ensures
        forall|i: int| 0 <= i < fates(events).len() ==> works_off(#[trigger] fates(events)[i]),
        !events.contains(PollEvent::Took(Took::Queue)) ==> forall|i: int|
            0 <= i < fates(events).len() ==> !(#[trigger] fates(events)[i] is Enqueued),
    decreases events.len(),
{
    if events.len() > 0 {
        let before = events.drop_last();
        fates_are_ends(before);
        counts_agree(before);
        if !events.contains(PollEvent::Took(Took::Queue)) {
            assert(!before.contains(PollEvent::Took(Took::Queue))) by {
                if before.contains(PollEvent::Took(Took::Queue)) {
                    let i = choose|i: int|
                        0 <= i < before.len() && before[i] == PollEvent::Took(Took::Queue);
                    assert(events[i] == PollEvent::Took(Took::Queue));
                }
            }
            if after(before).1 is Enqueue {
                only_what_waits_is_enqueued(before);
            }
        }
    }
}

/// Where no message waits its turn, the cursor is kept only once each message of the poll, in order,
/// was nothing to act on, was refused to its sender for its pictures, or was answered with success.
pub proof fn inline_cursor_is_kept_once_each_message_is_answered(events: Seq<PollEvent>)
    requires
        in_order(events),
        !events.contains(PollEvent::Took(Took::Queue)),
        after(events).1 is KeepCursor,
    ensures
        fates(events).len() == brought(events),
        forall|i: int|
            0 <= i < brought(events) ==> match #[trigger] fates(events)[i] {
                PollEvent::Took(t) => t == Took::Nothing,
                PollEvent::Refused => true,
                PollEvent::Delivered { ok, .. } => ok,
                _ => false,
            },
{
    counts_agree(events);
    fates_are_ends(events);
}

proof fn only_what_waits_is_enqueued(events: Seq<PollEvent>)
    requires
        in_order(events),
        after(events).1 is Enqueue,
    ensures
        events.contains(PollEvent::Took(Took::Queue)),
{
    counts_agree(events.drop_last());
    assert(events.last() == PollEvent::Took(Took::Queue));
    assert(events[events.len() - 1] == events.last());
}

/// A runner that ends in the midst of a poll has messages left, which the old cursor brings again.
pub proof fn stopping_leaves_messages(events: Seq<PollEvent>)
    requires
        in_order(events),
        events.len() > 0,
        is_about_a_message(after(events.drop_last()).1),
        after(events).1 is Stop,
    ensures
        fates(events).len() < brought(events),
        !finishes(events),
{
    counts_agree(events.drop_last());
    counts_agree(events);
}

/// A message that could not be delivered is delivered again, for as long as nobody asks the runner to
/// stop.
pub proof fn failed_delivery_is_tried_again(events: Seq<PollEvent>)
    requires
        in_order(events),
        after(events).1 is Deliver,
    ensures
        ({
            let failed = events.push(PollEvent::Delivered { ok: false, stop: false });
            &&& in_order(failed.push(PollEvent::Waited))
            &&& after(failed.push(PollEvent::Waited)) == after(events)
        }),
{
    reveal_with_fuel(in_order, 3);
    reveal_with_fuel(after, 3);
    counts_agree(events);
    let failed = events.push(PollEvent::Delivered { ok: false, stop: false });
    let again = failed.push(PollEvent::Waited);
    assert(failed.drop_last() == events);
    assert(again.drop_last() == failed);
}

/// A runner ends only where it was asked to stop, or another account runs the same bot.
pub proof fn runner_ends_only_when_asked_or_merged(events: Seq<PollEvent>)
    requires
        in_order(events),
        after(events).1 is Stop,
    ensures
        events.last() == PollEvent::Stopped || events.last() == PollEvent::Took(Took::Merged)
            || events.last() == (PollEvent::Delivered { ok: false, stop: true }),
{
    counts_agree(events.drop_last());
}

/// How many polls in a row have failed, with nothing but pauses between them.
pub open spec fn failed_in_a_row(events: Seq<PollEvent>) -> nat
    decreases events.len(),
{
    if events.len() == 0 {
        0
    } else {
        match events.last() {
            PollEvent::Got(_) => 0,
            PollEvent::Failed => failed_in_a_row(events.drop_last()) + 1,
            _ => failed_in_a_row(events.drop_last()),
        }
    }
}

proof fn failures_are_counted(events: Seq<PollEvent>)
    requires
        in_order(events),
    ensures
        after(events).0.failures == if failed_in_a_row(events) < u32::MAX {
            failed_in_a_row(events)
        } else {
            u32::MAX as nat
        },
    decreases events.len(),
{
    if events.len() > 0 {
        failures_are_counted(events.drop_last());
        counts_agree(events.drop_last());
    }
}

/// After a failed poll the runner pauses the longer the more polls in a row have failed, and then
/// asks again.
pub proof fn failed_poll_is_tried_again(events: Seq<PollEvent>)
    requires
        in_order(events),
        after(events).1 is Ask,
    ensures
        ({
            let failed = events.push(PollEvent::Failed);
            &&& after(failed).1 == PollAction::Pause(backoff(failed_in_a_row(failed)) as u64)
            &&& in_order(failed.push(PollEvent::Paused))
            &&& after(failed.push(PollEvent::Paused)).1 is Ask
        }),
{
    reveal_with_fuel(in_order, 3);
    reveal_with_fuel(after, 3);
    counts_agree(events);
    failures_are_counted(events);
    let failed = events.push(PollEvent::Failed);
    let again = failed.push(PollEvent::Paused);
    assert(failed.drop_last() == events);
    assert(again.drop_last() == failed);
    backoff_is_settled(failed_in_a_row(failed));
    backoff_is_settled(after(failed).0.failures as nat);
}

/// From the sixth failure on the pause is the longest one.
proof fn backoff_is_settled(failures: nat)
    ensures
        failures >= 6 ==> backoff(failures) == 120,
{
    if failures >= 6 {
        lemma2_to64();
        if failures > 6 {
            lemma_pow2_strictly_increases(5, (failures - 1) as nat);
        }
    }
}

/// A message is handed on as it was taken: its pictures are read first where it has some, it is refused
/// where they cannot be read, and it waits in the queue where it is not answered at once. Each of these
/// ends leads to the next message or, after the last one, to the cursor.
pub proof fn messages_are_handed_on_as_they_were_taken(events: Seq<PollEvent>)
    requires
        in_order(events),
    ensures
        after(events).1 is Take ==> {
            &&& after(events.push(PollEvent::Took(Took::Inline(true)))).1 is ReadImages
            &&& after(events.push(PollEvent::Took(Took::Inline(false)))).1 is Deliver
            &&& after(events.push(PollEvent::Took(Took::Queue))).1 is Enqueue
            &&& goes_on(events, PollEvent::Took(Took::Nothing))
        },
        after(events).1 is ReadImages ==> {
            &&& after(events.push(PollEvent::ImagesRead(true))).1 is Deliver
            &&& after(events.push(PollEvent::ImagesRead(false))).1 is Refuse
        },
        after(events).1 is Refuse ==> goes_on(events, PollEvent::Refused),
        after(events).1 is Deliver ==> {
            &&& goes_on(events, PollEvent::Delivered { ok: true, stop: false })
            &&& after(events.push(PollEvent::Delivered { ok: false, stop: false })).1 is Wait
            &&& after(events.push(PollEvent::Delivered { ok: false, stop: true })).1 is Stop
        },
        after(events).1 is Enqueue ==> goes_on(events, PollEvent::Enqueued),
        after(events).1 is Ask ==> {
            &&& after(events.push(PollEvent::Got(0))).1 is Rest
            &&& forall|n: usize|
                n > 0 ==> (#[trigger] after(events.push(PollEvent::Got(n)))).1 == PollAction::Take(0)
        },
        after(events).1 is Rest ==> after(events.push(PollEvent::Rested)).1 is KeepCursor,
        after(events).1 is KeepCursor ==> after(events.push(PollEvent::Kept)).1 is Ask,
{
    counts_agree(events);
    assert forall|e: PollEvent| (#[trigger] events.push(e)).drop_last() == events by {
        assert(events.push(e).drop_last() =~= events);
    }
    assert forall|e: PollEvent| (#[trigger] events.push(e)).last() == e by {}
}

/// Whether an event leads to the message after the one at hand or, after the last one, to the
/// cursor.
pub open spec fn goes_on(events: Seq<PollEvent>, event: PollEvent) -> bool {
    let s = after(events).0;
    after(events.push(event)).1 == if s.done + 1 < s.total {
        PollAction::Take((s.done + 1) as usize)
    } else {
        PollAction::KeepCursor
    }
}

} // verus!
