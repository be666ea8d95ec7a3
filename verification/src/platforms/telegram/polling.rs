//! When to poll again after polling has failed.

use vstd::arithmetic::power2::{lemma2_to64, lemma_pow2_strictly_increases, pow2};
use vstd::prelude::*;

use crate::strs::{contains, holds, lowered, to_lowercase};

verus! {

/// Seconds to wait where nothing is known of what went wrong.
pub const RECONNECT_INITIAL_S: u64 = 2;

/// Seconds to wait where another poller holds the bot.
pub const CONFLICT_RETRY_S: u64 = 10;

/// Seconds to wait after the first of a row of network errors.
pub const NETWORK_RETRY_BASE_S: u64 = 5;

/// Seconds to wait at most after a network error.
pub const NETWORK_RETRY_MAX_S: u64 = 60;

/// How many errors of a kind came in a row.
#[derive(Debug, Clone, Copy, PartialEq, Eq, Structural)]
pub struct ReconnectCounters {
    pub conflict_count: u32,
    pub network_count: u32,
}

impl Default for ReconnectCounters {
    fn default() -> (r: Self)
        ensures
            r == (ReconnectCounters { conflict_count: 0, network_count: 0 }),
    {
        ReconnectCounters { conflict_count: 0, network_count: 0 }
    }
}

impl ReconnectCounters {
    /// The counts can still be raised.
    pub open spec fn has_room(&self) -> bool {
        self.conflict_count < 0xffff_ffff && self.network_count < 0x7fff_ffff
    }
}

/// Whether an error, in lower case, says that another poller holds the bot.
pub open spec fn tells_conflict(t: Seq<char>) -> bool {
    ||| holds(t, "conflict"@)
    ||| holds(t, "terminated by other getupdates request"@)
    ||| holds(t, "another bot instance is running"@)
}

/// Whether an error, in lower case, speaks of the network.
pub open spec fn tells_network(t: Seq<char>) -> bool {
    ||| holds(t, "network"@)
    ||| holds(t, "timed out"@)
    ||| holds(t, "timeout"@)
    ||| holds(t, "connection"@)
    ||| holds(t, "dns"@)
}

/// Whether an error, in lower case, says that another poller holds the bot.
pub fn lowered_conflict(t: &str) -> (r: bool)
    ensures
        r == tells_conflict(t@),
{
    contains(t, "conflict") || contains(t, "terminated by other getupdates request") || contains(
        t,
        "another bot instance is running",
    )
}

/// Whether an error, in lower case, speaks of the network.
pub fn lowered_network(t: &str) -> (r: bool)
    ensures
        r == tells_network(t@),
{
    contains(t, "network") || contains(t, "timed out") || contains(t, "timeout") || contains(
        t,
        "connection",
    ) || contains(t, "dns")
}

/// Whether an error says that another poller holds the bot.
pub fn looks_like_polling_conflict(err: &str) -> (r: bool)
    ensures
        r == tells_conflict(lowered(err@)),
{
    let t: String = to_lowercase(err);
    lowered_conflict(t.as_str())
}

/// Whether an error speaks of the network.
pub fn looks_like_network_error(err: &str) -> (r: bool)
    ensures
        r == tells_network(lowered(err@)),
{
    let t: String = to_lowercase(err);
    lowered_network(t.as_str())
}

/// Seconds to wait after the `attempt`th network error in a row: twice as long as after the one
/// before, up to a limit.
pub open spec fn network_delay(attempt: nat) -> nat {
    let d = NETWORK_RETRY_BASE_S as nat * pow2((attempt - 1) as nat);
    if d < NETWORK_RETRY_MAX_S {
        d
    } else {
        NETWORK_RETRY_MAX_S as nat
    }
}

fn network_wait(attempt: u32) -> (r: u64)
    requires
        attempt >= 1,
    ensures
        r == network_delay(attempt as nat),
{
    proof {
        lemma2_to64();
        if attempt > 5 {
            lemma_pow2_strictly_increases(4, (attempt - 1) as nat);
        }
    }
    if attempt == 1 {
        5
    } else if attempt == 2 {
        10
    } else if attempt == 3 {
        20
    } else if attempt == 4 {
        40
    } else {
        60
    }
}

/// The counters after an error that in lower case is `t`, and the seconds to wait.
pub open spec fn planned(c: ReconnectCounters, t: Seq<char>) -> (ReconnectCounters, nat) {
    if tells_conflict(t) {
        (
            ReconnectCounters {
                conflict_count: (c.conflict_count + 1) as u32,
                network_count: 0,
            },
            CONFLICT_RETRY_S as nat,
        )
    } else if tells_network(t) {
        (
            ReconnectCounters { conflict_count: 0, network_count: (c.network_count + 1) as u32 },
            network_delay((c.network_count + 1) as nat),
        )
    } else {
        (c, RECONNECT_INITIAL_S as nat)
    }
}

/// Counts an error that in lower case is `t`, and says how many seconds to wait.
pub fn plan_lowered(counters: &mut ReconnectCounters, t: &str) -> (r: u64)
    requires
        old(counters).has_room(),
    ensures
        (*final(counters), r as nat) == planned(*old(counters), t@),
{
    if lowered_conflict(t) {
        counters.conflict_count = counters.conflict_count + 1;
        counters.network_count = 0;
        return CONFLICT_RETRY_S;
    }
    if lowered_network(t) {
        counters.network_count = counters.network_count + 1;
        counters.conflict_count = 0;
        return network_wait(counters.network_count);
    }
    RECONNECT_INITIAL_S
}

/// Counts an error, and says how many seconds to wait.
pub fn plan_reconnect_delay(counters: &mut ReconnectCounters, err: &str) -> (r: u64)
    requires
        old(counters).has_room(),
    ensures
        (*final(counters), r as nat) == planned(*old(counters), lowered(err@)),
{
    let t: String = to_lowercase(err);
    plan_lowered(counters, t.as_str())
}

/// Begins to count anew.
pub fn reset_reconnect_counters(counters: &mut ReconnectCounters)
    ensures
        *final(counters) == (ReconnectCounters { conflict_count: 0, network_count: 0 }),
{
    counters.conflict_count = 0;
    counters.network_count = 0;
}

/// What is known of the errors while the bot is polled.
#[derive(Debug)]
pub struct PollingReconnectState {
    pub counters: ReconnectCounters,
    pub last_error: Option<String>,
}

impl PollingReconnectState {
    /// No error yet, after these counts.
    pub fn new(counters: ReconnectCounters) -> (r: PollingReconnectState)
        ensures
            r.counters == counters,
            r.last_error is None,
    {
        PollingReconnectState { counters: counters, last_error: None }
    }

    /// Takes the last error, and says how many seconds to wait after it; `None` where there was no
    /// error, and the usual wait is due.
    pub fn next_delay(&mut self) -> (r: Option<u64>)
        requires
            old(self).counters.has_room(),
        ensures
            final(self).last_error is None,
            match old(self).last_error {
                Some(err) => r matches Some(s) && (final(self).counters, s as nat) == planned(
                    old(self).counters,
                    lowered(err@),
                ),
                None => r is None && final(self).counters == old(self).counters,
            },
    {
        match self.last_error.take() {
            Some(err) => Some(plan_reconnect_delay(&mut self.counters, err.as_str())),
            None => None,
        }
    }

    /// The counts so far.
    pub fn snapshot_counters(&self) -> (r: ReconnectCounters)
        ensures
            r == self.counters,
    {
        self.counters
    }
}

/// What takes in the errors of polling.
#[derive(Debug)]
pub struct ListenerErrorHandler {
    pub state: PollingReconnectState,
}

impl ListenerErrorHandler {
    /// A handler that goes on from this state.
    pub fn new(state: PollingReconnectState) -> (r: ListenerErrorHandler)
        ensures
            r.state == state,
    {
        ListenerErrorHandler { state: state }
    }

    /// Takes in an error, and says how many seconds its kind calls for.
    pub fn handle_error(&mut self, msg: String) -> (r: u64)
        requires
            old(self).state.counters.has_room(),
        ensures
            (final(self).state.counters, r as nat) == planned(
                old(self).state.counters,
                lowered(msg@),
            ),
            final(self).state.last_error == Some(msg),
    {
        let r: u64 = plan_reconnect_delay(&mut self.state.counters, msg.as_str());
        self.state.last_error = Some(msg);
        r
    }
}

/// What follows a round of polling.
#[derive(Debug, Clone, Copy, PartialEq, Eq, Structural)]
pub struct RoundEnd {
    /// The counts for the next round.
    pub counters: ReconnectCounters,
    /// Seconds to wait; `None` for the usual wait.
    pub delay: Option<u64>,
    /// Whether the usual wait grows. It starts anew otherwise.
    pub backs_off: bool,
}

/// Ends a round of polling. An error makes the next wait longer; without one, the counts start
/// anew.
pub fn end_round(state: &mut PollingReconnectState) -> (r: RoundEnd)
    requires
        old(state).counters.has_room(),
    ensures
        match old(state).last_error {
            Some(err) => r == (RoundEnd {
                counters: old(state).counters,
                delay: Some(planned(old(state).counters, lowered(err@)).1 as u64),
                backs_off: true,
            }),
            None => r == (RoundEnd {
                counters: ReconnectCounters { conflict_count: 0, network_count: 0 },
                delay: None,
                backs_off: false,
            }),
        },
{
    let mut counters: ReconnectCounters = state.snapshot_counters();
    let backs_off: bool = state.last_error.is_some();
    let delay: Option<u64> = state.next_delay();
    if !backs_off {
        reset_reconnect_counters(&mut counters);
    }
    RoundEnd { counters: counters, delay: delay, backs_off: backs_off }
}

/// The wait after a network error is never longer than the limit, and the waits of a row never
/// become shorter.
pub proof fn network_waits_grow_to_the_limit(a: nat, b: nat)
    requires
        1 <= a <= b,
    ensures
        NETWORK_RETRY_BASE_S <= network_delay(a) <= network_delay(b) <= NETWORK_RETRY_MAX_S,
{
    lemma2_to64();
    if a < b {
        lemma_pow2_strictly_increases((a - 1) as nat, (b - 1) as nat);
    }
    if a > 1 {
        lemma_pow2_strictly_increases(0, (a - 1) as nat);
    }
    let x = pow2((a - 1) as nat);
    let y = pow2((b - 1) as nat);
    assert(x >= 1);
    assert(5 * x <= 5 * y) by (nonlinear_arith)
        requires
            x <= y,
    ;
}

} // verus!
