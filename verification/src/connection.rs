//! Connection status of the front end: how socket state changes and agent lifecycle
//! events update it, the reconnect schedule with its backoff, and what the status
//! bar shows for it.
use vstd::prelude::*;
use crate::events::UiEvent;
use crate::rpc::{ConnectionState, SessionListEntry};
use crate::conversation::{ConversationState, entries_of, set_entries};
use crate::sessions::{SessionEntry, session_entries_to_conversation, session_timeline};
use crate::text::{owned, concat3, decimal, two_digits, spec_decimal, spec_zero_pad};

verus! {

/// Reconnect attempts before giving up.
pub const MAX_ATTEMPTS: u32 = 10;
/// Delay before the first attempt, in seconds.
pub const MIN_DELAY: u64 = 3;
/// Longest delay between attempts, in seconds.
pub const MAX_DELAY: u64 = 30;

/// Connection and run status shared by the front end.
#[derive(Clone, Debug)]
pub struct GlobalState {
    pub ws_url: String,
    pub ws_connected: bool,
    pub ws_last_error: Option<String>,
    pub is_running: bool,
    pub reconnecting: bool,
    pub reconnect_attempts: u32,
    pub reconnect_maxed: bool,
    pub reconnect_delay_secs: u32,
    pub run_count: u64,
    pub iteration: u32,
    pub tool_call_count: u32,
}

/// Optional text as a value.
pub open spec fn opt_text(s: Option<String>) -> Option<Seq<char>> {
    match s {
        Some(x) => Some(x@),
        None => None,
    }
}

/// `a` and `b` agree on everything but the connection fields.
pub open spec fn same_run(a: GlobalState, b: GlobalState) -> bool {
    &&& a.ws_url == b.ws_url
    &&& a.run_count == b.run_count
    &&& a.iteration == b.iteration
    &&& a.tool_call_count == b.tool_call_count
    &&& a.reconnect_delay_secs == b.reconnect_delay_secs
}

/// The UI event published for a socket state change.
pub open spec fn state_event(cs: ConnectionState, e: UiEvent) -> bool {
    match cs {
        ConnectionState::Connected => e is WsConnected,
        ConnectionState::Connecting => e is WsConnecting,
        ConnectionState::Disconnected => (e matches UiEvent::WsDisconnected { reason }
            && opt_text(reason) == Some("Disconnected"@)),
    }
}

impl GlobalState {
    /// Initial status: not connected, nothing run yet.
    pub fn new(ws_url: String) -> (g: Self)
        ensures
            g.ws_url == ws_url,
            !g.ws_connected,
            g.ws_last_error is None,
            !g.is_running,
            !g.reconnecting,
            g.reconnect_attempts == 0,
            !g.reconnect_maxed,
            g.reconnect_delay_secs == 0,
            g.run_count == 0,
            g.iteration == 0,
            g.tool_call_count == 0,
    {
        GlobalState {
            ws_url,
            ws_connected: false,
            ws_last_error: None,
            is_running: false,
            reconnecting: false,
            reconnect_attempts: 0,
            reconnect_maxed: false,
            reconnect_delay_secs: 0,
            run_count: 0,
            iteration: 0,
            tool_call_count: 0,
        }
    }

    /// Apply a socket state change and return the UI event to publish for it.
    /// Connecting clears the connected flag; connected clears the error and the
    /// reconnect state; a disconnect records the error, stops the run and starts
    /// reconnecting unless already reconnecting or given up.
    pub fn on_connection_state(&mut self, cs: ConnectionState) -> (e: UiEvent)
        ensures
            state_event(cs, e),
            same_run(*old(self), *final(self)),
            match cs {
                ConnectionState::Connected => {
                    &&& final(self).ws_connected
                    &&& final(self).ws_last_error is None
                    &&& final(self).is_running == old(self).is_running
                    &&& !final(self).reconnecting
                    &&& final(self).reconnect_attempts == 0
                    &&& !final(self).reconnect_maxed
                },
                ConnectionState::Connecting => {
                    &&& !final(self).ws_connected
                    &&& final(self).ws_last_error == old(self).ws_last_error
                    &&& final(self).is_running == old(self).is_running
                    &&& final(self).reconnecting == old(self).reconnecting
                    &&& final(self).reconnect_attempts == old(self).reconnect_attempts
                    &&& final(self).reconnect_maxed == old(self).reconnect_maxed
                },
                ConnectionState::Disconnected => {
                    &&& !final(self).ws_connected
                    &&& opt_text(final(self).ws_last_error) == Some("Disconnected"@)
                    &&& !final(self).is_running
                    &&& final(self).reconnect_maxed == old(self).reconnect_maxed
                    &&& if !old(self).reconnecting && !old(self).reconnect_maxed {
                        final(self).reconnecting && final(self).reconnect_attempts == 0
                    } else {
                        final(self).reconnecting == old(self).reconnecting
                            && final(self).reconnect_attempts == old(self).reconnect_attempts
                    }
                },
            },
    {
        match cs {
            ConnectionState::Connected => {
                self.ws_connected = true;
                self.ws_last_error = None;
                self.reconnecting = false;
                self.reconnect_attempts = 0;
                self.reconnect_maxed = false;
                UiEvent::WsConnected
            },
            ConnectionState::Connecting => {
                self.ws_connected = false;
                UiEvent::WsConnecting
            },
            ConnectionState::Disconnected => {
                self.ws_connected = false;
                self.ws_last_error = Some(owned("Disconnected"));
                self.is_running = false;
                if !self.reconnecting && !self.reconnect_maxed {
                    self.reconnecting = true;
                    self.reconnect_attempts = 0;
                }
                UiEvent::WsDisconnected { reason: Some(owned("Disconnected")) }
            },
        }
    }

    /// Apply an agent lifecycle event: a start counts a new run and resets the
    /// iteration and tool counters; completion, abort and error end the run; a
    /// completed iteration records its number. Other events change nothing.
    pub fn on_ui_event(&mut self, e: &UiEvent)
        requires
            old(self).run_count < u64::MAX,
        ensures
            match *e {
                UiEvent::AgentStart { .. } => {
                    &&& final(self).run_count == old(self).run_count + 1
                    &&& final(self).iteration == 0
                    &&& final(self).tool_call_count == 0
                    &&& final(self).is_running
                },
                UiEvent::AgentComplete { .. } | UiEvent::AgentAborted { .. } | UiEvent::AgentError { .. } => {
                    &&& final(self).run_count == old(self).run_count
                    &&& final(self).iteration == old(self).iteration
                    &&& final(self).tool_call_count == old(self).tool_call_count
                    &&& !final(self).is_running
                },
                UiEvent::IterationComplete { iteration, .. } => {
                    &&& final(self).run_count == old(self).run_count
                    &&& final(self).iteration == iteration
                    &&& final(self).tool_call_count == old(self).tool_call_count
                    &&& final(self).is_running == old(self).is_running
                },
                _ => {
                    &&& final(self).run_count == old(self).run_count
                    &&& final(self).iteration == old(self).iteration
                    &&& final(self).tool_call_count == old(self).tool_call_count
                    &&& final(self).is_running == old(self).is_running
                },
            },
            final(self).ws_url == old(self).ws_url,
            final(self).ws_connected == old(self).ws_connected,
            final(self).ws_last_error == old(self).ws_last_error,
            final(self).reconnecting == old(self).reconnecting,
            final(self).reconnect_attempts == old(self).reconnect_attempts,
            final(self).reconnect_maxed == old(self).reconnect_maxed,
            final(self).reconnect_delay_secs == old(self).reconnect_delay_secs,
    {
        match e {
            UiEvent::AgentStart { .. } => {
                self.run_count = self.run_count + 1;
                self.iteration = 0;
                self.tool_call_count = 0;
                self.is_running = true;
            },
            UiEvent::AgentComplete { .. } | UiEvent::AgentAborted { .. } | UiEvent::AgentError { .. } => {
                self.is_running = false;
            },
            UiEvent::IterationComplete { iteration, .. } => {
                self.iteration = *iteration;
            },
            _ => {},
        }
    }
}

/// `2^n`.
pub open spec fn pow2(n: nat) -> nat
    decreases n,
{
    if n == 0 {
        1
    } else {
        2 * pow2((n - 1) as nat)
    }
}

/// Delay before reconnect attempt `attempt` (from 1): `min(3 * 2^(attempt - 1), 30)` seconds.
pub open spec fn spec_backoff(attempt: nat) -> nat {
    let d: nat = (MIN_DELAY as nat) * pow2((attempt - 1) as nat);
    if d < MAX_DELAY { d } else { MAX_DELAY as nat }
}

proof fn lemma_pow2_mono(a: nat, b: nat)
    requires
        a <= b,
    ensures
        1 <= pow2(a) <= pow2(b),
    decreases b,
{
    if a < b {
        lemma_pow2_mono(a, (b - 1) as nat);
    } else if a > 0 {
        lemma_pow2_mono((a - 1) as nat, (a - 1) as nat);
    }
}

proof fn lemma_pow2_grows(n: nat)
    ensures
        pow2(n) >= 1,
        n >= 4 ==> pow2(n) >= 16,
{
    lemma_pow2_mono(0, n);
    if n >= 4 {
        reveal_with_fuel(pow2, 5);
        assert(pow2(4) == 16);
        lemma_pow2_mono(4, n);
    }
}

/// Delay in seconds before reconnect attempt `attempt`, doubling from 3 up to 30.
pub fn backoff_delay(attempt: u32) -> (d: u64)
    requires
        1 <= attempt <= MAX_ATTEMPTS,
    ensures
        d == spec_backoff(attempt as nat),
{
    let mut d: u64 = MIN_DELAY;
    let mut i: u32 = 1;
    while i < attempt
        invariant
            1 <= i <= attempt <= MAX_ATTEMPTS,
            d == MIN_DELAY * pow2((i - 1) as nat),
            d <= 3 * 512,
        decreases attempt - i,
    {
        proof {
            lemma_pow2_grows((i - 1) as nat);
            assert(pow2(i as nat) == 2 * pow2((i - 1) as nat));
            lemma_pow2_bound(i as nat);
        }
        d = d * 2;
        i = i + 1;
    }
    if d < MAX_DELAY { d } else { MAX_DELAY }
}

proof fn lemma_pow2_bound(n: nat)
    requires
        n <= 9,
    ensures
        pow2(n) <= 512,
{
    reveal_with_fuel(pow2, 10);
    assert(pow2(9) == 512);
    lemma_pow2_mono(n, 9);
}

/// The reconnect delays stay between 3 and 30 seconds, never shrink from one attempt
/// to the next, and are 30 seconds from the fifth attempt on.
pub proof fn lemma_backoff_schedule(a: nat, b: nat)
    requires
        1 <= a <= b,
    ensures
        MIN_DELAY <= spec_backoff(a) <= MAX_DELAY,
        spec_backoff(a) <= spec_backoff(b),
        a >= 5 ==> spec_backoff(a) == MAX_DELAY,
    decreases b - a,
{
    lemma_pow2_grows((a - 1) as nat);
    if a < b {
        lemma_backoff_schedule(a, (b - 1) as nat);
        assert(pow2((b - 1) as nat) == 2 * pow2((b - 2) as nat));
        lemma_pow2_grows((b - 2) as nat);
    }
}

/// Where the reconnect loop stands.
#[derive(Clone, Copy, Debug, PartialEq, Eq, Structural)]
pub enum ReconnectPhase {
    /// Waiting for the reconnect flag.
    Waiting,
    /// About to announce attempt `attempt`.
    Attempt { attempt: u32 },
    /// Counting down: `remaining` seconds before the attempt.
    Countdown { attempt: u32, remaining: u64 },
    /// One second of the countdown has passed.
    AfterTick { attempt: u32, remaining: u64 },
    /// The countdown is over: reconnect now.
    Connect { attempt: u32 },
    /// Waiting for the new socket to connect; `polls` checks done so far.
    Awaiting { attempt: u32, polls: u32 },
    /// A check interval has passed.
    AfterPoll { attempt: u32, polls: u32 },
    /// Every attempt failed.
    GiveUp,
    /// The loop is over.
    Finished,
}

/// What the reconnect loop asks of its runner after a step.
#[derive(Debug)]
pub enum ReconnectAction {
    /// Take the next step at once.
    Continue,
    /// Sleep this many milliseconds, then take the next step.
    Sleep(u32),
    /// Publish this event, then take the next step.
    Publish(UiEvent),
    /// Replace the socket with a new one, then take the next step.
    CallReconnect,
    /// The loop is over.
    Stop,
}

/// Checks for the new socket after an attempt, 100 ms apart.
pub const CONNECT_POLLS: u32 = 50;

/// The phase is one the loop can be in: attempts run from 1 to 10, a countdown
/// from the attempt's delay down to 1, and checks up to 50.
pub open spec fn phase_ok(p: ReconnectPhase) -> bool {
    match p {
        ReconnectPhase::Attempt { attempt } => 1 <= attempt <= MAX_ATTEMPTS,
        ReconnectPhase::Countdown { attempt, remaining } | ReconnectPhase::AfterTick { attempt, remaining } =>
            1 <= attempt <= MAX_ATTEMPTS && 1 <= remaining <= spec_backoff(attempt as nat),
        ReconnectPhase::Connect { attempt } => 1 <= attempt <= MAX_ATTEMPTS,
        ReconnectPhase::Awaiting { attempt, polls } => 1 <= attempt <= MAX_ATTEMPTS && polls <= CONNECT_POLLS,
        ReconnectPhase::AfterPoll { attempt, polls } => 1 <= attempt <= MAX_ATTEMPTS && 1 <= polls <= CONNECT_POLLS,
        _ => true,
    }
}

/// `a` and `b` agree on every field but the reconnect countdown.
pub open spec fn same_but_delay(a: GlobalState, b: GlobalState) -> bool {
    &&& a.ws_url == b.ws_url
    &&& a.ws_connected == b.ws_connected
    &&& a.ws_last_error == b.ws_last_error
    &&& a.is_running == b.is_running
    &&& a.reconnecting == b.reconnecting
    &&& a.reconnect_attempts == b.reconnect_attempts
    &&& a.reconnect_maxed == b.reconnect_maxed
    &&& a.run_count == b.run_count
    &&& a.iteration == b.iteration
    &&& a.tool_call_count == b.tool_call_count
}

/// The next phase of the reconnect loop while the socket stays disconnected and the
/// reconnect flag stays up.
pub open spec fn failing_step(p: ReconnectPhase) -> ReconnectPhase {
    match p {
        ReconnectPhase::Waiting => ReconnectPhase::Attempt { attempt: 1 },
        ReconnectPhase::Attempt { attempt } => ReconnectPhase::Countdown {
            attempt,
            remaining: spec_backoff(attempt as nat) as u64,
        },
        ReconnectPhase::Countdown { attempt, remaining } => ReconnectPhase::AfterTick { attempt, remaining },
        ReconnectPhase::AfterTick { attempt, remaining } => if remaining > 1 {
            ReconnectPhase::Countdown { attempt, remaining: (remaining - 1) as u64 }
        } else {
            ReconnectPhase::Connect { attempt }
        },
        ReconnectPhase::Connect { attempt } => ReconnectPhase::Awaiting { attempt, polls: 0 },
        ReconnectPhase::Awaiting { attempt, polls } => if polls < CONNECT_POLLS {
            ReconnectPhase::AfterPoll { attempt, polls: (polls + 1) as u32 }
        } else if attempt < MAX_ATTEMPTS {
            ReconnectPhase::Attempt { attempt: (attempt + 1) as u32 }
        } else {
            ReconnectPhase::GiveUp
        },
        ReconnectPhase::AfterPoll { attempt, polls } => ReconnectPhase::Awaiting { attempt, polls },
        ReconnectPhase::GiveUp => ReconnectPhase::Finished,
        ReconnectPhase::Finished => ReconnectPhase::Finished,
    }
}

/// The phase after `n` steps of a loop whose socket never reconnects.
pub open spec fn failing_run(p: ReconnectPhase, n: nat) -> ReconnectPhase
    decreases n,
{
    if n == 0 {
        p
    } else {
        failing_run(failing_step(p), (n - 1) as nat)
    }
}

proof fn lemma_failing_run_split(p: ReconnectPhase, m: nat, n: nat)
    ensures
        failing_run(p, m + n) == failing_run(failing_run(p, m), n),
    decreases m,
{
    if m > 0 {
        lemma_failing_run_split(failing_step(p), (m - 1) as nat, n);
        assert((m + n - 1) as nat == (m - 1) as nat + n);
    }
}

proof fn lemma_countdown(attempt: u32, r: u64)
    requires
        r >= 1,
    ensures
        failing_run((ReconnectPhase::Countdown { attempt, remaining: r }), (2 * r) as nat) == (ReconnectPhase::Connect { attempt }),
    decreases r,
{
    let c = ReconnectPhase::Countdown { attempt, remaining: r };
    reveal_with_fuel(failing_run, 3);
    if r > 1 {
        lemma_countdown(attempt, (r - 1) as u64);
        lemma_failing_run_split(c, 2, (2 * (r - 1)) as nat);
        assert(failing_run(c, 2) == ReconnectPhase::Countdown { attempt, remaining: (r - 1) as u64 });
        assert((2 * r) as nat == 2 + (2 * (r - 1)) as nat);
    }
}

proof fn lemma_polls(attempt: u32, p: u32)
    requires
        p <= CONNECT_POLLS,
    ensures
        failing_run((ReconnectPhase::Awaiting { attempt, polls: p }), (2 * (CONNECT_POLLS - p)) as nat)
            == (ReconnectPhase::Awaiting { attempt, polls: CONNECT_POLLS }),
    decreases CONNECT_POLLS - p,
{
    let a = ReconnectPhase::Awaiting { attempt, polls: p };
    reveal_with_fuel(failing_run, 3);
    if p < CONNECT_POLLS {
        lemma_polls(attempt, (p + 1) as u32);
        lemma_failing_run_split(a, 2, (2 * (CONNECT_POLLS - p - 1)) as nat);
        assert(failing_run(a, 2) == ReconnectPhase::Awaiting { attempt, polls: (p + 1) as u32 });
        assert((2 * (CONNECT_POLLS - p)) as nat == 2 + (2 * (CONNECT_POLLS - p - 1)) as nat);
    }
}

/// Where the loop goes after failed attempt `k`: the next attempt, or giving up
/// after the tenth.
pub open spec fn next_attempt(k: u32) -> ReconnectPhase {
    if k < MAX_ATTEMPTS {
        ReconnectPhase::Attempt { attempt: (k + 1) as u32 }
    } else {
        ReconnectPhase::GiveUp
    }
}

/// Steps one reconnect attempt takes when the socket never reconnects: announcing
/// it, two per second of its delay, replacing the socket, two per check, and moving
/// on.
pub open spec fn attempt_steps(attempt: nat) -> nat {
    1 + 2 * spec_backoff(attempt) + 1 + 2 * (CONNECT_POLLS as nat) + 1
}

/// While the socket never reconnects and the reconnect flag stays up, the loop makes
/// attempts 1 to 10 in order, attempt `k` waiting `min(3 * 2^(k-1), 30)` seconds,
/// and after the tenth gives up, then stops for good.
pub proof fn lemma_reconnect_attempts(k: u32)
    requires
        1 <= k <= MAX_ATTEMPTS,
    ensures
        failing_step((ReconnectPhase::Attempt { attempt: k }))
            == (ReconnectPhase::Countdown { attempt: k, remaining: spec_backoff(k as nat) as u64 }),
        failing_run((ReconnectPhase::Attempt { attempt: k }), attempt_steps(k as nat)) == next_attempt(k),
        failing_step(ReconnectPhase::Waiting) == (ReconnectPhase::Attempt { attempt: 1 }),
        failing_run(ReconnectPhase::GiveUp, 1) == ReconnectPhase::Finished,
        failing_step(ReconnectPhase::Finished) == ReconnectPhase::Finished,
{
    lemma_backoff_schedule(k as nat, k as nat);
    let d = spec_backoff(k as nat) as u64;
    let start = ReconnectPhase::Attempt { attempt: k };
    let cd = ReconnectPhase::Countdown { attempt: k, remaining: d };
    let aw = ReconnectPhase::Awaiting { attempt: k, polls: 0 };
    reveal_with_fuel(failing_run, 2);
    assert(failing_run(start, 1) == cd);
    lemma_countdown(k, d);
    lemma_failing_run_split(start, 1, (2 * d) as nat);
    assert(failing_run(ReconnectPhase::Connect { attempt: k }, 1) == aw);
    lemma_failing_run_split(start, (1 + 2 * d) as nat, 1);
    lemma_polls(k, 0);
    lemma_failing_run_split(start, (1 + 2 * d + 1) as nat, (2 * CONNECT_POLLS) as nat);
    let fin = ReconnectPhase::Awaiting { attempt: k, polls: CONNECT_POLLS };
    lemma_failing_run_split(start, (1 + 2 * d + 1 + 2 * CONNECT_POLLS) as nat, 1);
    assert(failing_run(fin, 1) == failing_step(fin));
    assert(attempt_steps(k as nat) == (1 + 2 * d + 1 + 2 * CONNECT_POLLS) as nat + 1);
}

/// One step of the reconnect loop: the next phase, the status it leaves and what the
/// runner must do. While waiting, the loop starts once the reconnect flag is up (and
/// the loop has not given up) and otherwise clears a stale attempt count once
/// connected; each attempt announces its number and delay, counts the delay down a
/// second at a time, replaces the socket and checks for a connection every 100 ms,
/// 50 times. A connection, or the reconnect flag going down, ends the loop; after the
/// tenth failed attempt it gives up for good.
pub fn reconnect_step(phase: ReconnectPhase, g: &mut GlobalState) -> (r: (ReconnectPhase, ReconnectAction))
    requires
        phase_ok(phase),
    ensures
        phase_ok(r.0),
        match phase {
            ReconnectPhase::Waiting => if old(g).reconnecting && !old(g).reconnect_maxed {
                r.0 == ReconnectPhase::Attempt { attempt: 1 } && r.1 is Continue && *final(g) == *old(g)
            } else {
                &&& r.0 == ReconnectPhase::Waiting
                &&& r.1 == ReconnectAction::Sleep(200)
                &&& if old(g).ws_connected && (old(g).reconnect_attempts != 0 || old(g).reconnect_maxed) {
                    final(g).reconnect_attempts == 0 && !final(g).reconnect_maxed
                        && final(g).reconnecting == old(g).reconnecting
                        && final(g).ws_connected == old(g).ws_connected
                } else {
                    *final(g) == *old(g)
                }
            },
            ReconnectPhase::Attempt { attempt } => {
                &&& r.0 == ReconnectPhase::Countdown { attempt, remaining: spec_backoff(attempt as nat) as u64 }
                &&& r.1 == ReconnectAction::Publish(UiEvent::WsReconnecting {
                    attempt,
                    delay_secs: spec_backoff(attempt as nat) as u32,
                })
                &&& final(g).reconnect_attempts == attempt
                &&& final(g).reconnect_delay_secs == spec_backoff(attempt as nat)
                &&& final(g).ws_connected == old(g).ws_connected
                &&& final(g).reconnecting == old(g).reconnecting
                &&& final(g).reconnect_maxed == old(g).reconnect_maxed
            },
            ReconnectPhase::Countdown { attempt, remaining } => {
                &&& r.0 == ReconnectPhase::AfterTick { attempt, remaining }
                &&& r.1 == ReconnectAction::Sleep(1000)
                &&& final(g).reconnect_delay_secs == remaining
                &&& same_but_delay(*old(g), *final(g))
            },
            ReconnectPhase::AfterTick { attempt, remaining } => {
                &&& *final(g) == *old(g)
                &&& if old(g).ws_connected || !old(g).reconnecting {
                    r.0 == ReconnectPhase::Finished && r.1 is Stop
                } else if remaining > 1 {
                    r.0 == ReconnectPhase::Countdown { attempt, remaining: (remaining - 1) as u64 } && r.1 is Continue
                } else {
                    r.0 == ReconnectPhase::Connect { attempt } && r.1 is Continue
                }
            },
            ReconnectPhase::Connect { attempt } => {
                &&& r.0 == ReconnectPhase::Awaiting { attempt, polls: 0 }
                &&& r.1 is CallReconnect
                &&& *final(g) == *old(g)
            },
            ReconnectPhase::Awaiting { attempt, polls } => {
                &&& *final(g) == *old(g)
                &&& if polls < CONNECT_POLLS {
                    r.0 == ReconnectPhase::AfterPoll { attempt, polls: (polls + 1) as u32 } && r.1 == ReconnectAction::Sleep(100)
                } else if attempt < MAX_ATTEMPTS {
                    r.0 == ReconnectPhase::Attempt { attempt: (attempt + 1) as u32 } && r.1 is Continue
                } else {
                    r.0 == ReconnectPhase::GiveUp && r.1 is Continue
                }
            },
            ReconnectPhase::AfterPoll { attempt, polls } => {
                &&& *final(g) == *old(g)
                &&& if old(g).ws_connected {
                    r.0 == ReconnectPhase::Finished && r.1 is Stop
                } else {
                    r.0 == ReconnectPhase::Awaiting { attempt, polls } && r.1 is Continue
                }
            },
            ReconnectPhase::GiveUp => {
                &&& r.0 == ReconnectPhase::Finished
                &&& r.1 == ReconnectAction::Publish(UiEvent::WsReconnectFailed)
                &&& !final(g).reconnecting
                &&& final(g).reconnect_maxed
                &&& opt_text(final(g).ws_last_error) == Some("Connection lost. Please refresh."@)
                &&& final(g).ws_connected == old(g).ws_connected
                &&& final(g).reconnect_attempts == old(g).reconnect_attempts
            },
            ReconnectPhase::Finished => r.0 == ReconnectPhase::Finished && r.1 is Stop && *final(g) == *old(g),
        },
        !old(g).ws_connected && old(g).reconnecting && !old(g).reconnect_maxed ==> r.0 == failing_step(phase),
{
    match phase {
        ReconnectPhase::Waiting => {
            if g.reconnecting && !g.reconnect_maxed {
                (ReconnectPhase::Attempt { attempt: 1 }, ReconnectAction::Continue)
            } else {
                if g.ws_connected && (g.reconnect_attempts != 0 || g.reconnect_maxed) {
                    g.reconnect_attempts = 0;
                    g.reconnect_maxed = false;
                }
                (ReconnectPhase::Waiting, ReconnectAction::Sleep(200))
            }
        },
        ReconnectPhase::Attempt { attempt } => {
            let delay = backoff_delay(attempt);
            proof {
                lemma_backoff_schedule(attempt as nat, attempt as nat);
            }
            g.reconnect_attempts = attempt;
            g.reconnect_delay_secs = delay as u32;
            (
                ReconnectPhase::Countdown { attempt, remaining: delay },
                ReconnectAction::Publish(UiEvent::WsReconnecting { attempt, delay_secs: delay as u32 }),
            )
        },
        ReconnectPhase::Countdown { attempt, remaining } => {
            proof {
                lemma_backoff_schedule(attempt as nat, attempt as nat);
            }
            g.reconnect_delay_secs = remaining as u32;
            (ReconnectPhase::AfterTick { attempt, remaining }, ReconnectAction::Sleep(1000))
        },
        ReconnectPhase::AfterTick { attempt, remaining } => {
            if g.ws_connected || !g.reconnecting {
                (ReconnectPhase::Finished, ReconnectAction::Stop)
            } else if remaining > 1 {
                (ReconnectPhase::Countdown { attempt, remaining: remaining - 1 }, ReconnectAction::Continue)
            } else {
                (ReconnectPhase::Connect { attempt }, ReconnectAction::Continue)
            }
        },
        ReconnectPhase::Connect { attempt } => {
            (ReconnectPhase::Awaiting { attempt, polls: 0 }, ReconnectAction::CallReconnect)
        },
        ReconnectPhase::Awaiting { attempt, polls } => {
            if polls < CONNECT_POLLS {
                (ReconnectPhase::AfterPoll { attempt, polls: polls + 1 }, ReconnectAction::Sleep(100))
            } else if attempt < MAX_ATTEMPTS {
                (ReconnectPhase::Attempt { attempt: attempt + 1 }, ReconnectAction::Continue)
            } else {
                (ReconnectPhase::GiveUp, ReconnectAction::Continue)
            }
        },
        ReconnectPhase::AfterPoll { attempt, polls } => {
            if g.ws_connected {
                (ReconnectPhase::Finished, ReconnectAction::Stop)
            } else {
                (ReconnectPhase::Awaiting { attempt, polls }, ReconnectAction::Continue)
            }
        },
        ReconnectPhase::GiveUp => {
            g.reconnecting = false;
            g.reconnect_maxed = true;
            g.ws_last_error = Some(owned("Connection lost. Please refresh."));
            (ReconnectPhase::Finished, ReconnectAction::Publish(UiEvent::WsReconnectFailed))
        },
        ReconnectPhase::Finished => (ReconnectPhase::Finished, ReconnectAction::Stop),
    }
}

/// What the status bar's connection indicator shows.
#[derive(Clone, Debug)]
pub enum Indicator {
    /// Reconnecting gave up.
    NoConnection,
    /// Reconnecting, with the seconds left before the next attempt.
    Reconnecting(u32),
    Connected,
    /// Disconnected with an error, shown as the indicator's title.
    Error(String),
    Connecting,
}

/// The connection indicator: giving up wins over reconnecting, which wins over
/// connected, which wins over an error; with none of these it is connecting.
pub fn connection_indicator(connected: bool, error: Option<&str>, reconnecting: bool, reconnect_delay: u32, reconnect_maxed: bool) -> (i: Indicator)
    ensures
        reconnect_maxed ==> i is NoConnection,
        !reconnect_maxed && reconnecting ==> i == Indicator::Reconnecting(reconnect_delay),
        !reconnect_maxed && !reconnecting && connected ==> i is Connected,
        !reconnect_maxed && !reconnecting && !connected ==> match error {
            Some(e) => (i matches Indicator::Error(t) && t@ == e@),
            None => i is Connecting,
        },
{
    if reconnect_maxed {
        Indicator::NoConnection
    } else if reconnecting {
        Indicator::Reconnecting(reconnect_delay)
    } else if connected {
        Indicator::Connected
    } else {
        match error {
            Some(e) => Indicator::Error(owned(e)),
            None => Indicator::Connecting,
        }
    }
}

/// The text an indicator shows.
pub open spec fn indicator_label(i: Indicator) -> Seq<char> {
    match i {
        Indicator::NoConnection => "No connection"@,
        Indicator::Reconnecting(d) => "Reconnecting... ("@ + spec_decimal(d as nat) + "s)"@,
        Indicator::Connected => "Connected"@,
        Indicator::Error(_) => "Error"@,
        Indicator::Connecting => "Connecting"@,
    }
}

/// The tooltip of an indicator.
pub open spec fn indicator_title(i: Indicator) -> Seq<char> {
    match i {
        Indicator::NoConnection => "Connection lost. Please refresh."@,
        Indicator::Reconnecting(_) => "Reconnecting..."@,
        Indicator::Connected => "Connected"@,
        Indicator::Error(e) => e@,
        Indicator::Connecting => "Connecting..."@,
    }
}

impl Indicator {
    /// The text shown next to the dot.
    pub fn label(&self) -> (s: String)
        ensures
            s@ == indicator_label(*self),
    {
        match self {
            Indicator::NoConnection => owned("No connection"),
            Indicator::Reconnecting(d) => concat3("Reconnecting... (", decimal(*d as u64).as_str(), "s)"),
            Indicator::Connected => owned("Connected"),
            Indicator::Error(_) => owned("Error"),
            Indicator::Connecting => owned("Connecting"),
        }
    }

    /// The tooltip.
    pub fn title(&self) -> (s: String)
        ensures
            s@ == indicator_title(*self),
    {
        match self {
            Indicator::NoConnection => owned("Connection lost. Please refresh."),
            Indicator::Reconnecting(_) => owned("Reconnecting..."),
            Indicator::Connected => owned("Connected"),
            Indicator::Error(e) => owned(e.as_str()),
            Indicator::Connecting => owned("Connecting..."),
        }
    }
}

/// `MM:SS` for a number of seconds, each part padded to two digits.
pub open spec fn spec_format_duration(secs: nat) -> Seq<char> {
    spec_zero_pad(secs / 60, 2) + ":"@ + spec_zero_pad(secs % 60, 2)
}

/// A duration in whole seconds as `MM:SS` (minutes may take more digits).
pub fn format_duration(secs: u64) -> (s: String)
    ensures
        s@ == spec_format_duration(secs as nat),
{
    let m = two_digits(secs / 60);
    let r = two_digits(secs % 60);
    concat3(m.as_str(), ":", r.as_str())
}

/// Where restoring the conversation after a reconnect stands.
#[derive(Clone, Debug)]
pub enum RestorePhase {
    /// Waiting for a reconnect (connected again after reconnect attempts).
    WaitReconnect,
    /// The session list was requested.
    FetchingSessions,
    /// The most recent session was asked to resume.
    Resuming(String),
    /// The entries of the resumed session were requested.
    FetchingEntries(String),
    /// Restored; waiting for the next disconnect.
    WaitDisconnect,
}

/// What restoring asks of its runner.
#[derive(Debug)]
pub enum RestoreAction {
    /// Check again after this many milliseconds.
    Sleep(u32),
    /// Request the session list.
    FetchSessions,
    /// Ask the server to resume this session.
    Resume(String),
    /// Request this session's entries.
    FetchEntries(String),
}

/// A waiting step of restoring: a reconnect (connected, after at least one attempt)
/// starts it by fetching the session list; a disconnect while restored goes back to
/// waiting for a reconnect. Otherwise check again in 200 ms.
pub fn restore_poll(phase: RestorePhase, g: &GlobalState) -> (r: (RestorePhase, RestoreAction))
    ensures
        match phase {
            RestorePhase::WaitReconnect => if g.ws_connected && g.reconnect_attempts > 0 {
                r.0 is FetchingSessions && r.1 is FetchSessions
            } else {
                r.0 is WaitReconnect && r.1 == RestoreAction::Sleep(200)
            },
            RestorePhase::WaitDisconnect => if !g.ws_connected {
                r.0 is WaitReconnect && r.1 == RestoreAction::Sleep(200)
            } else {
                r.0 is WaitDisconnect && r.1 == RestoreAction::Sleep(200)
            },
            _ => r.0 == phase && r.1 == RestoreAction::Sleep(200),
        },
{
    match phase {
        RestorePhase::WaitReconnect => if g.ws_connected && g.reconnect_attempts > 0 {
            (RestorePhase::FetchingSessions, RestoreAction::FetchSessions)
        } else {
            (RestorePhase::WaitReconnect, RestoreAction::Sleep(200))
        },
        RestorePhase::WaitDisconnect => if !g.ws_connected {
            (RestorePhase::WaitReconnect, RestoreAction::Sleep(200))
        } else {
            (RestorePhase::WaitDisconnect, RestoreAction::Sleep(200))
        },
        other => (other, RestoreAction::Sleep(200)),
    }
}

/// The session list arrived: resume the first (most recent) session; with no
/// sessions, or no list, restoring is over for this reconnect.
pub fn restore_on_sessions(g: &mut GlobalState, result: Result<Vec<SessionListEntry>, String>) -> (r: (RestorePhase, Option<RestoreAction>))
    ensures
        match result {
            Ok(s) => if s@.len() > 0 {
                (r.0 matches RestorePhase::Resuming(id) && id == s@[0].id)
                    && (r.1 matches Some(RestoreAction::Resume(id)) && id == s@[0].id)
                    && *final(g) == *old(g)
            } else {
                r.0 is WaitReconnect && r.1 is None && *final(g) == (GlobalState { reconnect_attempts: 0, ..*old(g) })
            },
            Err(_) => r.0 is WaitReconnect && r.1 is None && *final(g) == (GlobalState { reconnect_attempts: 0, ..*old(g) }),
        },
{
    match result {
        Ok(s) => {
            if s.len() > 0 {
                let id = s[0].id.clone();
                let id2 = s[0].id.clone();
                (RestorePhase::Resuming(id), Some(RestoreAction::Resume(id2)))
            } else {
                g.reconnect_attempts = 0;
                (RestorePhase::WaitReconnect, None)
            }
        },
        Err(_) => {
            g.reconnect_attempts = 0;
            (RestorePhase::WaitReconnect, None)
        },
    }
}

/// The resume answer arrived: fetch the session's entries, or give up on failure.
pub fn restore_on_resume(g: &mut GlobalState, session_id: String, ok: bool) -> (r: (RestorePhase, Option<RestoreAction>))
    ensures
        ok ==> (r.0 matches RestorePhase::FetchingEntries(id) && id == session_id)
            && (r.1 matches Some(RestoreAction::FetchEntries(id)) && id == session_id) && *final(g) == *old(g),
        !ok ==> r.0 is WaitReconnect && r.1 is None && *final(g) == (GlobalState { reconnect_attempts: 0, ..*old(g) }),
{
    if ok {
        let id = session_id.clone();
        (RestorePhase::FetchingEntries(session_id), Some(RestoreAction::FetchEntries(id)))
    } else {
        g.reconnect_attempts = 0;
        (RestorePhase::WaitReconnect, None)
    }
}

/// The session's entries arrived: they become the selected agent's timeline (the
/// agent "" when none is selected); either way restoring is done until the next
/// disconnect.
pub fn restore_on_entries(
    g: &mut GlobalState,
    conv: &mut ConversationState,
    agent_id: &str,
    result: Result<Vec<SessionEntry>, String>,
) -> (phase: RestorePhase)
    ensures
        phase is WaitDisconnect,
        *final(g) == (GlobalState { reconnect_attempts: 0, ..*old(g) }),
        final(conv).active_agent == old(conv).active_agent,
        match result {
            Ok(es) => entries_of(*final(conv), agent_id@) == session_timeline(es@)
                && forall|other: Seq<char>| other != agent_id@ ==> entries_of(*final(conv), other) == entries_of(*old(conv), other),
            Err(_) => *final(conv) == *old(conv),
        },
{
    match result {
        Ok(es) => {
            let timeline = session_entries_to_conversation(es);
            set_entries(conv, agent_id, timeline);
        },
        Err(_) => {},
    }
    g.reconnect_attempts = 0;
    RestorePhase::WaitDisconnect
}

/// The server's WebSocket address for the page's host name: port 3001 on that host,
/// or the local default when the host name cannot be read.
pub fn ws_url_for_host(hostname: Option<&str>) -> (r: String)
    ensures
        r@ == match hostname {
            Some(h) => "ws://"@ + h@ + ":3001/ws"@,
            None => "ws://localhost:3001"@,
        },
{
    match hostname {
        Some(h) => concat3("ws://", h, ":3001/ws"),
        None => owned("ws://localhost:3001"),
    }
}

} // verus!
