//! The retry policy of the fetcher: what to do after each reply to a GET,
//! with a bounded number of retries and a delay that doubles.

use vstd::prelude::*;

verus! {

/// The status code by which a server asks the client to slow down.
pub const RATE_LIMITED: u16 = 429;

/// `delay` after it was doubled `times` times.
pub open spec fn doubled(delay: nat, times: nat) -> nat
    decreases times,
{
    if times == 0 {
        delay
    } else {
        doubled(2 * delay, (times - 1) as nat)
    }
}

/// Doubling never shortens a delay.
pub proof fn doubled_grows(delay: nat, times: nat)
    ensures
        delay <= doubled(delay, times),
    decreases times,
{
    if times > 0 {
        doubled_grows(2 * delay, (times - 1) as nat);
    }
}

/// One more doubling gives twice the delay.
pub proof fn doubled_twice(delay: nat, times: nat)
    ensures
        doubled(delay, times + 1) == 2 * doubled(delay, times),
    decreases times,
{
    assert(doubled(delay, times + 1) == doubled(2 * delay, times));
    if times > 0 {
        doubled_twice(2 * delay, (times - 1) as nat);
        assert(doubled(2 * delay, times) == 2 * doubled(2 * delay, (times - 1) as nat));
    }
}

/// The parameters of the fetcher. The courtesy delay follows every
/// successful GET; the backoff delay follows a rate-limited one.
#[derive(Debug, Clone, Copy)]
pub struct FetchPolicy {
    /// How many times one fetch asks again after a rate-limited reply.
    pub retry_budget: u32,
    /// The delay after the first rate-limited reply, in milliseconds.
    pub initial_delay_ms: u64,
    /// The delay after a successful reply, in milliseconds.
    pub courtesy_delay_ms: u64,
}

impl FetchPolicy {
    /// Every delay that the budget can reach fits the machine.
    pub open spec fn well_formed(&self) -> bool {
        doubled(self.initial_delay_ms as nat, self.retry_budget as nat) <= u64::MAX
    }

    /// Three retries, three seconds of first backoff, 900 ms of courtesy.
    pub fn standard() -> (p: FetchPolicy)
        ensures
            p.retry_budget == 3,
            p.initial_delay_ms == 3000,
            p.courtesy_delay_ms == 900,
            p.well_formed(),
    {
        assert(doubled(3000, 3) == 24000) by {
            reveal_with_fuel(doubled, 5);
        }
        FetchPolicy { retry_budget: 3, initial_delay_ms: 3000, courtesy_delay_ms: 900 }
    }

    /// Tells whether every delay that the budget can reach fits the machine.
    pub fn is_well_formed(&self) -> (ok: bool)
        ensures
            ok == self.well_formed(),
    {
        let mut delay: u64 = self.initial_delay_ms;
        let mut left: u32 = self.retry_budget;
        while left > 0
            invariant
                doubled(delay as nat, left as nat) == doubled(
                    self.initial_delay_ms as nat,
                    self.retry_budget as nat,
                ),
            decreases left,
        {
            if delay > u64::MAX / 2 {
                proof {
                    doubled_grows(2 * (delay as nat), (left - 1) as nat);
                }
                return false;
            }
            delay = delay * 2;
            left = left - 1;
        }
        true
    }
}

/// The reply to one GET, as far as the policy reads it.
#[derive(Debug, Clone, Copy, PartialEq, Eq, Structural)]
pub enum Reply {
    /// The server answered with a body.
    Body,
    /// The server answered with an error status.
    Status { code: u16 },
    /// The request failed before any status came.
    Broken,
}

/// What the fetcher does after a reply.
#[derive(Debug, Clone, Copy, PartialEq, Eq, Structural)]
pub enum Directive {
    /// Wait, then hand the body to the caller.
    Deliver { pause_ms: u64 },
    /// Wait, then ask again.
    Retry { pause_ms: u64 },
    /// Give up at once: the reply was rate-limited and no retry is left.
    Exhausted,
    /// Give the error to the caller at once.
    Fail,
}

/// Model of a fetch in progress.
pub struct BackoffModel {
    pub retries_left: nat,
    pub delay_ms: nat,
    pub courtesy_ms: nat,
}

/// The state in which a fetch under `policy` begins.
pub open spec fn backoff_initial(policy: FetchPolicy) -> BackoffModel {
    BackoffModel {
        retries_left: policy.retry_budget as nat,
        delay_ms: policy.initial_delay_ms as nat,
        courtesy_ms: policy.courtesy_delay_ms as nat,
    }
}

/// Whether the reply asks the client to slow down.
pub open spec fn is_rate_limited(reply: Reply) -> bool {
    reply == (Reply::Status { code: RATE_LIMITED })
}

/// The state after a reply: a rate-limited one, while a retry is left,
/// uses up one retry and doubles the delay; any other reply, and a
/// rate-limited one with no retry left, leaves the state as it is.
pub open spec fn backoff_next(s: BackoffModel, reply: Reply) -> BackoffModel {
    if is_rate_limited(reply) && s.retries_left > 0 {
        BackoffModel {
            retries_left: (s.retries_left - 1) as nat,
            delay_ms: 2 * s.delay_ms,
            ..s
        }
    } else {
        s
    }
}

/// What the fetcher does after a reply: after a body it waits the
/// courtesy delay and delivers; after a rate-limited reply it waits the
/// current backoff delay and asks again while a retry is left, and gives
/// up without a wait when none is; after any other it fails at once.
pub open spec fn backoff_directive(s: BackoffModel, reply: Reply) -> Directive {
    if reply == Reply::Body {
        Directive::Deliver { pause_ms: s.courtesy_ms as u64 }
    } else if is_rate_limited(reply) {
        if s.retries_left > 0 {
            Directive::Retry { pause_ms: s.delay_ms as u64 }
        } else {
            Directive::Exhausted
        }
    } else {
        Directive::Fail
    }
}

/// A fetch in progress: the retries that are left and the next backoff
/// delay. It lives for one fetch.
#[derive(Debug)]
pub struct Backoff {
    retries_left: u32,
    delay_ms: u64,
    courtesy_ms: u64,
}

impl View for Backoff {
    type V = BackoffModel;

    closed spec fn view(&self) -> BackoffModel {
        BackoffModel {
            retries_left: self.retries_left as nat,
            delay_ms: self.delay_ms as nat,
            courtesy_ms: self.courtesy_ms as nat,
        }
    }
}

/// Every delay that the state can still reach fits the machine.
pub open spec fn backoff_fits(s: BackoffModel) -> bool {
    doubled(s.delay_ms, s.retries_left) <= u64::MAX && s.courtesy_ms <= u64::MAX
}

impl Backoff {
    /// Begins a fetch under `policy`.
    pub fn start(policy: &FetchPolicy) -> (b: Backoff)
        requires
            policy.well_formed(),
        ensures
            b@ == backoff_initial(*policy),
            backoff_fits(b@),
    {
        Backoff {
            retries_left: policy.retry_budget,
            delay_ms: policy.initial_delay_ms,
            courtesy_ms: policy.courtesy_delay_ms,
        }
    }

    /// Tells whether a retry is left: whether a rate-limited reply would be
    /// followed by another GET.
    pub fn can_retry(&self) -> (ok: bool)
        ensures
            ok == (self@.retries_left > 0),
    {
        self.retries_left > 0
    }

    /// Takes the reply to the GET that was just made and says what to do.
    pub fn on_reply(&mut self, reply: Reply) -> (d: Directive)
        requires
            backoff_fits(old(self)@),
        ensures
            final(self)@ == backoff_next(old(self)@, reply),
            d == backoff_directive(old(self)@, reply),
            backoff_fits(final(self)@),
    {
        match reply {
            Reply::Body => Directive::Deliver { pause_ms: self.courtesy_ms },
            Reply::Status { code } => {
                if code != RATE_LIMITED {
                    Directive::Fail
                } else if self.retries_left == 0 {
                    Directive::Exhausted
                } else {
                    let pause_ms: u64 = self.delay_ms;
                    proof {
                        doubled_grows(2 * (self.delay_ms as nat), (self.retries_left - 1) as nat);
                    }
                    self.delay_ms = self.delay_ms * 2;
                    self.retries_left = self.retries_left - 1;
                    Directive::Retry { pause_ms }
                }
            },
            Reply::Broken => Directive::Fail,
        }
    }
}

/// How a fetch ended.
#[derive(Debug, Clone, Copy, PartialEq, Eq, Structural)]
pub enum FetchOutcome {
    /// A body came and was handed to the caller.
    Delivered,
    /// The first GET and every retry that the budget allowed were
    /// rate-limited.
    RetriesExhausted,
    /// A GET failed otherwise; the error was handed on at once.
    TransportError,
    /// The fetch has not ended: it waits for the reply to its next GET.
    Waiting,
}

/// Model of the course of a fetch.
pub struct FetchTraceModel {
    pub outcome: FetchOutcome,
    /// How many GETs were made.
    pub requests: nat,
    /// The waits that were made, in order, in milliseconds.
    pub pauses: Seq<u64>,
}

/// `trace` behind `requests` GETs that were answered by the waits `pauses`.
pub open spec fn behind(requests: nat, pauses: Seq<u64>, trace: FetchTraceModel) -> FetchTraceModel {
    FetchTraceModel {
        outcome: trace.outcome,
        requests: requests + trace.requests,
        pauses: pauses + trace.pauses,
    }
}

/// The course of a fetch that begins in state `s` and whose GETs get
/// `replies`, in order.
pub open spec fn fetch_trace(s: BackoffModel, replies: Seq<Reply>) -> FetchTraceModel
    decreases replies.len(),
{
    if replies.len() == 0 {
        FetchTraceModel { outcome: FetchOutcome::Waiting, requests: 0, pauses: Seq::empty() }
    } else {
        match backoff_directive(s, replies[0]) {
            Directive::Deliver { pause_ms } => FetchTraceModel {
                outcome: FetchOutcome::Delivered,
                requests: 1,
                pauses: seq![pause_ms],
            },
            Directive::Retry { pause_ms } => behind(
                1,
                seq![pause_ms],
                fetch_trace(backoff_next(s, replies[0]), replies.drop_first()),
            ),
            Directive::Exhausted => FetchTraceModel {
                outcome: FetchOutcome::RetriesExhausted,
                requests: 1,
                pauses: Seq::empty(),
            },
            Directive::Fail => FetchTraceModel {
                outcome: FetchOutcome::TransportError,
                requests: 1,
                pauses: Seq::empty(),
            },
        }
    }
}

/// The course of a fetch: how it ended, how many GETs it made and how long
/// it waited after each.
#[derive(Debug, Clone)]
pub struct FetchTrace {
    pub outcome: FetchOutcome,
    pub requests: usize,
    pub pauses: Vec<u64>,
}

impl View for FetchTrace {
    type V = FetchTraceModel;

    open spec fn view(&self) -> FetchTraceModel {
        FetchTraceModel {
            outcome: self.outcome,
            requests: self.requests as nat,
            pauses: self.pauses@,
        }
    }
}

/// Plays a fetch under `policy` against the replies that its GETs would
/// get, in order, and records its course. Replies behind the one that ends
/// the fetch are not read.
pub fn replay(policy: &FetchPolicy, replies: &Vec<Reply>) -> (t: FetchTrace)
    requires
        policy.well_formed(),
    ensures
        t@ == fetch_trace(backoff_initial(*policy), replies@),
{
    let ghost whole = fetch_trace(backoff_initial(*policy), replies@);
    let mut state = Backoff::start(policy);
    let mut pauses: Vec<u64> = Vec::new();
    let mut i: usize = 0;
    proof {
        assert(replies@.skip(0) =~= replies@);
        assert(behind(0, pauses@, whole).pauses =~= whole.pauses);
    }
    while i < replies.len()
        invariant
            i <= replies.len(),
            backoff_fits(state@),
            whole == fetch_trace(backoff_initial(*policy), replies@),
            whole == behind(i as nat, pauses@, fetch_trace(state@, replies@.skip(i as int))),
        decreases replies.len() - i,
    {
        let ghost before = state@;
        let ghost rest = replies@.skip(i as int);
        let ghost waited = pauses@;
        let reply = replies[i];
        proof {
            assert(rest[0] == reply);
            assert(rest.drop_first() =~= replies@.skip(i + 1));
        }
        let directive = state.on_reply(reply);
        i += 1;
        match directive {
            Directive::Deliver { pause_ms } => {
                pauses.push(pause_ms);
                proof {
                    let tail = fetch_trace(before, rest);
                    assert(tail.outcome == FetchOutcome::Delivered);
                    assert(tail.requests == 1);
                    assert(tail.pauses == seq![pause_ms]);
                    assert(pauses@ =~= waited + tail.pauses);
                }
                return FetchTrace { outcome: FetchOutcome::Delivered, requests: i, pauses };
            },
            Directive::Retry { pause_ms } => {
                pauses.push(pause_ms);
                proof {
                    let tail = fetch_trace(state@, replies@.skip(i as int));
                    assert(waited + (seq![pause_ms] + tail.pauses) =~= pauses@ + tail.pauses);
                }
            },
            Directive::Exhausted => {
                proof {
                    let tail = fetch_trace(before, rest);
                    assert(tail.outcome == FetchOutcome::RetriesExhausted);
                    assert(tail.requests == 1);
                    assert(pauses@ =~= waited + tail.pauses);
                }
                return FetchTrace { outcome: FetchOutcome::RetriesExhausted, requests: i, pauses };
            },
            Directive::Fail => {
                proof {
                    let tail = fetch_trace(before, rest);
                    assert(tail.outcome == FetchOutcome::TransportError);
                    assert(tail.requests == 1);
                    assert(pauses@ =~= waited + tail.pauses);
                }
                return FetchTrace { outcome: FetchOutcome::TransportError, requests: i, pauses };
            },
        }
    }
    proof {
        assert(pauses@ + Seq::<u64>::empty() =~= pauses@);
        assert(replies@.skip(i as int).len() == 0);
    }
    FetchTrace { outcome: FetchOutcome::Waiting, requests: i, pauses }
}

/// Doubling `a + b` times is doubling `a` times and then `b` times.
pub proof fn doubled_split(delay: nat, a: nat, b: nat)
    ensures
        doubled(delay, a + b) == doubled(doubled(delay, a), b),
    decreases a,
{
    if a > 0 {
        doubled_split(2 * delay, (a - 1) as nat, b);
        assert(doubled(delay, a + b) == doubled(2 * delay, (a - 1 + b) as nat));
    }
}

/// The first `n` backoff delays from `delay` on: each twice the one before.
pub open spec fn backoff_pauses(delay: nat, n: nat) -> Seq<u64> {
    Seq::new(n, |i: int| doubled(delay, i as nat) as u64)
}

/// Whether the first `n` of `replies` are all rate-limited.
pub open spec fn rate_limited_run(replies: Seq<Reply>, n: nat) -> bool {
    n <= replies.len() && forall|i: int| 0 <= i < n ==> is_rate_limited(#[trigger] replies[i])
}

/// The state after `n` rate-limited replies.
pub open spec fn backoff_after(s: BackoffModel, n: nat) -> BackoffModel {
    BackoffModel {
        retries_left: (s.retries_left - n) as nat,
        delay_ms: doubled(s.delay_ms, n),
        ..s
    }
}

/// A fetch whose first `n` replies are rate-limited, with `n` within the
/// retries that are left, makes `n` GETs, waits the first `n` backoff
/// delays, and goes on from there with the rest of the replies.
pub proof fn fetch_through_rate_limits(s: BackoffModel, replies: Seq<Reply>, n: nat)
    requires
        n <= s.retries_left,
        rate_limited_run(replies, n),
    ensures
        fetch_trace(s, replies) == behind(
            n,
            backoff_pauses(s.delay_ms, n),
            fetch_trace(backoff_after(s, n), replies.skip(n as int)),
        ),
    decreases n,
{
    if n == 0 {
        assert(replies.skip(0) =~= replies);
        assert(backoff_after(s, 0) == s);
        assert(backoff_pauses(s.delay_ms, 0) + fetch_trace(s, replies).pauses =~= fetch_trace(
            s,
            replies,
        ).pauses);
    } else {
        let next = backoff_next(s, replies[0]);
        let m = (n - 1) as nat;
        assert(is_rate_limited(replies[0]));
        assert forall|i: int| 0 <= i < m implies is_rate_limited(
            #[trigger] replies.drop_first()[i],
        ) by {
            assert(replies.drop_first()[i] == replies[i + 1]);
        }
        fetch_through_rate_limits(next, replies.drop_first(), m);
        assert(replies.drop_first().skip(m as int) =~= replies.skip(n as int));
        assert(backoff_after(next, m) == backoff_after(s, n));
        let tail = fetch_trace(backoff_after(s, n), replies.skip(n as int));
        assert(seq![s.delay_ms as u64] + backoff_pauses(next.delay_ms, m) =~= backoff_pauses(
            s.delay_ms,
            n,
        )) by {
            assert forall|i: int| 1 <= i < n implies #[trigger] doubled(s.delay_ms, i as nat)
                == doubled(next.delay_ms, (i - 1) as nat) by {}
        }
        assert(seq![s.delay_ms as u64] + (backoff_pauses(next.delay_ms, m) + tail.pauses) =~= (
        seq![s.delay_ms as u64] + backoff_pauses(next.delay_ms, m)) + tail.pauses);
    }
}

/// After `n` rate-limited replies, with `n` within the budget, a body ends
/// the fetch: it made `n + 1` GETs, the first and `n` retries, waited the
/// first `n` backoff delays and then the courtesy delay, and delivered.
/// Replies behind the body play no part.
pub proof fn fetch_delivers_after_rate_limits(policy: FetchPolicy, replies: Seq<Reply>, n: nat)
    requires
        n <= policy.retry_budget,
        rate_limited_run(replies, n),
        n < replies.len(),
        replies[n as int] == Reply::Body,
    ensures
        fetch_trace(backoff_initial(policy), replies) == (FetchTraceModel {
            outcome: FetchOutcome::Delivered,
            requests: n + 1,
            pauses: backoff_pauses(policy.initial_delay_ms as nat, n).push(
                policy.courtesy_delay_ms,
            ),
        }),
{
    let s = backoff_initial(policy);
    fetch_through_rate_limits(s, replies, n);
    let rest = replies.skip(n as int);
    assert(rest[0] == Reply::Body);
    let tail = fetch_trace(backoff_after(s, n), rest);
    assert(tail.pauses == seq![policy.courtesy_delay_ms]);
    assert(backoff_pauses(s.delay_ms, n) + tail.pauses =~= backoff_pauses(s.delay_ms, n).push(
        policy.courtesy_delay_ms,
    ));
}

/// After `n` rate-limited replies, with `n` within the budget, a reply
/// that is neither a body nor rate-limited ends the fetch with its error:
/// it made `n + 1` GETs and waited the first `n` backoff delays, with no
/// wait after the failure.
pub proof fn fetch_fails_after_rate_limits(policy: FetchPolicy, replies: Seq<Reply>, n: nat)
    requires
        n <= policy.retry_budget,
        rate_limited_run(replies, n),
        n < replies.len(),
        replies[n as int] != Reply::Body,
        !is_rate_limited(replies[n as int]),
    ensures
        fetch_trace(backoff_initial(policy), replies) == (FetchTraceModel {
            outcome: FetchOutcome::TransportError,
            requests: n + 1,
            pauses: backoff_pauses(policy.initial_delay_ms as nat, n),
        }),
{
    let s = backoff_initial(policy);
    fetch_through_rate_limits(s, replies, n);
    let rest = replies.skip(n as int);
    assert(rest[0] == replies[n as int]);
    assert(backoff_pauses(s.delay_ms, n) + Seq::<u64>::empty() =~= backoff_pauses(s.delay_ms, n));
}

/// Where the first GET and every retry that the budget allows are
/// rate-limited, the fetch ends with its retries exhausted: it made one
/// GET more than the budget holds retries and none after that, whatever
/// replies would have followed, and waited one backoff delay before each
/// retry and none after the last reply.
pub proof fn fetch_exhausts_budget(policy: FetchPolicy, replies: Seq<Reply>)
    requires
        rate_limited_run(replies, policy.retry_budget as nat + 1),
    ensures
        fetch_trace(backoff_initial(policy), replies) == (FetchTraceModel {
            outcome: FetchOutcome::RetriesExhausted,
            requests: policy.retry_budget as nat + 1,
            pauses: backoff_pauses(policy.initial_delay_ms as nat, policy.retry_budget as nat),
        }),
{
    let s = backoff_initial(policy);
    let n = policy.retry_budget as nat;
    fetch_through_rate_limits(s, replies, n);
    let rest = replies.skip(n as int);
    assert(rest[0] == replies[n as int]);
    assert(is_rate_limited(rest[0]));
    assert(backoff_pauses(s.delay_ms, n) + Seq::<u64>::empty() =~= backoff_pauses(s.delay_ms, n));
}

/// Under a well-formed policy the backoff delays within the budget are
/// exact: the first is the initial delay and each next one is twice the
/// one before.
pub proof fn backoff_pauses_double(policy: FetchPolicy, n: nat, i: int)
    requires
        policy.well_formed(),
        n <= policy.retry_budget,
        0 <= i < n,
    ensures
        backoff_pauses(policy.initial_delay_ms as nat, n)[i] == doubled(
            policy.initial_delay_ms as nat,
            i as nat,
        ),
        i == 0 ==> backoff_pauses(policy.initial_delay_ms as nat, n)[i] == policy.initial_delay_ms,
        i > 0 ==> backoff_pauses(policy.initial_delay_ms as nat, n)[i] == 2 * backoff_pauses(
            policy.initial_delay_ms as nat,
            n,
        )[i - 1],
{
    let d = policy.initial_delay_ms as nat;
    let budget = policy.retry_budget as nat;
    doubled_split(d, i as nat, (budget - i) as nat);
    doubled_grows(doubled(d, i as nat), (budget - i) as nat);
    if i > 0 {
        doubled_split(d, (i - 1) as nat, (budget - i + 1) as nat);
        doubled_grows(doubled(d, (i - 1) as nat), (budget - i + 1) as nat);
        doubled_twice(d, (i - 1) as nat);
    }
}

} // verus!
