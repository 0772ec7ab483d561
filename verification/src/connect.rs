//! The control connection's retry policy: which client addresses are tried and
//! in what order, the time each attempt gets, the retries and pauses, and what
//! is reported when no attempt succeeds. The caller makes the connections and
//! the pauses and reports each attempt's outcome.

use vstd::prelude::*;
use crate::discovery::{
    IpAddress, connect_order, order_client_ips, v6_link_local, is_unicast_link_local_v6,
    lemma_connect_order_len,
};

verus! {

/// Attempts made on each usable address.
pub const CONNECT_ATTEMPTS: u32 = 3;

/// The shortest time an attempt gets, in nanoseconds (500 ms).
pub const MIN_ATTEMPT_TIMEOUT_NS: u128 = 500_000_000;

/// Pause after a failed attempt, in milliseconds.
pub const RETRY_PAUSE_MS: u64 = 150;

/// The addresses to try, in order, and the time each attempt gets.
pub struct ConnectPlan {
    pub ips: Vec<IpAddress>,
    pub attempt_timeout_ns: u128,
}

/// The time each attempt gets: the whole timeout shared among the `n`
/// addresses (rounded down to the nanosecond), but at least 500 ms.
pub open spec fn attempt_timeout(timeout_ns: u128, n: nat) -> u128 {
    let share = timeout_ns as int / n as int;
    if share >= MIN_ATTEMPT_TIMEOUT_NS { share as u128 } else { MIN_ATTEMPT_TIMEOUT_NS }
}

/// Plans the connection to a client known by `client_ips` within `timeout_ns`:
/// `None` when there is no address at all.
pub fn connect_plan(client_ips: &Vec<IpAddress>, timeout_ns: u128) -> (r: Option<ConnectPlan>)
    ensures
        r is None <==> client_ips@.len() == 0,
        r matches Some(p) ==> {
            &&& p.ips@ == connect_order(client_ips@)
            &&& p.ips@.len() > 0
            &&& p.attempt_timeout_ns == attempt_timeout(timeout_ns, p.ips@.len())
        },
{
    proof {
        lemma_connect_order_len(client_ips@);
    }
    if client_ips.len() == 0 {
        return None;
    }
    let ips = order_client_ips(client_ips);
    let n: u128 = ips.len() as u128;
    let share: u128 = timeout_ns / n;
    let attempt_timeout_ns = if share >= MIN_ATTEMPT_TIMEOUT_NS { share } else { MIN_ATTEMPT_TIMEOUT_NS };
    Some(ConnectPlan { ips, attempt_timeout_ns })
}

/// Where a connection run stands: the address being worked on, the attempt on
/// it (from 0), and whether any attempt has failed so far.
#[derive(Clone, Copy, Debug, PartialEq, Eq, Structural)]
pub struct ConnectProgress {
    pub index: usize,
    pub attempt: u32,
    pub failed_once: bool,
}

/// What the caller does next.
#[derive(Clone, Copy, Debug, PartialEq, Eq, Structural)]
pub enum ConnectAction {
    /// Skip this address: a link-local IPv6 address, unusable without a scope id.
    Skip(IpAddress),
    /// Connect to this address (attempt number from 0) with the plan's attempt timeout.
    Try { ip: IpAddress, attempt: u32 },
    /// Wait this many milliseconds.
    Pause(u64),
    /// The last attempt succeeded: the connection to this address is the result.
    Connected(IpAddress),
    /// Give up: with the last attempt's error when there was one, otherwise
    /// with "no client IPs could be connected".
    Fail { had_error: bool },
}

/// A run starts at the first address, attempt 0, with no failure.
pub fn connect_start() -> (p: ConnectProgress)
    ensures
        p == (ConnectProgress { index: 0, attempt: 0, failed_once: false }),
{
    ConnectProgress { index: 0, attempt: 0, failed_once: false }
}

/// Whether an address is skipped rather than tried.
pub open spec fn skipped(a: IpAddress) -> bool {
    a matches IpAddress::V6(x) && v6_link_local(x)
}

/// The states a run can be in: `last` is the outcome of the attempt the
/// previous step asked for, if it asked for one.
pub open spec fn connect_valid(ips: Seq<IpAddress>, p: ConnectProgress, last: Option<bool>) -> bool {
    &&& p.index <= ips.len()
    &&& p.attempt < CONNECT_ATTEMPTS
    &&& last is Some ==> p.index < ips.len() && !skipped(ips[p.index as int])
}

/// One step of the run, given the outcome of the attempt the previous step
/// asked for (`None` when it asked for none):
/// - a success ends the run with that address;
/// - a failure is followed by a 150 ms pause, and moves to the next attempt,
///   or to the next address after the third;
/// - otherwise, past the last address the run fails; a link-local IPv6 address
///   is skipped; any other address gets its next attempt.
pub open spec fn connect_next(ips: Seq<IpAddress>, p: ConnectProgress, last: Option<bool>) -> (
    ConnectProgress,
    ConnectAction,
) {
    match last {
        Some(true) => (p, ConnectAction::Connected(ips[p.index as int])),
        Some(false) => {
            let q = if p.attempt + 1 >= CONNECT_ATTEMPTS {
                ConnectProgress { index: (p.index + 1) as usize, attempt: 0, failed_once: true }
            } else {
                ConnectProgress { index: p.index, attempt: (p.attempt + 1) as u32, failed_once: true }
            };
            (q, ConnectAction::Pause(RETRY_PAUSE_MS))
        },
        None => if p.index >= ips.len() {
            (p, ConnectAction::Fail { had_error: p.failed_once })
        } else if skipped(ips[p.index as int]) {
            (
                ConnectProgress { index: (p.index + 1) as usize, attempt: 0, failed_once: p.failed_once },
                ConnectAction::Skip(ips[p.index as int]),
            )
        } else {
            (p, ConnectAction::Try { ip: ips[p.index as int], attempt: p.attempt })
        },
    }
}

/// What is left of a run; every step that does not end it makes this smaller.
pub open spec fn connect_measure(ips: Seq<IpAddress>, p: ConnectProgress, last: Option<bool>) -> int {
    (ips.len() - p.index) * 8 + (CONNECT_ATTEMPTS - p.attempt) * 2 + if last is None { 1int } else { 0int }
}

/// The next step of a connection run (see `connect_next`); the run goes on in a
/// valid state and, unless it ends, gets shorter.
pub fn connect_step(plan: &ConnectPlan, p: &ConnectProgress, last: Option<bool>) -> (r: (
    ConnectProgress,
    ConnectAction,
))
    requires
        connect_valid(plan.ips@, *p, last),
    ensures
        r == connect_next(plan.ips@, *p, last),
        match r.1 {
            ConnectAction::Try { .. } => {
                &&& connect_valid(plan.ips@, r.0, Some(true))
                &&& connect_valid(plan.ips@, r.0, Some(false))
                &&& connect_measure(plan.ips@, r.0, Some(true)) < connect_measure(plan.ips@, *p, last)
                &&& connect_measure(plan.ips@, r.0, Some(false)) < connect_measure(plan.ips@, *p, last)
            },
            ConnectAction::Pause(_) | ConnectAction::Skip(_) => {
                &&& connect_valid(plan.ips@, r.0, None)
                &&& connect_measure(plan.ips@, r.0, None) < connect_measure(plan.ips@, *p, last)
            },
            _ => true,
        },
{
    match last {
        Some(true) => (*p, ConnectAction::Connected(plan.ips[p.index])),
        Some(false) => {
            let n: usize = plan.ips.len();
            assert(p.index < n);
            let q = if p.attempt + 1 >= CONNECT_ATTEMPTS {
                ConnectProgress { index: p.index + 1, attempt: 0, failed_once: true }
            } else {
                ConnectProgress { index: p.index, attempt: p.attempt + 1, failed_once: true }
            };
            (q, ConnectAction::Pause(RETRY_PAUSE_MS))
        },
        None => {
            if p.index >= plan.ips.len() {
                (*p, ConnectAction::Fail { had_error: p.failed_once })
            } else {
                let ip = plan.ips[p.index];
                let skip = match ip {
                    IpAddress::V6(x) => is_unicast_link_local_v6(x),
                    IpAddress::V4(_) => false,
                };
                if skip {
                    (
                        ConnectProgress { index: p.index + 1, attempt: 0, failed_once: p.failed_once },
                        ConnectAction::Skip(ip),
                    )
                } else {
                    (*p, ConnectAction::Try { ip, attempt: p.attempt })
                }
            }
        },
    }
}

/// Each usable address gets its three attempts: from a fresh start on it
/// (attempt 0), failures give attempts 0, 1 and 2 on that address, each
/// followed by the pause, and then the run moves on to the next address,
/// again from attempt 0; a success on any of these attempts connects to that
/// address.
pub proof fn lemma_address_gets_all_attempts(ips: Seq<IpAddress>, index: usize, failed_once: bool)
    requires
        index < ips.len(),
        !skipped(ips[index as int]),
    ensures
        ({
            let ip = ips[index as int];
            let p0 = ConnectProgress { index, attempt: 0, failed_once };
            let (p1, a1) = connect_next(ips, p0, None);
            let (p2, a2) = connect_next(ips, p1, Some(false));
            let (p3, a3) = connect_next(ips, p2, None);
            let (p4, a4) = connect_next(ips, p3, Some(false));
            let (p5, a5) = connect_next(ips, p4, None);
            let (p6, a6) = connect_next(ips, p5, Some(false));
            &&& a1 == ConnectAction::Try { ip, attempt: 0 }
            &&& a2 == ConnectAction::Pause(150)
            &&& a3 == ConnectAction::Try { ip, attempt: 1 }
            &&& a4 == ConnectAction::Pause(150)
            &&& a5 == ConnectAction::Try { ip, attempt: 2 }
            &&& a6 == ConnectAction::Pause(150)
            &&& p6 == ConnectProgress { index: (index + 1) as usize, attempt: 0, failed_once: true }
            &&& connect_next(ips, p1, Some(true)).1 == ConnectAction::Connected(ip)
            &&& connect_next(ips, p3, Some(true)).1 == ConnectAction::Connected(ip)
            &&& connect_next(ips, p5, Some(true)).1 == ConnectAction::Connected(ip)
        }),
{
}

/// A skipped (link-local IPv6) address is never tried: the run moves on to the
/// next address from attempt 0.
pub proof fn lemma_skipped_address(ips: Seq<IpAddress>, p: ConnectProgress)
    requires
        p.index < ips.len(),
        skipped(ips[p.index as int]),
    ensures
        connect_next(ips, p, None) == (
            ConnectProgress { index: (p.index + 1) as usize, attempt: 0, failed_once: p.failed_once },
            ConnectAction::Skip(ips[p.index as int]),
        ),
{
}

/// A run fails only once every address has been worked through, and it
/// reports an error exactly when some attempt failed; a run that never tried
/// anything (every address skipped) fails without one.
pub proof fn lemma_fail_only_at_end(ips: Seq<IpAddress>, p: ConnectProgress, last: Option<bool>)
    requires
        connect_valid(ips, p, last),
    ensures
        connect_next(ips, p, last).1 is Fail <==> (last is None && p.index == ips.len()),
        connect_next(ips, p, last).1 matches ConnectAction::Fail { had_error } ==> had_error == p.failed_once,
{
}

/// A run starts on the first address with attempt 0 and no failure; an
/// address is only ever left with attempt 0 for the next one.
pub proof fn lemma_new_address_starts_at_zero(ips: Seq<IpAddress>, p: ConnectProgress, last: Option<bool>)
    requires
        ips.len() <= usize::MAX,
        connect_valid(ips, p, last),
    ensures
        connect_next(ips, p, last).0.index != p.index ==> connect_next(ips, p, last).0.attempt == 0,
        connect_next(ips, p, last).0.index != p.index ==> connect_next(ips, p, last).0.index == p.index + 1,
        last == Some(false) && connect_next(ips, p, last).0.index != p.index ==> p.attempt + 1
            == CONNECT_ATTEMPTS,
{
}

} // verus!
