//! Connection circuit-breaker. A server that failed to connect is not
//! re-dialed until a cooldown has elapsed since its last failure; the
//! cooldown doubles with each consecutive failure up to a cap, and a
//! successful connect clears the server's state.
use crate::clock;
use crate::error::{McpError, STATUS_SERVICE_UNAVAILABLE};
use crate::text;
use std::collections::HashMap;
use std::time::{Duration, Instant};
use vstd::prelude::*;
use vstd::string::StringExecFns;

verus! {

/// First cooldown after a single failure, in seconds.
pub const BREAKER_BASE_COOLDOWN_SECS: u64 = 1;

/// Ceiling on the cooldown, in seconds (five minutes).
pub const BREAKER_MAX_COOLDOWN_SECS: u64 = 300;

/// Idle reaper cadence, in seconds.
pub const REAPER_TICK_SECS: u64 = 60;

/// A pooled session idle for longer than this many seconds is closed.
pub const REAPER_MAX_IDLE_SECONDS: u64 = 1800;

/// Per-server connect-failure state.
#[derive(Clone, Debug)]
pub struct BreakerState {
    /// Instant of the most recent failed connect attempt.
    pub last_failure: Instant,
    /// Number of consecutive failures.
    pub consecutive: u32,
    /// The most recent connection error message.
    pub last_error: String,
}

/// `2^k`.
pub open spec fn pow2(k: nat) -> nat
    decreases k,
{
    if k == 0 {
        1
    } else {
        2 * pow2((k - 1) as nat)
    }
}

/// The exponent of the cooldown for `consecutive` failures:
/// `consecutive - 1`, saturating at 0 and capped at 63.
pub open spec fn backoff_shift(consecutive: u32) -> nat {
    if consecutive == 0 {
        0
    } else if consecutive - 1 > 63 {
        63
    } else {
        (consecutive - 1) as nat
    }
}

/// Cooldown in seconds for `consecutive` consecutive failures:
/// `base * 2^(consecutive - 1)`, saturating at the cap.
pub open spec fn backoff_secs(consecutive: u32) -> nat {
    let scaled: nat = (BREAKER_BASE_COOLDOWN_SECS as nat) * pow2(backoff_shift(consecutive));
    if scaled < BREAKER_MAX_COOLDOWN_SECS {
        scaled
    } else {
        BREAKER_MAX_COOLDOWN_SECS as nat
    }
}

proof fn lemma_pow2_mono(a: nat, b: nat)
    requires
        a <= b,
    ensures
        pow2(a) <= pow2(b),
    decreases b,
{
    if a < b {
        lemma_pow2_mono(a, (b - 1) as nat);
    }
}

/// Each further failure doubles the cooldown until it reaches the cap,
/// where it stays.
pub proof fn law_backoff_doubles_until_cap(consecutive: u32)
    requires
        1 <= consecutive < u32::MAX,
    ensures
        backoff_secs((consecutive + 1) as u32) == if 2 * backoff_secs(consecutive)
            < BREAKER_MAX_COOLDOWN_SECS {
            2 * backoff_secs(consecutive)
        } else {
            BREAKER_MAX_COOLDOWN_SECS as nat
        },
{
    let c = consecutive;
    let n = (c + 1) as u32;
    if c - 1 >= 63 {
        assert(backoff_shift(c) == 63);
        assert(backoff_shift(n) == 63);
        lemma_pow2_mono(9, 63);
        assert(pow2(9) == 512) by {
            reveal_with_fuel(pow2, 10);
        }
    } else {
        assert(backoff_shift(n) == backoff_shift(c) + 1);
        assert(pow2(backoff_shift(n)) == 2 * pow2(backoff_shift(c)));
        if pow2(backoff_shift(c)) >= BREAKER_MAX_COOLDOWN_SECS {
            lemma_pow2_mono(backoff_shift(c), backoff_shift(n));
        }
    }
}

/// The cooldown for `consecutive` failures in whole seconds.
fn backoff_seconds(consecutive: u32) -> (r: u64)
    ensures
        r == backoff_secs(consecutive),
        BREAKER_BASE_COOLDOWN_SECS <= r <= BREAKER_MAX_COOLDOWN_SECS,
{
    let shift: u32 = if consecutive == 0 {
        0
    } else if consecutive - 1 > 63 {
        63
    } else {
        consecutive - 1
    };
    let mut scaled: u64 = BREAKER_BASE_COOLDOWN_SECS;
    let mut i: u32 = 0;
    while i < shift && scaled < BREAKER_MAX_COOLDOWN_SECS
        invariant
            i <= shift,
            shift == backoff_shift(consecutive),
            scaled == pow2(i as nat),
            scaled < 2 * BREAKER_MAX_COOLDOWN_SECS,
        decreases shift - i,
    {
        scaled = scaled * 2;
        i = i + 1;
    }
    proof {
        lemma_pow2_mono(i as nat, shift as nat);
        lemma_pow2_mono(0, shift as nat);
    }
    if scaled < BREAKER_MAX_COOLDOWN_SECS {
        scaled
    } else {
        BREAKER_MAX_COOLDOWN_SECS
    }
}

/// Cooldown window for a server with `consecutive` consecutive failures:
/// one second doubled per further failure, at most five minutes. Zero
/// failures yield the base cooldown.
pub fn breaker_backoff(consecutive: u32) -> (d: Duration)
    ensures
        clock::duration_nanos(d) == backoff_secs(consecutive) * 1_000_000_000,
        BREAKER_BASE_COOLDOWN_SECS <= backoff_secs(consecutive) <= BREAKER_MAX_COOLDOWN_SECS,
{
    clock::duration_from_secs(backoff_seconds(consecutive))
}

/// Whether a fresh connect may be attempted at `now` for a server in
/// `state`: always when it has no failure state, otherwise once the
/// cooldown for its failure count has fully elapsed since its last failure.
pub open spec fn attempt_allowed(state: Option<BreakerState>, now: Instant) -> bool {
    match state {
        None => true,
        Some(s) => clock::duration_nanos(clock::saturating_since(now, s.last_failure))
            >= backoff_secs(s.consecutive) * 1_000_000_000,
    }
}

/// Whether a fresh connect should be attempted at `now`, given a server's
/// breaker state (see [`attempt_allowed`]).
pub fn should_attempt_connect(state: Option<&BreakerState>, now: Instant) -> (r: bool)
    ensures
        r == attempt_allowed(
            match state {
                Some(s) => Some(*s),
                None => None,
            },
            now,
        ),
        state matches Some(s) && s.last_failure == now ==> !r,
{
    match state {
        None => true,
        Some(s) => {
            let elapsed = clock::instant_saturating_since(&now, s.last_failure);
            let window = breaker_backoff(s.consecutive);
            clock::duration_as_nanos(&elapsed) >= clock::duration_as_nanos(&window)
        },
    }
}

/// The state after one more failure at `now` with error `err`.
pub open spec fn after_failure(prev: Option<BreakerState>, now: Instant, err: Seq<char>) -> (
    Instant,
    u32,
    Seq<char>,
) {
    let c = match prev {
        Some(s) => if s.consecutive == u32::MAX {
            u32::MAX
        } else {
            (s.consecutive + 1) as u32
        },
        None => 1u32,
    };
    (now, c, err)
}

/// Per-server breaker states, keyed by the server's id.
pub struct ConnectionBreaker {
    failures: HashMap<u128, BreakerState>,
}

impl ConnectionBreaker {
    /// The breaker state of each server that is in a failing streak.
    pub closed spec fn view(&self) -> Map<u128, BreakerState> {
        self.failures@
    }

    /// The state of `server_id`, if it has one.
    pub open spec fn state_of(&self, server_id: u128) -> Option<BreakerState> {
        if self.view().contains_key(server_id) {
            Some(self.view()[server_id])
        } else {
            None
        }
    }

    /// A breaker with no failing server.
    pub fn new() -> (r: ConnectionBreaker)
        ensures
            r.view() == Map::<u128, BreakerState>::empty(),
    {
        ConnectionBreaker { failures: HashMap::new() }
    }

    /// The state of `server_id`, if it is failing.
    pub fn get(&self, server_id: u128) -> (r: Option<&BreakerState>)
        ensures
            match r {
                Some(s) => self.state_of(server_id) == Some(*s),
                None => self.state_of(server_id) is None,
            },
    {
        self.failures.get(&server_id)
    }

    /// Gate before a connect: `Err` with status 503 and code
    /// `MCP_SERVER_UNREACHABLE`, naming the failure count and the last
    /// error, when `server_id` is inside its cooldown at `now`; `Ok` when a
    /// connect should be attempted.
    pub fn check(&self, server_id: u128, now: Instant) -> (r: Result<(), McpError>)
        ensures
            r is Ok <==> attempt_allowed(self.state_of(server_id), now),
            self.state_of(server_id) matches Some(s) && s.last_failure == now ==> r is Err,
            r matches Err(e) ==> e.status == STATUS_SERVICE_UNAVAILABLE && e.code@
                == "MCP_SERVER_UNREACHABLE"@ && e.message@
                == "MCP server is unreachable and in a connection cooldown after "@
                + text::decimal(self.state_of(server_id)->0.consecutive as nat)
                + " consecutive failure(s); last error: "@ + self.state_of(server_id)->0.last_error@,
    {
        match self.failures.get(&server_id) {
            None => Ok(()),
            Some(state) => {
                if should_attempt_connect(Some(state), now) {
                    Ok(())
                } else {
                    let count = text::decimal_string(state.consecutive as u64);
                    let msg = String::from_str(
                        "MCP server is unreachable and in a connection cooldown after ",
                    ).concat(count.as_str()).concat(
                        " consecutive failure(s); last error: ",
                    ).concat(state.last_error.as_str());
                    Err(
                        McpError::new(
                            STATUS_SERVICE_UNAVAILABLE,
                            "MCP_SERVER_UNREACHABLE",
                            msg,
                        ),
                    )
                }
            },
        }
    }

    /// Record a failed connect of `server_id` at `now`: its failure count
    /// grows by one (saturating), the failure instant and error are
    /// replaced. Other servers are untouched.
    pub fn record_failure(&mut self, server_id: u128, err: String, now: Instant)
        ensures
            final(self).view().dom() == old(self).view().dom().insert(server_id),
            forall|k: u128|
                k != server_id && old(self).view().contains_key(k)
                    ==> #[trigger] final(self).view()[k] == old(self).view()[k],
            ({
                let s = final(self).view()[server_id];
                (s.last_failure, s.consecutive, s.last_error@) == after_failure(
                    old(self).state_of(server_id),
                    now,
                    err@,
                )
            }),
    {
        let consecutive: u32 = match self.failures.get(&server_id) {
            Some(s) => if s.consecutive == u32::MAX {
                u32::MAX
            } else {
                s.consecutive + 1
            },
            None => 1,
        };
        let state = BreakerState { last_failure: now, consecutive, last_error: err };
        self.failures.insert(server_id, state);
    }

    /// Clear `server_id`'s state after a successful connect.
    pub fn clear(&mut self, server_id: u128)
        ensures
            final(self).view() == old(self).view().remove(server_id),
    {
        self.failures.remove(&server_id);
    }
}

/// A server without failure state (never failed, or cleared by a
/// successful connect) may always be dialed.
pub proof fn law_cleared_breaker_always_attempts(b: ConnectionBreaker, server_id: u128, now: Instant)
    requires
        !b.view().contains_key(server_id),
    ensures
        attempt_allowed(b.state_of(server_id), now),
{
}

} // verus!
