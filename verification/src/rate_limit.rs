//! The auth service's rate limiter: a counter per client IP in Redis, which
//! expires a window after the window's first request; a request is let
//! through while its count is at most the limit.
use vstd::prelude::*;
use crate::decimal::{decimal, parse_u32, parse_u64, parse_int, push_decimal, IntErrorKind};
use crate::error::{Code, Status};
use vstd::string::StringSliceAdditionalSpecFns;

verus! {

/// The limit: how many requests a client may make per window.
#[derive(Debug, Clone, Copy, PartialEq, Eq, Structural)]
pub struct RateLimiter {
    pub max_requests: u32,
    pub window_secs: u64,
}

/// Which setting of the rate limiter could not be read.
#[derive(Debug, Clone, Copy, PartialEq, Eq, Structural)]
pub enum LimitSetting {
    MaxRequests,
    WindowSecs,
}

/// Where the check of one request stands.
#[derive(Debug, Clone, Copy, PartialEq, Eq, Structural)]
pub enum LimitCheck {
    /// Waiting for the connection to Redis.
    Connecting,
    /// Waiting for the client's counter to be incremented.
    Counting,
    /// Waiting for the expiry of a new window's counter to be set.
    SettingExpiry { count: u32 },
    /// The request has been answered.
    Finished,
}

/// What Redis reported; errors are given by their message.
#[derive(Debug, PartialEq, Eq)]
pub enum LimitEvent {
    Connected(Result<(), String>),
    Incremented(Result<u32, String>),
    ExpirySet(Result<(), String>),
}

/// What to do next.
#[derive(Debug, PartialEq, Eq)]
pub enum LimitAction {
    /// Increment the counter `key` by one.
    Increment { key: String },
    /// Let the counter `key` expire after `seconds`.
    SetExpiry { key: String, seconds: i64 },
    /// Answer the request: let it through, or refuse it with the status.
    Reply(Result<(), Status>),
}

/// The Redis key of a client's counter: `ratelimit:<ip>`.
pub open spec fn counter_key(client_ip: Seq<char>) -> Seq<char> {
    "ratelimit:"@ + client_ip
}

/// Whether the request with the given count in its window is let through.
pub open spec fn allowed(max_requests: u32, count: u32) -> bool {
    count <= max_requests
}

/// The message of a refused request.
pub open spec fn limit_text(max_requests: u32, window_secs: u64) -> Seq<char> {
    "Too many requests. Distributed Redis limit exceeded. Allowed: "@ + decimal(max_requests as nat)
        + " req/"@ + decimal(window_secs as nat) + "s"@
}

/// `reply` is the answer for the count `count` in its window.
pub open spec fn is_verdict(limiter: RateLimiter, count: u32, reply: Result<(), Status>) -> bool {
    if allowed(limiter.max_requests, count) {
        reply is Ok
    } else {
        reply matches Err(s) && s.code == Code::ResourceExhausted && s.message@ == limit_text(
            limiter.max_requests,
            limiter.window_secs,
        )
    }
}

/// `event` is what the check can be told in `state`.
pub open spec fn expects(state: LimitCheck, event: LimitEvent) -> bool {
    match state {
        LimitCheck::Connecting => event is Connected,
        LimitCheck::Counting => event is Incremented,
        LimitCheck::SettingExpiry { .. } => event is ExpirySet,
        LimitCheck::Finished => false,
    }
}

/// The decision of the limiter for `event` in `state`.
pub open spec fn step_spec(
    limiter: RateLimiter,
    client_ip: Seq<char>,
    state: LimitCheck,
    event: LimitEvent,
    next: LimitCheck,
    action: LimitAction,
) -> bool {
    match (state, event) {
        (LimitCheck::Connecting, LimitEvent::Connected(Err(m))) => {
            &&& next == LimitCheck::Finished
            &&& action matches LimitAction::Reply(Err(s))
            &&& s.code == Code::Internal
            &&& s.message@ == "Redis connection failed: "@ + m@
        },
        (LimitCheck::Connecting, LimitEvent::Connected(Ok(()))) => {
            &&& next == LimitCheck::Counting
            &&& action matches LimitAction::Increment { key }
            &&& key@ == counter_key(client_ip)
        },
        (LimitCheck::Counting, LimitEvent::Incremented(Err(m))) => {
            &&& next == LimitCheck::Finished
            &&& action matches LimitAction::Reply(Err(s))
            &&& s.code == Code::Internal
            &&& s.message@ == m@
        },
        (LimitCheck::Counting, LimitEvent::Incremented(Ok(count))) => if count == 1 {
            &&& next == (LimitCheck::SettingExpiry { count })
            &&& action matches LimitAction::SetExpiry { key, seconds }
            &&& key@ == counter_key(client_ip)
            &&& seconds == limiter.window_secs as i64
        } else {
            &&& next == LimitCheck::Finished
            &&& action matches LimitAction::Reply(r)
            &&& is_verdict(limiter, count, r)
        },
        (LimitCheck::SettingExpiry { .. }, LimitEvent::ExpirySet(Err(m))) => {
            &&& next == LimitCheck::Finished
            &&& action matches LimitAction::Reply(Err(s))
            &&& s.code == Code::Internal
            &&& s.message@ == m@
        },
        (LimitCheck::SettingExpiry { count }, LimitEvent::ExpirySet(Ok(()))) => {
            &&& next == LimitCheck::Finished
            &&& action matches LimitAction::Reply(r)
            &&& is_verdict(limiter, count, r)
        },
        _ => false,
    }
}

impl RateLimiter {
    pub fn new(max_requests: u32, window_secs: u64) -> (r: RateLimiter)
        ensures
            r == (RateLimiter { max_requests, window_secs }),
    {
        RateLimiter { max_requests, window_secs }
    }

    /// The limiter from the texts of its settings, `MAX_REQUESTS` and
    /// `WINDOWS_REQUEST_SECS`, read as `str::parse` reads a `u32` and a `u64`.
    pub fn from_settings(max_requests: &str, window_secs: &str) -> (res: Result<RateLimiter, (LimitSetting, IntErrorKind)>)
        ensures
            match parse_int(max_requests.spec_bytes(), false, 0, u32::MAX as int) {
                Err(e) => res == Err::<RateLimiter, (LimitSetting, IntErrorKind)>((LimitSetting::MaxRequests, e)),
                Ok(m) => match parse_int(window_secs.spec_bytes(), false, 0, u64::MAX as int) {
                    Err(e) => res == Err::<RateLimiter, (LimitSetting, IntErrorKind)>((LimitSetting::WindowSecs, e)),
                    Ok(w) => res matches Ok(r) && r.max_requests == m && r.window_secs == w,
                },
            },
    {
        let max = match parse_u32(max_requests) {
            Ok(m) => m,
            Err(e) => {
                return Err((LimitSetting::MaxRequests, e));
            },
        };
        match parse_u64(window_secs) {
            Ok(w) => Ok(RateLimiter { max_requests: max, window_secs: w }),
            Err(e) => Err((LimitSetting::WindowSecs, e)),
        }
    }

    /// The client of a request: its `x-forwarded-for` metadata (where it is
    /// visible ASCII), else `127.0.0.1`.
    pub fn client_ip(forwarded_for: Option<&str>) -> (ip: String)
        ensures
            match forwarded_for {
                Some(f) => ip@ == f@,
                None => ip@ == "127.0.0.1"@,
            },
    {
        match forwarded_for {
            Some(f) => f.to_owned(),
            None => "127.0.0.1".to_owned(),
        }
    }

    /// The Redis key of a client's counter.
    pub fn redis_key(client_ip: &str) -> (key: String)
        ensures
            key@ == counter_key(client_ip@),
            key@.len() == 10 + client_ip@.len(),
            key@.skip(10) == client_ip@,
    {
        proof {
            law_counter_key_carries_client(client_ip@);
        }
        let mut key = "ratelimit:".to_owned();
        key.append(client_ip);
        key
    }

    /// The answer for a request whose count in its window is `count`.
    pub fn verdict(&self, count: u32) -> (reply: Result<(), Status>)
        ensures
            is_verdict(*self, count, reply),
    {
        if count > self.max_requests {
            let mut text = "Too many requests. Distributed Redis limit exceeded. Allowed: ".to_owned();
            push_decimal(&mut text, self.max_requests as u64);
            text.append(" req/");
            push_decimal(&mut text, self.window_secs);
            text.append("s");
            Err(Status { code: Code::ResourceExhausted, message: text })
        } else {
            Ok(())
        }
    }

    /// Where the check of a new request starts: connecting to Redis.
    pub fn start(&self) -> (state: LimitCheck)
        ensures
            state == LimitCheck::Connecting,
    {
        LimitCheck::Connecting
    }

    /// The next state of the check of a request from `client_ip`, and what to
    /// do, when Redis reports `event` in `state`.
    pub fn step(&self, client_ip: &str, state: LimitCheck, event: LimitEvent) -> (res: (LimitCheck, LimitAction))
        requires
            expects(state, event),
        ensures
            step_spec(*self, client_ip@, state, event, res.0, res.1),
    {
        match (state, event) {
            (LimitCheck::Connecting, LimitEvent::Connected(Err(m))) => {
                let mut text = "Redis connection failed: ".to_owned();
                text.append(m.as_str());
                (LimitCheck::Finished, LimitAction::Reply(Err(Status { code: Code::Internal, message: text })))
            },
            (LimitCheck::Connecting, LimitEvent::Connected(Ok(()))) => {
                (LimitCheck::Counting, LimitAction::Increment { key: Self::redis_key(client_ip) })
            },
            (LimitCheck::Counting, LimitEvent::Incremented(Err(m))) => {
                (LimitCheck::Finished, LimitAction::Reply(Err(Status { code: Code::Internal, message: m })))
            },
            (LimitCheck::Counting, LimitEvent::Incremented(Ok(count))) => {
                if count == 1 {
                    let seconds = self.window_secs as i64;
                    (LimitCheck::SettingExpiry { count }, LimitAction::SetExpiry { key: Self::redis_key(client_ip), seconds })
                } else {
                    (LimitCheck::Finished, LimitAction::Reply(self.verdict(count)))
                }
            },
            (LimitCheck::SettingExpiry { .. }, LimitEvent::ExpirySet(Err(m))) => {
                (LimitCheck::Finished, LimitAction::Reply(Err(Status { code: Code::Internal, message: m })))
            },
            (LimitCheck::SettingExpiry { count }, LimitEvent::ExpirySet(Ok(()))) => {
                (LimitCheck::Finished, LimitAction::Reply(self.verdict(count)))
            },
            (_, _) => {
                proof {
                    assert(false);
                }
                (LimitCheck::Finished, LimitAction::Reply(Ok(())))
            },
        }
    }
}

/// How many of the requests counted 1 to `n` in a window are let through.
pub open spec fn let_through(max_requests: u32, n: u32) -> nat
    decreases n,
{
    if n == 0 {
        0
    } else {
        let_through(max_requests, (n - 1) as u32) + if allowed(max_requests, n) {
            1nat
        } else {
            0nat
        }
    }
}

/// The limit holds over a window: of the requests counted 1 to `n` in a
/// window, exactly `min(n, max_requests)` are let through.
pub proof fn law_window_limit(max_requests: u32, n: u32)
    ensures
        let_through(max_requests, n) == if n <= max_requests { n as nat } else { max_requests as nat },
    decreases n,
{
    if n > 0 {
        law_window_limit(max_requests, (n - 1) as u32);
    }
}

/// The counter's expiry is set on the first request of a window and on no
/// other: a connected check that counts `count` asks for the expiry exactly
/// when `count` is 1, and only then waits for it.
pub proof fn law_expiry_set_once(
    limiter: RateLimiter,
    client_ip: Seq<char>,
    count: u32,
    next: LimitCheck,
    action: LimitAction,
)
    requires
        step_spec(limiter, client_ip, LimitCheck::Counting, LimitEvent::Incremented(Ok(count)), next, action),
    ensures
        (action is SetExpiry) <==> count == 1,
        (next is SettingExpiry) <==> count == 1,
{
}

/// A client's counter key carries the client whole after `ratelimit:`, so
/// different clients never share a counter.
pub proof fn law_counter_key_carries_client(client_ip: Seq<char>)
    ensures
        counter_key(client_ip).len() == 10 + client_ip.len(),
        counter_key(client_ip).skip(10) == client_ip,
{
    reveal_strlit("ratelimit:");
    assert(counter_key(client_ip).skip(10) =~= client_ip);
}

/// Different clients have different counters.
pub proof fn law_counter_key_injective(a: Seq<char>, b: Seq<char>)
    ensures
        counter_key(a) == counter_key(b) ==> a == b,
{
    law_counter_key_carries_client(a);
    law_counter_key_carries_client(b);
}

} // verus!
