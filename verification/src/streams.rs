//! The decisions of the streaming loops: the price receiver, which stores
//! the prices that a client streams in; the tracking service's price watch,
//! which streams recently changed routes out; the notification worker, which
//! forwards that stream to Kafka; and the Telegram worker, which turns Kafka
//! messages into chat messages.
use vstd::prelude::*;
use vstd::string::StringSliceAdditionalSpecFns;
use crate::decimal::{law_i64_text_roundtrip, parse_i64, parse_int, signed_decimal, IntErrorKind};
use crate::error::{Code, Status};
use vstd::utf8::encode_utf8;

verus! {

/// How far back the price watch looks for changed routes, and how long it
/// waits between two looks, in seconds.
pub const WATCH_INTERVAL_SECS: u64 = 5;

/// The Kafka topic that the notification worker publishes price updates to.
pub open spec fn price_topic() -> Seq<char> {
    "price-alerts"@
}

/// What happened while receiving prices.
#[derive(Debug, PartialEq, Eq)]
pub enum ReceiveEvent {
    /// The client's stream gave a price for a route, or failed.
    Item(Result<i32, Status>),
    /// The client's stream has ended.
    End,
    /// The route's price was stored, or the database failed with the message.
    Stored(Result<(), String>),
}

/// What the price receiver does next.
#[derive(Debug, PartialEq, Eq)]
pub enum ReceiveAction {
    /// Store the new price of the route.
    Store { route_id: i32 },
    /// Answer the client and wait for the next price; an answer that cannot
    /// be delivered is only logged.
    Answer(Result<(), Status>),
    /// Answer the client with the error and stop.
    Fail(Status),
    /// Stop.
    Stop,
}

/// Where the price receiver stands.
#[derive(Debug, Clone, Copy, PartialEq, Eq, Structural)]
pub enum ReceiveState {
    Waiting,
    Storing,
    Stopped,
}

pub open spec fn receive_expects(state: ReceiveState, event: ReceiveEvent) -> bool {
    match state {
        ReceiveState::Waiting => event is Item || event is End,
        ReceiveState::Storing => event is Stored,
        ReceiveState::Stopped => false,
    }
}

/// The next state and action of the price receiver on `event`: a price is
/// stored, a stored price is answered and the next one awaited; the end of
/// the stream, a failed stream or a failed store stops it (the failures are
/// answered first, a store failure as `Internal`).
pub open spec fn receive_next(event: ReceiveEvent) -> (ReceiveState, ReceiveAction) {
    match event {
        ReceiveEvent::Item(Ok(route_id)) => (ReceiveState::Storing, ReceiveAction::Store { route_id }),
        ReceiveEvent::Item(Err(s)) => (ReceiveState::Stopped, ReceiveAction::Fail(s)),
        ReceiveEvent::End => (ReceiveState::Stopped, ReceiveAction::Stop),
        ReceiveEvent::Stored(Ok(())) => (ReceiveState::Waiting, ReceiveAction::Answer(Ok(()))),
        ReceiveEvent::Stored(Err(m)) => (
            ReceiveState::Stopped,
            ReceiveAction::Fail(Status { code: Code::Internal, message: m }),
        ),
    }
}

/// The actions of the price receiver over `events` from `state`, and the
/// state it ends in.
pub open spec fn receive_run(state: ReceiveState, events: Seq<ReceiveEvent>) -> (ReceiveState, Seq<ReceiveAction>)
    decreases events.len(),
{
    if events.len() == 0 {
        (state, Seq::empty())
    } else {
        let (next, action) = receive_next(events[0]);
        let (last, rest) = receive_run(next, events.skip(1));
        (last, seq![action] + rest)
    }
}

/// A client's stream of prices for `routes`, each stored without error,
/// then its end.
pub open spec fn price_stream(routes: Seq<i32>) -> Seq<ReceiveEvent>
    decreases routes.len(),
{
    if routes.len() == 0 {
        seq![ReceiveEvent::End]
    } else {
        seq![ReceiveEvent::Item(Ok(routes[0])), ReceiveEvent::Stored(Ok(()))] + price_stream(routes.skip(1))
    }
}

/// Storing each route's price and answering it, in order, then stopping.
pub open spec fn price_answers(routes: Seq<i32>) -> Seq<ReceiveAction>
    decreases routes.len(),
{
    if routes.len() == 0 {
        seq![ReceiveAction::Stop]
    } else {
        seq![ReceiveAction::Store { route_id: routes[0] }, ReceiveAction::Answer(Ok(()))] + price_answers(
            routes.skip(1),
        )
    }
}

/// A stream of prices is answered item by item, in order: each price is
/// stored and then answered before the next one is read, and the end of the
/// stream stops the receiver after the last answer.
pub proof fn law_prices_answered_in_order(routes: Seq<i32>)
    ensures
        receive_run(ReceiveState::Waiting, price_stream(routes)) == (ReceiveState::Stopped, price_answers(routes)),
    decreases routes.len(),
{
    let events = price_stream(routes);
    if routes.len() == 0 {
        assert(events.skip(1) =~= Seq::<ReceiveEvent>::empty());
        assert(receive_run(ReceiveState::Stopped, events.skip(1)) == (ReceiveState::Stopped, Seq::<ReceiveAction>::empty()));
        assert(seq![ReceiveAction::Stop] + Seq::<ReceiveAction>::empty() =~= price_answers(routes));
    } else {
        let rest = price_stream(routes.skip(1));
        law_prices_answered_in_order(routes.skip(1));
        assert(events[0] == ReceiveEvent::Item(Ok(routes[0])));
        assert(events.skip(1)[0] == ReceiveEvent::Stored(Ok(())));
        assert(events.skip(1).skip(1) =~= rest);
        let inner = receive_run(ReceiveState::Storing, events.skip(1));
        assert(inner == (ReceiveState::Stopped, seq![ReceiveAction::Answer(Ok(()))] + price_answers(routes.skip(1))));
        assert(seq![ReceiveAction::Store { route_id: routes[0] }] + inner.1 =~= price_answers(routes));
    }
}

/// The next state and action of the price receiver.
pub fn receive_step(state: ReceiveState, event: ReceiveEvent) -> (res: (ReceiveState, ReceiveAction))
    requires
        receive_expects(state, event),
    ensures
        res == receive_next(event),
{
    match event {
        ReceiveEvent::Item(Ok(route_id)) => (ReceiveState::Storing, ReceiveAction::Store { route_id }),
        ReceiveEvent::Item(Err(s)) => (ReceiveState::Stopped, ReceiveAction::Fail(s)),
        ReceiveEvent::End => (ReceiveState::Stopped, ReceiveAction::Stop),
        ReceiveEvent::Stored(Ok(())) => (ReceiveState::Waiting, ReceiveAction::Answer(Ok(()))),
        ReceiveEvent::Stored(Err(m)) => (ReceiveState::Stopped, ReceiveAction::Fail(Status { code: Code::Internal, message: m })),
    }
}

/// What happened while watching prices.
#[derive(Debug, Clone, Copy, PartialEq, Eq, Structural)]
pub enum WatchEvent {
    /// The look for recently changed routes found this many.
    Found { count: usize },
    /// The look for recently changed routes failed.
    LookFailed,
    /// A route was sent to the watcher.
    Sent,
    /// The watcher has gone away.
    Gone,
    /// The wait between two looks is over.
    Waited,
}

/// What the price watch does next.
#[derive(Debug, Clone, Copy, PartialEq, Eq, Structural)]
pub enum WatchAction {
    /// Look for the routes changed in the last `within_secs` seconds.
    Look { within_secs: u64 },
    /// Send the route at `index` of those found.
    Send { index: usize },
    /// Wait `secs` seconds.
    Wait { secs: u64 },
    /// Stop watching.
    Stop,
}

/// Where the price watch stands.
#[derive(Debug, Clone, Copy, PartialEq, Eq, Structural)]
pub enum WatchState {
    Looking,
    /// Sending the found routes; `next` of `found` have been sent.
    Sending { next: usize, found: usize },
    Waiting,
    Stopped,
}

pub open spec fn watch_expects(state: WatchState, event: WatchEvent) -> bool {
    match state {
        WatchState::Looking => event is Found || event is LookFailed,
        WatchState::Sending { next, found } => (event is Sent || event is Gone) && next < found,
        WatchState::Waiting => event is Waited,
        WatchState::Stopped => false,
    }
}

/// The first step of the price watch: a look.
pub fn watch_start() -> (res: (WatchState, WatchAction))
    ensures
        res == (WatchState::Looking, WatchAction::Look { within_secs: WATCH_INTERVAL_SECS }),
{
    (WatchState::Looking, WatchAction::Look { within_secs: WATCH_INTERVAL_SECS })
}

/// What to do with `found` routes from index `next` on: send the next one,
/// or wait for the next look.
pub open spec fn send_or_wait(next: usize, found: usize) -> (WatchState, WatchAction) {
    if next < found {
        (WatchState::Sending { next, found }, WatchAction::Send { index: next })
    } else {
        (WatchState::Waiting, WatchAction::Wait { secs: WATCH_INTERVAL_SECS })
    }
}

/// The next state and action of the price watch on `event` in `state`.
pub open spec fn watch_next(state: WatchState, event: WatchEvent) -> (WatchState, WatchAction) {
    match (state, event) {
        (WatchState::Looking, WatchEvent::LookFailed) => (WatchState::Stopped, WatchAction::Stop),
        (WatchState::Looking, WatchEvent::Found { count }) => send_or_wait(0, count),
        (WatchState::Sending { next, found }, WatchEvent::Sent) => send_or_wait((next + 1) as usize, found),
        (WatchState::Sending { .. }, WatchEvent::Gone) => (WatchState::Waiting, WatchAction::Wait { secs: WATCH_INTERVAL_SECS }),
        (WatchState::Waiting, WatchEvent::Waited) => (WatchState::Looking, WatchAction::Look { within_secs: WATCH_INTERVAL_SECS }),
        _ => (WatchState::Stopped, WatchAction::Stop),
    }
}

/// The actions of the price watch over the events `events` from `state`,
/// and the state it ends in.
pub open spec fn watch_run(state: WatchState, events: Seq<WatchEvent>) -> (WatchState, Seq<WatchAction>)
    decreases events.len(),
{
    if events.len() == 0 {
        (state, Seq::empty())
    } else {
        let (next, action) = watch_next(state, events[0]);
        let (last, rest) = watch_run(next, events.skip(1));
        (last, seq![action] + rest)
    }
}

/// `n` reports that a route was sent.
pub open spec fn sent_events(n: nat) -> Seq<WatchEvent> {
    Seq::new(n, |j: int| WatchEvent::Sent)
}

/// Sending the routes at indices `from` to `found - 1`.
pub open spec fn sends(from: nat, found: nat) -> Seq<WatchAction> {
    Seq::new((found - from) as nat, |j: int| WatchAction::Send { index: (from + j) as usize })
}

proof fn lemma_watch_sends_rest(next: usize, found: usize)
    requires
        next < found,
    ensures
        watch_run(WatchState::Sending { next, found }, sent_events((found - next) as nat)) == (
            WatchState::Waiting,
            sends((next + 1) as nat, found as nat) + seq![WatchAction::Wait { secs: WATCH_INTERVAL_SECS }],
        ),
    decreases found - next,
{
    let events = sent_events((found - next) as nat);
    let wait = seq![WatchAction::Wait { secs: WATCH_INTERVAL_SECS }];
    assert(events[0] == WatchEvent::Sent);
    let st = WatchState::Sending { next, found };
    let step = watch_next(st, events[0]);
    let tail = watch_run(step.0, events.skip(1));
    assert(watch_run(st, events) == (tail.0, seq![step.1] + tail.1));
    if next + 1 == found {
        assert(step == (WatchState::Waiting, WatchAction::Wait { secs: WATCH_INTERVAL_SECS }));
        assert(events.skip(1) =~= Seq::<WatchEvent>::empty());
        assert(tail == (WatchState::Waiting, Seq::<WatchAction>::empty()));
        assert(sends((next + 1) as nat, found as nat) =~= Seq::<WatchAction>::empty());
        assert(seq![WatchAction::Wait { secs: WATCH_INTERVAL_SECS }] + Seq::<WatchAction>::empty() =~= wait);
    } else {
        let n1 = (next + 1) as usize;
        assert(step == (WatchState::Sending { next: n1, found }, WatchAction::Send { index: n1 }));
        lemma_watch_sends_rest(n1, found);
        assert(events.skip(1) =~= sent_events((found - n1) as nat));
        assert(seq![WatchAction::Send { index: n1 }] + (sends((n1 + 1) as nat, found as nat) + wait)
            =~= sends(n1 as nat, found as nat) + wait);
    }
}

/// A look's routes are streamed once each, in the order found, and only
/// then does the watch wait for its next look: a look that finds `found`
/// routes, followed by a delivered send of each, gives the actions send 0,
/// send 1, ..., send `found - 1`, wait.
pub proof fn law_found_routes_sent_in_order(found: usize)
    ensures
        watch_run(WatchState::Looking, seq![WatchEvent::Found { count: found }] + sent_events(found as nat)) == (
            WatchState::Waiting,
            sends(0, found as nat) + seq![WatchAction::Wait { secs: WATCH_INTERVAL_SECS }],
        ),
{
    let events = seq![WatchEvent::Found { count: found }] + sent_events(found as nat);
    let wait = seq![WatchAction::Wait { secs: WATCH_INTERVAL_SECS }];
    assert(events[0] == WatchEvent::Found { count: found });
    assert(events.skip(1) =~= sent_events(found as nat));
    let step = watch_next(WatchState::Looking, events[0]);
    let tail = watch_run(step.0, events.skip(1));
    assert(watch_run(WatchState::Looking, events) == (tail.0, seq![step.1] + tail.1));
    if found == 0 {
        assert(step == (WatchState::Waiting, WatchAction::Wait { secs: WATCH_INTERVAL_SECS }));
        assert(sent_events(0) =~= Seq::<WatchEvent>::empty());
        assert(tail == (WatchState::Waiting, Seq::<WatchAction>::empty()));
        assert(sends(0, 0) =~= Seq::<WatchAction>::empty());
        assert(seq![WatchAction::Wait { secs: WATCH_INTERVAL_SECS }] + Seq::<WatchAction>::empty() =~= wait);
    } else {
        assert(step == (WatchState::Sending { next: 0, found }, WatchAction::Send { index: 0 }));
        lemma_watch_sends_rest(0, found);
        assert(seq![WatchAction::Send { index: 0 }] + (sends(1, found as nat) + wait) =~= sends(0, found as nat) + wait);
    }
}

/// The next state and action of the price watch. A failed look stops it; a
/// watcher that has gone away ends the sending of the routes found, and the
/// watch goes on with its next look.
pub fn watch_step(state: WatchState, event: WatchEvent) -> (res: (WatchState, WatchAction))
    requires
        watch_expects(state, event),
    ensures
        res == watch_next(state, event),
        res.0 matches WatchState::Sending { next, found } ==> next < found && res.1 == (WatchAction::Send { index: next }),
{
    match (state, event) {
        (WatchState::Looking, WatchEvent::LookFailed) => (WatchState::Stopped, WatchAction::Stop),
        (WatchState::Looking, WatchEvent::Found { count: found }) => {
            if 0 < found {
                (WatchState::Sending { next: 0, found }, WatchAction::Send { index: 0 })
            } else {
                (WatchState::Waiting, WatchAction::Wait { secs: WATCH_INTERVAL_SECS })
            }
        },
        (WatchState::Sending { next, found }, WatchEvent::Sent) => {
            let n = next + 1;
            if n < found {
                (WatchState::Sending { next: n, found }, WatchAction::Send { index: n })
            } else {
                (WatchState::Waiting, WatchAction::Wait { secs: WATCH_INTERVAL_SECS })
            }
        },
        (WatchState::Sending { .. }, WatchEvent::Gone) => (WatchState::Waiting, WatchAction::Wait { secs: WATCH_INTERVAL_SECS }),
        (WatchState::Waiting, WatchEvent::Waited) => (WatchState::Looking, WatchAction::Look { within_secs: WATCH_INTERVAL_SECS }),
        (_, _) => {
            proof {
                assert(false);
            }
            (WatchState::Stopped, WatchAction::Stop)
        },
    }
}

/// What happened in the notification worker.
#[derive(Debug, PartialEq, Eq)]
pub enum NotifyEvent {
    /// The tracking service's stream gave a price update for the route
    /// named here, or failed.
    Received(Result<String, Status>),
    /// The stream has ended.
    End,
    /// The update was published to Kafka, or publishing failed.
    Published(Result<(), String>),
}

/// What the notification worker does next.
#[derive(Debug, PartialEq, Eq)]
pub enum NotifyAction {
    /// Publish the update to `topic`, keyed by the route's name.
    Publish { topic: String, key: String },
    /// Wait for the next update.
    Next,
    /// The stream is over: stop and report that it closed.
    Close,
    /// Stop with the publishing error.
    Fail(String),
}

/// The next action of the notification worker.
pub fn notify_step(event: NotifyEvent) -> (action: NotifyAction)
    ensures
        match event {
            NotifyEvent::Received(Ok(route)) => action matches NotifyAction::Publish { topic, key } && topic@ == price_topic() && key@ == route@,
            NotifyEvent::Received(Err(_)) => action == NotifyAction::Close,
            NotifyEvent::End => action == NotifyAction::Close,
            NotifyEvent::Published(Ok(())) => action == NotifyAction::Next,
            NotifyEvent::Published(Err(m)) => action == NotifyAction::Fail(m),
        },
{
    match event {
        NotifyEvent::Received(Ok(route)) => NotifyAction::Publish { topic: "price-alerts".to_owned(), key: route },
        NotifyEvent::Received(Err(_)) => NotifyAction::Close,
        NotifyEvent::End => NotifyAction::Close,
        NotifyEvent::Published(Ok(())) => NotifyAction::Next,
        NotifyEvent::Published(Err(m)) => NotifyAction::Fail(m),
    }
}

/// The Telegram chat of a notification: its `user_id` field (where it is a
/// JSON string), else `0`, read as an `i64`.
pub fn chat_id(user_id: Option<&str>) -> (res: Result<i64, IntErrorKind>)
    ensures
        match user_id {
            Some(u) => match parse_int(u.spec_bytes(), true, i64::MIN as int, i64::MAX as int) {
                Ok(v) => res == Ok::<i64, IntErrorKind>(v as i64),
                Err(e) => res == Err::<i64, IntErrorKind>(e),
            },
            None => res == Ok::<i64, IntErrorKind>(0),
        },
{
    match user_id {
        Some(u) => parse_i64(u),
        None => Ok(0),
    }
}

/// The route of a notification: its `route_id` field (where it is a JSON
/// string), else `UNKNOWN`.
pub fn notified_route(route_id: Option<&str>) -> (route: String)
    ensures
        match route_id {
            Some(r) => route@ == r@,
            None => route@ == "UNKNOWN"@,
        },
{
    match route_id {
        Some(r) => r.to_owned(),
        None => "UNKNOWN".to_owned(),
    }
}

/// What parsing `text` as JSON (`serde_json::from_str` into a `Value`) and
/// reading the value at `key` as a string gives: `Err` with the parser's
/// message where the text is no JSON, else the string, where the text is an
/// object whose `key` holds one.
pub uninterp spec fn json_str_field(text: Seq<char>, key: Seq<char>) -> Result<Option<Seq<char>>, Seq<char>>;

/// The view of an optional string.
pub open spec fn opt_view(o: Option<String>) -> Option<Seq<char>> {
    match o {
        Some(s) => Some(s@),
        None => None,
    }
}

/// `text` parses as JSON with the same outcome for every key.
pub open spec fn parses_alike(text: Seq<char>, outcome_is_ok: bool) -> bool {
    forall|k: Seq<char>| #[trigger] json_str_field(text, k) is Ok == outcome_is_ok
}

/// Calls `serde_json::from_str::<serde_json::Value>(text)`, indexes the value
/// with `key` and reads it with `as_str`. Claimed: the outcome is
/// `json_str_field(text, key)`; whether the text parses does not depend on
/// the key.
#[verifier::external_body]
fn json_field(text: &str, key: &str) -> (res: Result<Option<String>, String>)
    ensures
        match res {
            Ok(o) => json_str_field(text@, key@) == Ok::<Option<Seq<char>>, Seq<char>>(opt_view(o)),
            Err(m) => json_str_field(text@, key@) == Err::<Option<Seq<char>>, Seq<char>>(m@),
        },
        res is Ok ==> parses_alike(text@, true),
        res is Err ==> parses_alike(text@, false),
{
    let parsed: serde_json::Value = serde_json::from_str(text).map_err(|e| e.to_string())?;
    Ok(parsed[key].as_str().map(|v| v.to_string()))
}

/// What the Telegram worker does with one Kafka message.
#[derive(Debug, PartialEq, Eq)]
pub enum TelegramAction {
    /// Receiving failed: log the error and go on.
    LogReceiveError(String),
    /// The message has no payload: go on.
    Skip,
    /// The payload is not UTF-8: log the error and go on.
    LogInvalidPayload(String),
    /// The payload is not JSON: stop the worker with the parser's message.
    Stop(String),
    /// The `user_id` is not a chat id: log it and go on.
    LogBadUserId(String),
    /// Send the price of `route` to the chat.
    Send { chat_id: i64, route: String },
}

/// The chat that a notification's `user_id` names.
pub open spec fn chat_spec(user_id: Option<Seq<char>>) -> Result<i64, IntErrorKind> {
    match user_id {
        Some(u) => match parse_int(encode_utf8(u), true, i64::MIN as int, i64::MAX as int) {
            Ok(v) => Ok(v as i64),
            Err(e) => Err(e),
        },
        None => Ok(0),
    }
}

/// The Telegram worker's decision on a Kafka message: the receive error, or
/// the payload (absent, not UTF-8 with the error, or the text).
pub fn telegram_step(message: Result<Option<Result<&str, String>>, String>) -> (action: TelegramAction)
    ensures
        match message {
            Err(e) => action == TelegramAction::LogReceiveError(e),
            Ok(None) => action == TelegramAction::Skip,
            Ok(Some(Err(e))) => action == TelegramAction::LogInvalidPayload(e),
            Ok(Some(Ok(text))) => match json_str_field(text@, "user_id"@) {
                Err(m) => action matches TelegramAction::Stop(msg) && msg@ == m,
                Ok(user) => match chat_spec(user) {
                    Ok(chat) => {
                        &&& action matches TelegramAction::Send { chat_id, route }
                        &&& chat_id == chat
                        &&& json_str_field(text@, "route_id"@) matches Ok(r)
                        &&& route@ == (match r {
                            Some(v) => v,
                            None => "UNKNOWN"@,
                        })
                    },
                    Err(_) => action matches TelegramAction::LogBadUserId(u) && u@ == (match user {
                        Some(v) => v,
                        None => "0"@,
                    }),
                },
            },
        },
{
    let text = match message {
        Err(e) => {
            return TelegramAction::LogReceiveError(e);
        },
        Ok(None) => {
            return TelegramAction::Skip;
        },
        Ok(Some(Err(e))) => {
            return TelegramAction::LogInvalidPayload(e);
        },
        Ok(Some(Ok(text))) => text,
    };
    let user = match json_field(text, "user_id") {
        Err(m) => {
            return TelegramAction::Stop(m);
        },
        Ok(user) => user,
    };
    let chat = match &user {
        Some(u) => chat_id(Some(u.as_str())),
        None => chat_id(None),
    };
    match chat {
        Ok(c) => {
            let route = match json_field(text, "route_id") {
                Ok(r) => r,
                Err(_) => {
                    proof {
                        assert(json_str_field(text@, "user_id"@) is Ok);
                        assert(false);
                    }
                    None
                },
            };
            let route = match &route {
                Some(r) => notified_route(Some(r.as_str())),
                None => notified_route(None),
            };
            TelegramAction::Send { chat_id: c, route }
        },
        Err(_) => {
            let shown = match user {
                Some(u) => u,
                None => "0".to_owned(),
            };
            TelegramAction::LogBadUserId(shown)
        },
    }
}

/// The indices, in order, of the first `n` update times that lie after
/// `cutoff`.
pub open spec fn recent_prefix(updated_at: Seq<i64>, n: nat, cutoff: int) -> Seq<usize>
    decreases n,
{
    if n == 0 {
        Seq::empty()
    } else {
        let earlier = recent_prefix(updated_at, (n - 1) as nat, cutoff);
        if updated_at[n - 1] > cutoff {
            earlier.push((n - 1) as usize)
        } else {
            earlier
        }
    }
}

/// Which routes a look finds: given the routes' update times and the clock
/// `now` (seconds since the Unix epoch), the indices, in order, of those
/// updated after `now - within_secs`.
pub fn changed_recently(updated_at: &[i64], now: i64, within_secs: u64) -> (found: Vec<usize>)
    ensures
        found@ == recent_prefix(updated_at@, updated_at@.len(), now - within_secs),
        forall|i: int| 0 <= i < updated_at@.len() ==> (updated_at@[i] > now - within_secs <==> #[trigger] found@.contains(i as usize)),
        forall|j: int, k: int| 0 <= j < k < found@.len() ==> #[trigger] found@[j] < #[trigger] found@[k],
{
    let cutoff: i128 = now as i128 - within_secs as i128;
    let mut found: Vec<usize> = Vec::new();
    let mut i: usize = 0;
    while i < updated_at.len()
        invariant
            i <= updated_at@.len(),
            cutoff == now - within_secs,
            found@ == recent_prefix(updated_at@, i as nat, now - within_secs),
        decreases updated_at@.len() - i,
    {
        if updated_at[i] as i128 > cutoff {
            found.push(i);
        }
        i = i + 1;
    }
    proof {
        law_look_finds_exactly_the_recent(updated_at@, now, within_secs);
    }
    found
}

/// Every route that a look finds was updated after the cutoff, and the found
/// indices name distinct routes in increasing order.
proof fn lemma_recent_prefix(updated_at: Seq<i64>, n: nat, cutoff: int)
    requires
        n <= updated_at.len() <= usize::MAX,
    ensures
        forall|j: int| 0 <= j < recent_prefix(updated_at, n, cutoff).len() ==> {
            let i = #[trigger] recent_prefix(updated_at, n, cutoff)[j];
            &&& i < n
            &&& updated_at[i as int] > cutoff
        },
        forall|j: int, k: int| 0 <= j < k < recent_prefix(updated_at, n, cutoff).len() ==>
            #[trigger] recent_prefix(updated_at, n, cutoff)[j] < #[trigger] recent_prefix(updated_at, n, cutoff)[k],
    decreases n,
{
    if n > 0 {
        lemma_recent_prefix(updated_at, (n - 1) as nat, cutoff);
        let earlier = recent_prefix(updated_at, (n - 1) as nat, cutoff);
        let cur = recent_prefix(updated_at, n, cutoff);
        if updated_at[n - 1] > cutoff {
            assert(cur == earlier.push((n - 1) as usize));
            assert forall|j: int| 0 <= j < cur.len() implies #[trigger] cur[j] < n && updated_at[cur[j] as int] > cutoff by {
                if j < earlier.len() {
                    assert(cur[j] == earlier[j]);
                }
            }
            assert forall|j: int, k: int| 0 <= j < k < cur.len() implies #[trigger] cur[j] < #[trigger] cur[k] by {
                assert(cur[j] == earlier[j]);
                if k < earlier.len() {
                    assert(cur[k] == earlier[k]);
                }
            }
        } else {
            assert(cur == earlier);
        }
    }
}

/// What the price watch streams are recently updated routes: the route sent
/// for `Send { index }` after a look that found the routes `changed_recently`
/// gives is a route updated after `now - within_secs`, and the routes of one
/// look are distinct and sent in the order they are stored.
pub proof fn law_streamed_routes_recent(updated_at: Seq<i64>, now: i64, within_secs: u64, index: int)
    requires
        updated_at.len() <= usize::MAX,
        0 <= index < recent_prefix(updated_at, updated_at.len(), now - within_secs).len(),
    ensures
        ({
            let route = recent_prefix(updated_at, updated_at.len(), now - within_secs)[index];
            route < updated_at.len() && updated_at[route as int] > now - within_secs
        }),
        forall|k: int| index < k < recent_prefix(updated_at, updated_at.len(), now - within_secs).len() ==>
            recent_prefix(updated_at, updated_at.len(), now - within_secs)[index]
                < #[trigger] recent_prefix(updated_at, updated_at.len(), now - within_secs)[k],
{
    lemma_recent_prefix(updated_at, updated_at.len(), now - within_secs);
    let found = recent_prefix(updated_at, updated_at.len(), now - within_secs);
    assert(found[index] == found[index]);
}

proof fn lemma_recent_prefix_complete(updated_at: Seq<i64>, n: nat, cutoff: int, i: int)
    requires
        n <= updated_at.len() <= usize::MAX,
        0 <= i < n,
        updated_at[i] > cutoff,
    ensures
        recent_prefix(updated_at, n, cutoff).contains(i as usize),
    decreases n,
{
    let cur = recent_prefix(updated_at, n, cutoff);
    let earlier = recent_prefix(updated_at, (n - 1) as nat, cutoff);
    if i == n - 1 {
        assert(cur == earlier.push((n - 1) as usize));
        assert(cur[earlier.len() as int] == i as usize);
    } else {
        lemma_recent_prefix_complete(updated_at, (n - 1) as nat, cutoff, i);
        let k = choose|k: int| 0 <= k < earlier.len() && earlier[k] == i as usize;
        if updated_at[n - 1] > cutoff {
            assert(cur == earlier.push((n - 1) as usize));
            assert(cur[k] == i as usize);
        } else {
            assert(cur == earlier);
        }
    }
}

/// A look finds exactly the routes updated after `now - within_secs`: a
/// route is found if and only if its update time is after that cutoff, and
/// the found routes come in the order they are stored, each once.
pub proof fn law_look_finds_exactly_the_recent(updated_at: Seq<i64>, now: i64, within_secs: u64)
    requires
        updated_at.len() <= usize::MAX,
    ensures
        forall|i: int| 0 <= i < updated_at.len() ==> (updated_at[i] > now - within_secs
            <==> #[trigger] recent_prefix(updated_at, updated_at.len(), now - within_secs).contains(i as usize)),
        forall|j: int| 0 <= j < recent_prefix(updated_at, updated_at.len(), now - within_secs).len() ==>
            #[trigger] recent_prefix(updated_at, updated_at.len(), now - within_secs)[j] < updated_at.len(),
        forall|j: int, k: int| 0 <= j < k < recent_prefix(updated_at, updated_at.len(), now - within_secs).len() ==>
            #[trigger] recent_prefix(updated_at, updated_at.len(), now - within_secs)[j]
                < #[trigger] recent_prefix(updated_at, updated_at.len(), now - within_secs)[k],
{
    let cutoff = now - within_secs;
    let found = recent_prefix(updated_at, updated_at.len(), cutoff);
    lemma_recent_prefix(updated_at, updated_at.len(), cutoff);
    assert forall|i: int| 0 <= i < updated_at.len() implies (updated_at[i] > cutoff
        <==> #[trigger] found.contains(i as usize)) by {
        if updated_at[i] > cutoff {
            lemma_recent_prefix_complete(updated_at, updated_at.len(), cutoff, i);
        }
        if found.contains(i as usize) {
            let k = choose|k: int| 0 <= k < found.len() && found[k] == i as usize;
            assert(found[k] == found[k]);
        }
    }
}

/// A watcher named in its update text is the chat the worker sends to: the
/// chat of a `user_id` written as `Display` writes an `i64` is that number,
/// negative group chats included.
pub proof fn law_chat_of_written_id(v: i64)
    ensures
        chat_spec(Some(signed_decimal(v as int))) == Ok::<i64, IntErrorKind>(v),
{
    law_i64_text_roundtrip(v);
}

/// Only a failed look stops the price watch: a watcher that goes away, a
/// sent route or a finished wait never stops it.
pub proof fn law_only_failed_look_stops(state: WatchState, event: WatchEvent)
    requires
        watch_expects(state, event),
    ensures
        (watch_next(state, event).0 == WatchState::Stopped) <==> event == WatchEvent::LookFailed,
        watch_next(state, event).1 == WatchAction::Stop <==> event == WatchEvent::LookFailed,
{
}

/// When the watcher goes away in the middle of a look's routes, the watch
/// waits 5 seconds and then looks again.
pub proof fn law_gone_watch_looks_again(next: usize, found: usize)
    requires
        next < found,
    ensures
        watch_run(WatchState::Sending { next, found }, seq![WatchEvent::Gone, WatchEvent::Waited]) == (
            WatchState::Looking,
            seq![WatchAction::Wait { secs: 5 }, WatchAction::Look { within_secs: 5 }],
        ),
{
    let events = seq![WatchEvent::Gone, WatchEvent::Waited];
    let st = WatchState::Sending { next, found };
    assert(events.skip(1) =~= seq![WatchEvent::Waited]);
    assert(events.skip(1).skip(1) =~= Seq::<WatchEvent>::empty());
    let r2 = watch_run(WatchState::Looking, events.skip(1).skip(1));
    assert(r2 == (WatchState::Looking, Seq::<WatchAction>::empty()));
    let r1 = watch_run(WatchState::Waiting, events.skip(1));
    assert(r1 == (WatchState::Looking, seq![WatchAction::Look { within_secs: 5 }] + r2.1));
    assert(watch_run(st, events) == (r1.0, seq![WatchAction::Wait { secs: 5 }] + r1.1));
    assert(seq![WatchAction::Wait { secs: 5 }] + (seq![WatchAction::Look { within_secs: 5 }] + Seq::<WatchAction>::empty())
        =~= seq![WatchAction::Wait { secs: 5 }, WatchAction::Look { within_secs: 5 }]);
}

/// Any failure of the client's stream stops the price receiver, and the
/// client is answered with that very failure, whatever its code.
pub proof fn law_stream_failure_stops(s: Status)
    ensures
        receive_next(ReceiveEvent::Item(Err(s))) == (ReceiveState::Stopped, ReceiveAction::Fail(s)),
{
}

/// The price receiver stops exactly at the end of the stream or at a
/// failure, and answers a stored price without stopping.
pub proof fn law_receiver_stops_only_at_end_or_failure(e: ReceiveEvent)
    ensures
        (receive_next(e).0 == ReceiveState::Stopped) <==> (e == ReceiveEvent::End || e is Item && e->Item_0 is Err || e is Stored && e->Stored_0 is Err),
        e == ReceiveEvent::Stored(Ok(())) ==> receive_next(e).1 == ReceiveAction::Answer(Ok(())),
{
}

} // verus!
