//! Requests to other services, and the rules that keep them from being overrun: circuits that
//! open on failure, throttles, and caches that expire.

use crate::json;
use crate::json::{Json, JsonView};
use crate::organizer;
use crate::text;
use vstd::prelude::*;

verus! {

/// What a request carries.
#[derive(Debug)]
pub enum Body {
    Nothing,
    Text(String),
    Tree(Json),
}

pub enum BodyView {
    Nothing,
    Text(Seq<char>),
    Tree(JsonView),
}

impl View for Body {
    type V = BodyView;

    open spec fn view(&self) -> BodyView {
        match self {
            Body::Nothing => BodyView::Nothing,
            Body::Text(s) => BodyView::Text(s@),
            Body::Tree(j) => BodyView::Tree(j@),
        }
    }
}

/// A request to a service.
#[derive(Debug)]
pub struct Request {
    pub method: String,
    pub url: String,
    pub headers: Vec<(String, String)>,
    pub body: Body,
    pub timeout_ms: i32,
}

/// The mathematical value of a request.
#[verifier::ext_equal]
pub struct RequestView {
    pub method: Seq<char>,
    pub url: Seq<char>,
    pub headers: Seq<(Seq<char>, Seq<char>)>,
    pub body: BodyView,
    pub timeout_ms: int,
}

impl View for Request {
    type V = RequestView;

    open spec fn view(&self) -> RequestView {
        RequestView {
            method: self.method@,
            url: self.url@,
            headers: organizer::pair_views(self.headers@),
            body: self.body@,
            timeout_ms: self.timeout_ms as int,
        }
    }
}

/// A request that only asks.
pub open spec fn asking(
    url: Seq<char>,
    headers: Seq<(Seq<char>, Seq<char>)>,
    timeout_ms: int,
) -> RequestView {
    RequestView { method: "GET"@, url, headers, body: BodyView::Nothing, timeout_ms }
}

/// A request that hands something over.
pub open spec fn posting(
    url: Seq<char>,
    headers: Seq<(Seq<char>, Seq<char>)>,
    body: BodyView,
    timeout_ms: int,
) -> RequestView {
    RequestView { method: "POST"@, url, headers, body, timeout_ms }
}

pub fn ask(url: String, headers: Vec<(String, String)>, timeout_ms: i32) -> (r: Request)
    ensures
        r@ == asking(url@, organizer::pair_views(headers@), timeout_ms as int),
{
    Request { method: text::copy("GET"), url, headers, body: Body::Nothing, timeout_ms }
}

pub fn post(url: String, headers: Vec<(String, String)>, body: Body, timeout_ms: i32) -> (r: Request)
    ensures
        r@ == posting(url@, organizer::pair_views(headers@), body@, timeout_ms as int),
{
    Request { method: text::copy("POST"), url, headers, body, timeout_ms }
}

/// Adds a header.
pub fn put_header(headers: &mut Vec<(String, String)>, name: &str, value: &str)
    ensures
        organizer::pair_views(final(headers)@) == organizer::pair_views(old(headers)@).push(
            (name@, value@),
        ),
{
    let ghost before = headers@;
    headers.push((text::copy(name), text::copy(value)));
    assert(organizer::pair_views(headers@) =~= organizer::pair_views(before).push((name@, value@)));
}

/// No headers.
pub fn no_headers() -> (r: Vec<(String, String)>)
    ensures
        organizer::pair_views(r@) == Seq::<(Seq<char>, Seq<char>)>::empty(),
{
    let v: Vec<(String, String)> = Vec::new();
    assert(organizer::pair_views(v@) =~= Seq::<(Seq<char>, Seq<char>)>::empty());
    v
}

/// What came of a request: an answer, silence, or no connection.
#[derive(Debug)]
pub enum Reply {
    Answer { status: i32, body: String },
    Silent,
    Failed { cause: String },
}

pub enum ReplyView {
    Answer { status: int, body: Seq<char> },
    Silent,
    Failed { cause: Seq<char> },
}

impl View for Reply {
    type V = ReplyView;

    open spec fn view(&self) -> ReplyView {
        match self {
            Reply::Answer { status, body } => ReplyView::Answer {
                status: *status as int,
                body: body@,
            },
            Reply::Silent => ReplyView::Silent,
            Reply::Failed { cause } => ReplyView::Failed { cause: cause@ },
        }
    }
}

/// The answer has the given status.
pub open spec fn answered(reply: ReplyView, status: int) -> bool {
    reply matches ReplyView::Answer { status: s, body } && s == status
}

/// The body of an answer with status 200.
pub open spec fn good_body(reply: ReplyView) -> Option<Seq<char>> {
    match reply {
        ReplyView::Answer { status, body } => if status == 200 {
            Some(body)
        } else {
            None
        },
        _ => None,
    }
}

pub fn ok_body(reply: &Reply) -> (r: Option<&String>)
    ensures
        match r {
            Some(s) => good_body(reply@) == Some(s@),
            None => good_body(reply@) is None,
        },
{
    match reply {
        Reply::Answer { status, body } => if *status == 200 {
            Some(body)
        } else {
            None
        },
        _ => None,
    }
}

// ---------------------------------------------------------------------------
// Circuits
//
// Of every service the time of its first failure is kept. As long as it is there the circuit is
// open and the service is left alone, but for a probe now and again.

/// What becomes of a service's circuit.
#[derive(Debug, Clone, Copy, PartialEq, Eq, Structural)]
pub enum CircuitOp {
    Keep,
    Clear,
    MarkFailed,
}

/// Key of a circuit.
pub fn circuit_key(provider: &str) -> (r: String)
    ensures
        r@ == "circuit."@ + provider@,
{
    text::join_two("circuit.", provider)
}

/// The time that a stored text holds.
pub open spec fn stored_time(stored: Option<Seq<char>>) -> Option<int> {
    match stored {
        Some(s) => text::parsed_int(s, i64::MIN as int, i64::MAX as int),
        None => None,
    }
}

/// The time of a service's first failure, from what is stored under its circuit's key.
pub fn circuit_since(stored: &Option<String>) -> (r: Option<i64>)
    ensures
        match r {
            Some(t) => stored_time(text::view_opt(*stored)) == Some(t as int),
            None => stored_time(text::view_opt(*stored)) is None,
        },
{
    match stored {
        Some(s) => text::parse_int(s.as_str(), i64::MIN, i64::MAX),
        None => None,
    }
}

pub fn circuit_open(stored: &Option<String>) -> (r: bool)
    ensures
        r == (stored_time(text::view_opt(*stored)) is Some),
{
    match circuit_since(stored) {
        Some(t) => true,
        None => false,
    }
}

/// What is stored after a failure: the first failure stays, so that later ones do not push the
/// time out.
pub open spec fn marked(stored: Option<Seq<char>>, now: int) -> Option<Seq<char>> {
    if stored_time(stored) is Some {
        stored
    } else {
        Some(text::decimal_int(now))
    }
}

/// The text to store for a failure now; nothing where a failure is stored already.
pub fn circuit_mark_failed(stored: &Option<String>, now: i64) -> (r: Option<String>)
    ensures
        match r {
            Some(s) => stored_time(text::view_opt(*stored)) is None && Some(s@) == marked(
                text::view_opt(*stored),
                now as int,
            ),
            None => stored_time(text::view_opt(*stored)) is Some,
        },
{
    if circuit_open(stored) {
        None
    } else {
        Some(text::format_int(now))
    }
}

/// How to find out whether a service can be reached.
#[derive(Debug, Clone, Copy, PartialEq, Eq, Structural)]
pub enum Gate {
    /// It can: its circuit is closed.
    Pass,
    /// It cannot, and it is too early to ask again.
    Wait,
    /// It is to be asked.
    Ask,
}

/// A service whose circuit is closed is reachable; one whose circuit is open is asked where the
/// throttle lets it.
pub fn circuit_gate(open: bool, may_ask: bool) -> (r: Gate)
    ensures
        r == (if !open {
            Gate::Pass
        } else if may_ask {
            Gate::Ask
        } else {
            Gate::Wait
        }),
{
    if !open {
        Gate::Pass
    } else if may_ask {
        Gate::Ask
    } else {
        Gate::Wait
    }
}

/// An answer below 400 shows that the service is up.
pub open spec fn is_up(reply: ReplyView) -> bool {
    reply matches ReplyView::Answer { status, body } && status < 400
}

/// What a probe of an open circuit finds: whether the service is up, and so whether its circuit
/// is cleared.
pub fn circuit_probe(reply: &Reply) -> (r: (bool, CircuitOp))
    ensures
        r.0 == is_up(reply@),
        r.1 == (if is_up(reply@) {
            CircuitOp::Clear
        } else {
            CircuitOp::Keep
        }),
{
    match reply {
        Reply::Answer { status, body } => if *status < 400 {
            (true, CircuitOp::Clear)
        } else {
            (false, CircuitOp::Keep)
        },
        _ => (false, CircuitOp::Keep),
    }
}

/// What a check finds. A client error shows that the service is up, though set up wrongly.
pub open spec fn checked(reply: ReplyView) -> (bool, CircuitOp) {
    match reply {
        ReplyView::Answer { status, body } => if status < 400 {
            (true, CircuitOp::Clear)
        } else if status >= 500 {
            (false, CircuitOp::MarkFailed)
        } else {
            (true, CircuitOp::Keep)
        },
        _ => (false, CircuitOp::MarkFailed),
    }
}

pub fn circuit_check(reply: &Reply) -> (r: (bool, CircuitOp))
    ensures
        r == checked(reply@),
{
    match reply {
        Reply::Answer { status, body } => if *status < 400 {
            (true, CircuitOp::Clear)
        } else if *status >= 500 {
            (false, CircuitOp::MarkFailed)
        } else {
            (true, CircuitOp::Keep)
        },
        _ => (false, CircuitOp::MarkFailed),
    }
}

/// The circuit after a lookup: an answer with data clears it, "not found" leaves it, everything
/// else opens it.
pub open spec fn lookup_op(reply: ReplyView) -> CircuitOp {
    match reply {
        ReplyView::Answer { status, body } => if status == 200 {
            CircuitOp::Clear
        } else if status == 404 {
            CircuitOp::Keep
        } else {
            CircuitOp::MarkFailed
        },
        _ => CircuitOp::MarkFailed,
    }
}

pub fn after_lookup(reply: &Reply) -> (r: CircuitOp)
    ensures
        r == lookup_op(reply@),
{
    match reply {
        Reply::Answer { status, body } => if *status == 200 {
            CircuitOp::Clear
        } else if *status == 404 {
            CircuitOp::Keep
        } else {
            CircuitOp::MarkFailed
        },
        _ => CircuitOp::MarkFailed,
    }
}

/// The circuit after a call whose every other outcome than 200 counts as failure.
pub open spec fn strict_op(reply: ReplyView) -> CircuitOp {
    if good_body(reply) is Some {
        CircuitOp::Clear
    } else {
        CircuitOp::MarkFailed
    }
}

pub fn after_strict(reply: &Reply) -> (r: CircuitOp)
    ensures
        r == strict_op(reply@),
{
    match ok_body(reply) {
        Some(b) => CircuitOp::Clear,
        None => CircuitOp::MarkFailed,
    }
}

// ---------------------------------------------------------------------------
// Throttles and caches

/// Key of a throttle.
pub fn throttle_key(host: &str) -> (r: String)
    ensures
        r@ == "net.throttle."@ + host@,
{
    text::join_two("net.throttle.", host)
}

/// A call was made less than the interval ago.
pub open spec fn too_early(stored: Option<Seq<char>>, now_secs: int, min_interval_ms: int) -> bool {
    stored_time(stored) matches Some(last) && now_secs * 1000 - last < min_interval_ms
}

/// The time to store where a call may be made now; nothing where it may not.
pub fn throttle(stored: &Option<String>, now_secs: i64, min_interval_ms: u64) -> (r: Option<i64>)
    requires
        i64::MIN <= now_secs * 1000 <= i64::MAX,
    ensures
        match r {
            Some(t) => t == now_secs * 1000 && !too_early(
                text::view_opt(*stored),
                now_secs as int,
                min_interval_ms as int,
            ),
            None => too_early(text::view_opt(*stored), now_secs as int, min_interval_ms as int),
        },
{
    let now_ms: i64 = now_secs * 1000;
    match circuit_since(stored) {
        Some(last) => if (now_ms as i128) - (last as i128) < (min_interval_ms as i128) {
            None
        } else {
            Some(now_ms)
        },
        None => Some(now_ms),
    }
}

/// Keys of a cached value and of the time at which it expires.
pub fn ttl_key(scope: &str) -> (r: String)
    ensures
        r@ == "net.ttl."@ + scope@,
{
    text::join_two("net.ttl.", scope)
}

pub fn cache_key(scope: &str) -> (r: String)
    ensures
        r@ == "net.cache."@ + scope@,
{
    text::join_two("net.cache.", scope)
}

/// A cached value is still good: the time at which it expires is stored and lies ahead.
pub open spec fn fresh(stored: Option<Seq<char>>, now: int) -> bool {
    stored_time(stored) matches Some(end) && end > now
}

pub fn cache_fresh(stored: &Option<String>, now: i64) -> (r: bool)
    ensures
        r == fresh(text::view_opt(*stored), now as int),
{
    match circuit_since(stored) {
        Some(end) => end > now,
        None => false,
    }
}

/// When a value that is cached now expires.
pub fn cache_expiry(now: i64, ttl_secs: u64) -> (r: i64)
    requires
        now + ttl_secs <= i64::MAX,
    ensures
        r == now + ttl_secs,
{
    ((now as i128) + (ttl_secs as i128)) as i64
}

// ---------------------------------------------------------------------------
// Laws

/// What was written down as a number is read as that number.
pub proof fn stamp_reads_back(t: int)
    requires
        i64::MIN <= t <= i64::MAX,
    ensures
        stored_time(Some(text::decimal_int(t))) == Some(t),
{
    text::decimal_int_reads_back(t, i64::MIN as int, i64::MAX as int);
}

/// After a call that a throttle let through, no call is let through before the interval is over.
pub proof fn throttle_keeps_its_interval(t: int, later: int, min_interval_ms: int)
    requires
        i64::MIN <= t * 1000 <= i64::MAX,
        (later - t) * 1000 < min_interval_ms,
    ensures
        too_early(Some(text::decimal_int(t * 1000)), later, min_interval_ms),
{
    stamp_reads_back(t * 1000);
    assert((later - t) * 1000 == later * 1000 - t * 1000);
}

/// A second failure does not change the time of the first.
pub proof fn circuit_keeps_the_first_failure(stored: Option<Seq<char>>, first: int, second: int)
    requires
        i64::MIN <= first <= i64::MAX,
    ensures
        marked(marked(stored, first), second) == marked(stored, first),
{
    stamp_reads_back(first);
}

/// A value that was cached is good until its time is over, and not after.
pub proof fn cache_lasts_as_long_as_it_should(now: int, ttl_secs: int, later: int)
    requires
        i64::MIN <= now + ttl_secs <= i64::MAX,
    ensures
        fresh(Some(text::decimal_int(now + ttl_secs)), later) == (later < now + ttl_secs),
{
    stamp_reads_back(now + ttl_secs);
}

// ---------------------------------------------------------------------------
// Stages of a failure

/// How long a service has been failing.
#[derive(Debug, Clone, Copy, PartialEq, Eq, Structural)]
pub enum Stage {
    /// Just now: it may be back soon.
    Retry,
    /// For a while: its work waits.
    Cooldown,
    /// For so long that its work goes on without it.
    Degraded,
}

/// The stage after so many seconds, given how long the first two stages last together and the
/// first one alone.
pub open spec fn stage_at(age: int, retry_secs: int, pause_secs: int) -> Stage {
    if age < retry_secs {
        Stage::Retry
    } else if age < pause_secs {
        Stage::Cooldown
    } else {
        Stage::Degraded
    }
}

/// The stage of a service's failure; none while its circuit is closed.
pub fn circuit_stage(stored: &Option<String>, now: i64, retry_secs: i64, pause_secs: i64) -> (r:
    Option<Stage>)
    ensures
        r == match stored_time(text::view_opt(*stored)) {
            Some(since) => Some(stage_at(now - since, retry_secs as int, pause_secs as int)),
            None => None,
        },
{
    match circuit_since(stored) {
        Some(since) => {
            let age: i128 = (now as i128) - (since as i128);
            if age < (retry_secs as i128) {
                Some(Stage::Retry)
            } else if age < (pause_secs as i128) {
                Some(Stage::Cooldown)
            } else {
                Some(Stage::Degraded)
            }
        },
        None => None,
    }
}

/// Whether the work of a service waits for it to come back.
pub fn circuit_paused(stage: Option<Stage>) -> (r: bool)
    ensures
        r == (stage == Some(Stage::Retry) || stage == Some(Stage::Cooldown)),
{
    match stage {
        Some(Stage::Retry) => true,
        Some(Stage::Cooldown) => true,
        _ => false,
    }
}

/// Work that went on without a service does not wait for it again while it keeps failing.
pub proof fn stages_only_go_on(age: int, later: int, retry_secs: int, pause_secs: int)
    requires
        age <= later,
        retry_secs <= pause_secs,
    ensures
        stage_at(age, retry_secs, pause_secs) == Stage::Degraded ==> stage_at(
            later,
            retry_secs,
            pause_secs,
        ) == Stage::Degraded,
        stage_at(age, retry_secs, pause_secs) == Stage::Cooldown ==> stage_at(
            later,
            retry_secs,
            pause_secs,
        ) != Stage::Retry,
{
}

// ---------------------------------------------------------------------------
// Bodies

/// The text that is sent as the body of a request.
pub open spec fn body_text_of(b: BodyView) -> Seq<char> {
    match b {
        BodyView::Nothing => Seq::empty(),
        BodyView::Text(s) => s,
        BodyView::Tree(v) => json::written(v),
    }
}

/// The text that is sent as the body of a request.
pub fn body_text(b: &Body) -> (r: String)
    ensures
        r@ == body_text_of(b@),
{
    match b {
        Body::Nothing => String::new(),
        Body::Text(s) => s.clone(),
        Body::Tree(j) => json::print(j),
    }
}

} // verus!
