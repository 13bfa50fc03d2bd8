//! The blocking actions: how long each may block, and what it answers with.

use serde_json::Value;
use vstd::prelude::*;

use crate::address;
use crate::capture::{self, Viewing, ViewingView};
use crate::json::{self, Json};
use crate::measure;
use crate::observation::{Observation, ObservationView, Observations, ObservationsView};
use crate::text;
use crate::wire::{self, Failure, FailureView};

verus! {

/// The longest any blocking action may take.
pub const MAX_WAIT_FOR_IDLE_MS: u64 = 25_000;

/// A number of milliseconds under a key, or what it is where the key is not there.
pub open spec fn asked(req: Json, key: Seq<char>, default: u64) -> u64 {
    match json::field_u64(req, key) {
        Some(n) => n,
        None => default,
    }
}

fn ask(req: &Value, key: &str, default: u64) -> (r: u64)
    ensures
        r == asked(json::json_of(*req), key@, default),
{
    match json::u64_at(req, key) {
        Some(n) => n,
        None => default,
    }
}

/// A time no longer than an action may block for.
pub open spec fn bounded(ms: u64) -> u64 {
    if ms > MAX_WAIT_FOR_IDLE_MS {
        MAX_WAIT_FOR_IDLE_MS
    } else {
        ms
    }
}

fn bound(ms: u64) -> (r: u64)
    ensures
        r == bounded(ms),
{
    if ms > MAX_WAIT_FOR_IDLE_MS {
        MAX_WAIT_FOR_IDLE_MS
    } else {
        ms
    }
}

/// A time of at least one millisecond.
pub open spec fn positive(ms: u64) -> u64 {
    if ms == 0 {
        1
    } else {
        ms
    }
}

fn at_least_one(ms: u64) -> (r: u64)
    ensures
        r == positive(ms),
{
    if ms == 0 {
        1
    } else {
        ms
    }
}

/// An answer that says only that it was done.
pub open spec fn done_json() -> Json {
    Json::Object(Map::<Seq<char>, Json>::empty().insert("ok"@, Json::Bool(true)))
}

/// The answer of an action with nothing else to say.
pub fn done() -> (r: Value)
    ensures
        json::json_of(r) == done_json(),
{
    let mut payload = json::object();
    json::insert(&mut payload, "ok", json::boolean(true));
    payload
}

/// How long a `wait` sleeps: what it asked for, bounded.
pub fn wait_ms(req: &Value) -> (r: u64)
    ensures
        r == bounded(asked(json::json_of(*req), "ms"@, 0)),
        match json::field(json::json_of(*req), "ms"@) {
            Some(Json::Unsigned(n)) => r == n || n > 25_000 && r == 25_000,
            _ => r == 0,
        },
        r <= MAX_WAIT_FOR_IDLE_MS,
{
    bound(ask(req, "ms", 0))
}

/// How long to go on polling, and how long between two polls.
#[derive(Clone, Copy, Debug, PartialEq, Eq, Structural)]
pub struct Polling {
    pub timeout_ms: u64,
    pub poll_ms: u64,
}

impl Polling {
    /// How long to sleep before the next poll: the time between two polls, and never
    /// past the deadline.
    pub open spec fn pause(self, now_ms: u64, deadline: u64) -> u64 {
        if now_ms >= deadline {
            0
        } else if deadline - now_ms < self.poll_ms {
            (deadline - now_ms) as u64
        } else {
            self.poll_ms
        }
    }

    /// How long to sleep before the next poll of a wait that ends at a deadline.
    pub fn nap(&self, now_ms: u64, deadline: u64) -> (r: u64)
        ensures
            r == self.pause(now_ms, deadline),
            r <= self.poll_ms,
            now_ms <= deadline ==> now_ms + r <= deadline,
            now_ms >= deadline ==> r == 0,
            now_ms < deadline && self.poll_ms >= 1 ==> r >= 1,
            now_ms < deadline ==> r == self.poll_ms || now_ms + r == deadline,
    {
        if now_ms >= deadline {
            0
        } else if deadline - now_ms < self.poll_ms {
            deadline - now_ms
        } else {
            self.poll_ms
        }
    }
}

/// How long a wait slept in all, napping at each of these readings of the clock.
pub open spec fn slept(polling: Polling, deadline: u64, readings: Seq<u64>) -> nat
    decreases readings.len(),
{
    if readings.len() == 0 {
        0
    } else {
        slept(polling, deadline, readings.drop_last()) + polling.pause(readings.last(), deadline)
            as nat
    }
}

/// Whether a clock passed the time that was slept: it starts no earlier than the wait
/// did, and each reading is later than the one before by at least the nap between
/// them.
pub open spec fn clocked(
    polling: Polling,
    started: u64,
    deadline: u64,
    readings: Seq<u64>,
) -> bool {
    &&& forall|i: int| 0 <= i < readings.len() ==> #[trigger] readings[i] >= started
    &&& forall|i: int|
        0 < i < readings.len() ==> readings[i - 1] + polling.pause(readings[i - 1], deadline)
            <= #[trigger] readings[i]
}

/// The naps of one wait add up to no more than its timeout, however long it asked to
/// sleep between two polls: no one argument holds a blocking action past its bound.
pub proof fn the_naps_of_a_wait_fit_its_timeout(
    polling: Polling,
    started: u64,
    deadline: u64,
    readings: Seq<u64>,
)
    requires
        deadline == started + polling.timeout_ms,
        clocked(polling, started, deadline, readings),
    ensures
        slept(polling, deadline, readings) <= polling.timeout_ms,
        polling.timeout_ms <= MAX_WAIT_FOR_IDLE_MS ==> slept(polling, deadline, readings)
            <= MAX_WAIT_FOR_IDLE_MS,
{
    naps_are_behind_the_clock(polling, started, deadline, readings);
}

proof fn naps_are_behind_the_clock(
    polling: Polling,
    started: u64,
    deadline: u64,
    readings: Seq<u64>,
)
    requires
        started <= deadline,
        clocked(polling, started, deadline, readings),
    ensures
        slept(polling, deadline, readings) <= deadline - started,
        readings.len() > 0 ==> slept(polling, deadline, readings) <= readings.last()
            + polling.pause(readings.last(), deadline) - started,
    decreases readings.len(),
{
    if readings.len() > 0 {
        let before = readings.drop_last();
        assert forall|i: int| 0 <= i < before.len() implies #[trigger] before[i] >= started by {
            assert(before[i] == readings[i]);
        }
        assert forall|i: int| 0 < i < before.len() implies before[i - 1] + polling.pause(
            before[i - 1],
            deadline,
        ) <= #[trigger] before[i] by {
            assert(before[i] == readings[i]);
        }
        naps_are_behind_the_clock(polling, started, deadline, before);
        assert(readings.last() == readings[readings.len() - 1]);
        if before.len() > 0 {
            assert(before.last() == readings[readings.len() - 2]);
        }
    }
}

/// What a request asks of its polling.
pub open spec fn polling_of(req: Json, timeout: u64, poll: u64) -> Polling {
    Polling {
        timeout_ms: bounded(asked(req, "timeout_ms"@, timeout)),
        poll_ms: positive(bounded(asked(req, "poll_ms"@, poll))),
    }
}

fn polling(req: &Value, timeout: u64, poll: u64) -> (r: Polling)
    ensures
        r == polling_of(json::json_of(*req), timeout, poll),
{
    Polling {
        timeout_ms: bound(ask(req, "timeout_ms", timeout)),
        poll_ms: at_least_one(bound(ask(req, "poll_ms", poll))),
    }
}

/// The polling of a wait for a view to change.
pub fn change_polling(req: &Value) -> (r: Polling)
    ensures
        r == polling_of(json::json_of(*req), 10_000, 250),
        r.timeout_ms <= MAX_WAIT_FOR_IDLE_MS,
        1 <= r.poll_ms <= MAX_WAIT_FOR_IDLE_MS,
{
    polling(req, 10_000, 250)
}

/// What a wait for a view to change watches, and how.
#[derive(Debug)]
pub struct Watch {
    /// The image the caller named, whose own hash a change may be measured from.
    pub named: Option<Observation>,
    /// The rectangle, decided once, so that every look is at the same patch.
    pub viewing: Viewing,
    pub polling: Polling,
    /// Whether the picture the wait ends on carries rulers.
    pub rulers: bool,
}

/// What a wait watches, with what it names in place of what it holds.
#[verifier::ext_equal]
pub struct WatchView {
    pub named: Option<ObservationView>,
    pub viewing: ViewingView,
    pub polling: Polling,
    pub rulers: bool,
}

impl View for Watch {
    type V = WatchView;

    open spec fn view(&self) -> WatchView {
        WatchView {
            named: match self.named {
                Some(named) => Some(named@),
                None => None,
            },
            viewing: self.viewing@,
            polling: self.polling,
            rulers: self.rulers,
        }
    }
}

/// What a request asks to have watched: an image it names that is not held is refused
/// before anything is captured, and so is a rectangle that is none.
pub open spec fn watch_of(
    req: Json,
    observation_id: Option<Seq<char>>,
    table: ObservationsView,
    now_ms: u64,
) -> Result<WatchView, FailureView> {
    match address::image_named(observation_id, table, now_ms) {
        Err(failure) => Err(failure),
        Ok(named) => match capture::viewing_of(req, observation_id, table, now_ms) {
            Err(failure) => Err(failure),
            Ok(viewing) => Ok(
                WatchView {
                    named,
                    viewing,
                    polling: polling_of(req, 10_000, 250),
                    rulers: capture::flag(req, "rulers"@),
                },
            ),
        },
    }
}

/// What a request asks to have watched.
pub fn watch(
    req: &Value,
    observation_id: Option<&str>,
    observations: &Observations,
    now_ms: u64,
) -> (r: Result<Watch, Failure>)
    ensures
        (match r {
            Ok(watch) => Ok(watch@),
            Err(failure) => Err(failure@),
        }) == watch_of(
            json::json_of(*req),
            text::slice_of(observation_id),
            observations@,
            now_ms,
        ),
{
    let named = match address::named_observation(observation_id, observations, now_ms) {
        Ok(named) => named,
        Err(failure) => return Err(failure),
    };
    let viewing = match capture::viewing_region(req, observation_id, observations, now_ms) {
        Ok(viewing) => viewing,
        Err(failure) => return Err(failure),
    };
    let rulers = match json::bool_at(req, "rulers") {
        Some(set) => set,
        None => false,
    };
    Ok(Watch { named, viewing, polling: change_polling(req), rulers })
}

/// The polling of a wait for the person at the machine to stop.
pub fn idle_polling(req: &Value) -> (r: Polling)
    ensures
        r == polling_of(json::json_of(*req), 3_000, 100),
        r.timeout_ms <= MAX_WAIT_FOR_IDLE_MS,
        1 <= r.poll_ms <= MAX_WAIT_FOR_IDLE_MS,
{
    polling(req, 3_000, 100)
}

/// How long the person at the machine must have been idle.
pub fn idle_target(req: &Value) -> (r: u64)
    ensures
        r == asked(json::json_of(*req), "idle_ms"@, 1_000),
{
    ask(req, "idle_ms", 1_000)
}

/// Whether a double, given by its bits, is a number that is not below zero.
pub open spec fn is_an_interval(bits: u64) -> bool {
    measure::raw_exponent(bits) != 2047 && (bits < 0x8000_0000_0000_0000 || bits
        == 0x8000_0000_0000_0000)
}

/// The idle time the system's clock reads, in whole milliseconds: its seconds are a
/// double, given by its bits, and one that is no interval is refused.
pub fn idle_reading(seconds: u64) -> (r: Result<u64, Failure>)
    ensures
        r is Ok <==> is_an_interval(seconds),
        match r {
            Ok(ms) => ms == (measure::millionths(seconds) + 500) / 1_000 && -500 < 1_000 * ms
                - measure::millionths(seconds) <= 500,
            Err(failure) => failure@ == wire::coded("idle query returned an invalid interval"@),
        },
{
    let exponent: u64 = seconds / 0x10_0000_0000_0000 % 2048;
    if exponent == 2047 || seconds > 0x8000_0000_0000_0000 {
        return Err(Failure::coded("idle query returned an invalid interval"));
    }
    let length: i64 = measure::from_double(seconds);
    proof {
        if seconds == 0x8000_0000_0000_0000 {
            vstd::arithmetic::power2::lemma_pow2_pos(1074);
            let d = vstd::arithmetic::power2::pow2(1074) as int;
            assert(d / (2 * d) == 0) by (nonlinear_arith)
                requires
                    d > 0,
            ;
        }
    }
    Ok(((length as i128 + 500) / 1_000) as u64)
}

/// The refusal where the system has no idle clock to read.
pub fn idle_unsupported() -> (r: Failure)
    ensures
        r@ == wire::coded("idle detection is only supported on macOS"@),
{
    Failure::coded("idle detection is only supported on macOS")
}

/// The report of an idle time.
pub open spec fn idle_json(idle_ms: u64) -> Json {
    Json::Object(
        Map::<Seq<char>, Json>::empty().insert("ok"@, Json::Bool(true)).insert(
            "idle_ms"@,
            Json::Unsigned(idle_ms),
        ),
    )
}

/// Reports how long there has been no input.
pub fn idle_ms(idle: u64) -> (r: Value)
    ensures
        json::json_of(r) == idle_json(idle),
{
    let mut payload = json::object();
    json::insert(&mut payload, "ok", json::boolean(true));
    json::insert(&mut payload, "idle_ms", json::unsigned(idle));
    payload
}

/// The answer of a wait for the person to stop.
pub open spec fn idle_wait_json(idle: bool, idle_ms: u64) -> Json {
    Json::Object(
        Map::<Seq<char>, Json>::empty().insert("ok"@, Json::Bool(true)).insert(
            "idle"@,
            Json::Bool(idle),
        ).insert("idle_ms"@, Json::Unsigned(idle_ms)),
    )
}

/// One poll of a wait for the person to stop: the answer where the reading reached
/// the target, or the time is up; nothing where there is another poll to make.
pub fn wait_for_idle(idle_ms: u64, target_ms: u64, now_ms: u64, deadline: u64) -> (r: Option<Value>)
    ensures
        match r {
            Some(payload) => json::json_of(payload) == idle_wait_json(idle_ms >= target_ms, idle_ms)
                && (idle_ms >= target_ms || now_ms >= deadline),
            None => idle_ms < target_ms && now_ms < deadline,
        },
{
    if idle_ms < target_ms && now_ms < deadline {
        return None;
    }
    let mut payload = json::object();
    json::insert(&mut payload, "ok", json::boolean(true));
    json::insert(&mut payload, "idle", json::boolean(idle_ms >= target_ms));
    json::insert(&mut payload, "idle_ms", json::unsigned(idle_ms));
    Some(payload)
}

/// A wait is as long as was asked for, or what it is without being asked, and never longer
/// than twenty-five seconds; the time between two polls is that too, and at least a
/// millisecond.
pub proof fn a_wait_is_as_long_as_was_asked(req: Json, timeout: u64, poll: u64)
    ensures
        ({
            let polling = polling_of(req, timeout, poll);
            let asked_timeout = match json::field(req, "timeout_ms"@) {
                Some(Json::Unsigned(n)) => n,
                _ => timeout,
            };
            let asked_poll = match json::field(req, "poll_ms"@) {
                Some(Json::Unsigned(n)) => n,
                _ => poll,
            };
            &&& asked_timeout <= 25_000 ==> polling.timeout_ms == asked_timeout
            &&& asked_timeout > 25_000 ==> polling.timeout_ms == 25_000
            &&& 1 <= asked_poll <= 25_000 ==> polling.poll_ms == asked_poll
            &&& asked_poll == 0 ==> polling.poll_ms == 1
            &&& asked_poll > 25_000 ==> polling.poll_ms == 25_000
        }),
{
}

/// What says only that it was done says that, and the reports of idle times say the time
/// and whether it was long enough.
pub proof fn idle_reports_read_back(idle: bool, idle_ms: u64)
    ensures
        json::field_bool(done_json(), "ok"@) == Some(true),
        json::field_bool(idle_json(idle_ms), "ok"@) == Some(true),
        json::field_u64(idle_json(idle_ms), "idle_ms"@) == Some(idle_ms),
        json::field_bool(idle_wait_json(idle, idle_ms), "ok"@) == Some(true),
        json::field_bool(idle_wait_json(idle, idle_ms), "idle"@) == Some(idle),
        json::field_u64(idle_wait_json(idle, idle_ms), "idle_ms"@) == Some(idle_ms),
{
    reveal_strlit("ok");
    reveal_strlit("idle");
    reveal_strlit("idle_ms");
    assert("ok"@.len() == 2);
    assert("idle"@.len() == 4);
    assert("idle_ms"@.len() == 7);
}

/// What is watched is what was asked for: the image that is named, the rectangle, and the
/// time; and an image that cannot be used is refused whatever else was asked.
pub proof fn a_watch_is_what_was_asked(
    req: Json,
    observation_id: Option<Seq<char>>,
    table: ObservationsView,
    now_ms: u64,
)
    ensures
        watch_of(req, observation_id, table, now_ms) is Ok <==> address::image_named(
            observation_id,
            table,
            now_ms,
        ) is Ok && capture::viewing_of(req, observation_id, table, now_ms) is Ok,
        watch_of(req, observation_id, table, now_ms) matches Ok(watch) ==> {
            &&& address::image_named(observation_id, table, now_ms) == Ok::<
                Option<ObservationView>,
                FailureView,
            >(watch.named)
            &&& capture::viewing_of(req, observation_id, table, now_ms) == Ok::<
                ViewingView,
                FailureView,
            >(watch.viewing)
            &&& watch.polling == polling_of(req, 10_000, 250)
            &&& watch.rulers <==> json::field_bool(req, "rulers"@) == Some(true)
        },
        observation_id matches Some(id) ==> table.named(id, now_ms) matches Err(refusal)
            ==> watch_of(req, observation_id, table, now_ms) == Err::<WatchView, FailureView>(
            capture::refused_view(refusal),
        ),
{
}

/// An idle time is an interval exactly where it is a finite number that is not below zero,
/// and a zero is one whichever sign it has.
pub proof fn an_interval_is_not_below_zero(bits: u64, sign: int, exponent: int, low: int)
    requires
        0 <= sign <= 1,
        0 <= exponent < 2048,
        0 <= low < 0x10_0000_0000_0000,
        bits == sign * 0x8000_0000_0000_0000 + exponent * 0x10_0000_0000_0000 + low,
    ensures
        is_an_interval(bits) <==> exponent < 2047 && (sign == 0 || exponent == 0 && low == 0),
{
    assert(measure::raw_exponent(bits) == exponent);
}

} // verus!
