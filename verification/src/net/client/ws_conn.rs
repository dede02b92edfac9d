use vstd::prelude::*;
use core::ops::Range;
use crate::container::{DeviceContainer, locate_spec, registered, locate_finds_registered, TopicView};
use crate::net::client::ws_msg::PayloadScenarioTimedToggle;

verus! {

/// Why a timed scenario could not be planned.
#[derive(Clone, Copy, Debug, PartialEq, Eq, Structural)]
pub enum ScenarioError {
    /// No device has the scenario's id.
    DeviceNotFound,
    /// The time is not an RFC 3339 date and time.
    MalformedTime,
    /// The time lies before the present.
    TimeInPast,
    /// The delay does not fit in the range of times.
    OutOfRange,
}

/// The delay in seconds from `now` until the local wall-clock time of a parsed time,
/// given by its UTC seconds and its offset, when it does not lie before `now`.
pub open spec fn delay_spec(utc: i64, offset: i32, now: i64) -> Result<u64, ScenarioError> {
    let d = utc + offset - now;
    if d < 0 {
        Err(ScenarioError::TimeInPast)
    } else if d > u64::MAX {
        Err(ScenarioError::OutOfRange)
    } else {
        Ok(d as u64)
    }
}

/// What planning a timed toggle of `sensor_id` answers, given the parsed time and the
/// present local wall-clock time in seconds: the device's id and the delay in seconds.
pub open spec fn plan_spec(
    v: Seq<crate::container::TopicView>,
    sensor_id: Seq<char>,
    time: Option<(i64, i32)>,
    now: i64,
) -> Result<(Seq<char>, u64), ScenarioError> {
    match locate_spec(v, sensor_id) {
        None => Err(ScenarioError::DeviceNotFound),
        Some((ti, di)) => match time {
            None => Err(ScenarioError::MalformedTime),
            Some((utc, offset)) => match delay_spec(utc, offset, now) {
                Ok(d) => Ok((v[ti].1[di].device_id, d)),
                Err(e) => Err(e),
            },
        },
    }
}

/// Planning a timed toggle of a registered device at a readable time answers the
/// device's id and a delay of exactly the time's UTC seconds plus its signed offset minus
/// `now`, for a negative offset as for a positive one; it refuses the time as past exactly
/// when that difference is negative, and as out of range exactly when it exceeds `u64`.
/// An unknown device is refused before the time is read.
pub proof fn plan_delay_is_difference(v: Seq<TopicView>, id: Seq<char>, time: Option<(i64, i32)>, now: i64)
    ensures
        !registered(v, id) ==> plan_spec(v, id, time, now) == Err::<(Seq<char>, u64), ScenarioError>(ScenarioError::DeviceNotFound),
        registered(v, id) && time is None ==> plan_spec(v, id, time, now) == Err::<(Seq<char>, u64), ScenarioError>(ScenarioError::MalformedTime),
        time matches Some((utc, offset)) ==> registered(v, id) ==> {
            let diff = utc + offset - now;
            &&& (diff < 0 <==> plan_spec(v, id, time, now) == Err::<(Seq<char>, u64), ScenarioError>(ScenarioError::TimeInPast))
            &&& (diff > u64::MAX <==> plan_spec(v, id, time, now) == Err::<(Seq<char>, u64), ScenarioError>(ScenarioError::OutOfRange))
            &&& (0 <= diff <= u64::MAX ==> (plan_spec(v, id, time, now) matches Ok((rid, d)) && rid == id && d == diff))
        },
{
    locate_finds_registered(v, id);
}

/// Plans a timed toggle of `sensor_id` (see `plan_spec`); `time` holds the UTC seconds
/// and the offset of the requested time, if it could be read.
pub fn plan_timed_toggle(
    container: &DeviceContainer,
    sensor_id: &String,
    time: Option<(i64, i32)>,
    now: i64,
) -> (r: Result<(String, u64), ScenarioError>)
    ensures
        match plan_spec(container@, sensor_id@, time, now) {
            Ok((id, d)) => r matches Ok((rid, rd)) && rid@ == id && rd == d,
            Err(e) => r == Err::<(String, u64), ScenarioError>(e),
        },
{
    let id = match container.find_device(sensor_id) {
        Some(dev) => dev.device_id.clone(),
        None => { return Err(ScenarioError::DeviceNotFound); },
    };
    let (utc, offset) = match time {
        Some(t) => t,
        None => { return Err(ScenarioError::MalformedTime); },
    };
    let d: i128 = utc as i128 + offset as i128 - now as i128;
    if d < 0 {
        return Err(ScenarioError::TimeInPast);
    }
    if d > u64::MAX as i128 {
        return Err(ScenarioError::OutOfRange);
    }
    Ok((id, d as u64))
}

/// The UTC seconds and the offset in seconds of an RFC 3339 date and time.
pub uninterp spec fn rfc3339_fields(s: Seq<char>) -> Option<(i64, i32)>;

/// Calls `chrono::DateTime::<FixedOffset>::parse_from_rfc3339` and reads the parsed time's
/// UTC timestamp (`timestamp`) and its offset (`offset().local_minus_utc()`). The contract
/// names the result as a function of the text; that an offset lies strictly within a day
/// either way is what `FixedOffset` guarantees.
#[verifier::external_body]
fn parse_rfc3339(s: &str) -> (r: Option<(i64, i32)>)
    ensures
        r == rfc3339_fields(s@),
        r matches Some((_, off)) ==> -86400 < off < 86400,
{
    match chrono::DateTime::<chrono::FixedOffset>::parse_from_rfc3339(s) {
        Ok(t) => Some((t.timestamp(), t.offset().local_minus_utc())),
        Err(_) => None,
    }
}

/// Plans the timed toggle a client asked for (see `plan_spec`): reads the payload's
/// RFC 3339 time and measures the delay from `now`, the present local wall-clock time.
pub fn plan_timed_toggle_request(
    container: &DeviceContainer,
    payload: &PayloadScenarioTimedToggle,
    now: i64,
) -> (r: Result<(String, u64), ScenarioError>)
    ensures
        match plan_spec(container@, payload.sensor_id@, rfc3339_fields(payload.time@), now) {
            Ok((id, d)) => r matches Ok((rid, rd)) && rid@ == id && rd == d,
            Err(e) => r == Err::<(String, u64), ScenarioError>(e),
        },
{
    let time = parse_rfc3339(payload.time.as_str());
    plan_timed_toggle(container, &payload.sensor_id, time, now)
}

/// The range of readings on which a sensor-conditional scenario fires: from the threshold
/// up when `cmp_over`, otherwise below it.
pub fn threshold_range(treshold: i32, cmp_over: bool) -> (r: Range<i32>)
    ensures
        cmp_over ==> r.start == treshold && r.end == i32::MAX,
        !cmp_over ==> r.start == i32::MIN && r.end == treshold,
{
    if cmp_over {
        treshold..i32::MAX
    } else {
        i32::MIN..treshold
    }
}

} // verus!
