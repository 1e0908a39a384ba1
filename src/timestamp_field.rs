//! A generator of random timestamps within a window before the time it was made.
use rand::Rng;
use vstd::prelude::*;

verus! {

#[verifier::external_type_specification]
#[verifier::external_body]
pub struct ExParseDurationError(parse_duration::parse::Error);

#[verifier::external_type_specification]
#[verifier::external_body]
pub struct ExOutOfRangeError(chrono::OutOfRangeError);

/// The duration that parse_duration reads from a text, as whole seconds and the
/// nanoseconds beyond them, where it reads one.
pub uninterp spec fn parsed_duration(s: Seq<char>) -> Option<(u64, u32)>;

/// The text that chrono writes for the date and time `secs` seconds and `nanos`
/// nanoseconds after the Unix epoch, where that instant is in its range.
pub uninterp spec fn datetime_text(secs: int, nanos: nat) -> Option<Seq<char>>;

/// Relies on chrono's `Local::now` and `NaiveDateTime::and_utc`, `timestamp` and
/// `timestamp_subsec_nanos`: the local wall-clock time now, as seconds and
/// nanoseconds of a naive timestamp.
#[verifier::external_body]
fn local_now_timestamp() -> (r: (i64, u32))
    ensures
        r.1 < 2_000_000_000,
{
    let now = chrono::Local::now().naive_local().and_utc();
    (now.timestamp(), now.timestamp_subsec_nanos())
}

/// Relies on parse_duration's `parse`: the duration a text such as "2h 30m" denotes.
#[verifier::external_body]
fn parse_duration_text(s: &str) -> (r: Result<(u64, u32), parse_duration::parse::Error>)
    ensures
        r is Ok <==> parsed_duration(s@) is Some,
        r matches Ok(d) ==> Some(d) == parsed_duration(s@) && d.1 < 1_000_000_000,
{
    parse_duration::parse(s).map(|d| (d.as_secs(), d.subsec_nanos()))
}

/// The largest number of whole seconds that chrono's `TimeDelta` holds.
pub const TIME_DELTA_MAX_SECS: u64 = 9_223_372_036_854_775;

/// The nanoseconds beyond `TIME_DELTA_MAX_SECS` that chrono's `TimeDelta` still holds.
pub const TIME_DELTA_MAX_NANOS: u32 = 807_000_000;

/// Relies on chrono's `TimeDelta::from_std` and `TimeDelta::num_seconds`: a standard
/// duration within chrono's range, in whole seconds.
#[verifier::external_body]
fn delta_seconds_from_std(secs: u64, nanos: u32) -> (r: Result<i64, chrono::OutOfRangeError>)
    requires
        nanos < 1_000_000_000,
    ensures
        r is Ok <==> (secs < TIME_DELTA_MAX_SECS || (secs == TIME_DELTA_MAX_SECS && nanos
            <= TIME_DELTA_MAX_NANOS)),
        r matches Ok(n) ==> n == secs,
{
    chrono::TimeDelta::from_std(std::time::Duration::new(secs, nanos)).map(|d| d.num_seconds())
}

/// Relies on rand's `thread_rng` and `Rng::gen_range` over an inclusive range: a
/// random number from zero to `max`.
#[verifier::external_body]
fn random_up_to(max: i64) -> (r: i64)
    requires
        max >= 0,
    ensures
        0 <= r <= max,
{
    rand::thread_rng().gen_range(0..=max)
}

/// Relies on chrono's `DateTime::from_timestamp`, `naive_utc` and the `Display` of
/// `NaiveDateTime`: the text of an instant, where chrono can represent it.
#[verifier::external_body]
fn naive_datetime_text(secs: i64, nanos: u32) -> (r: Option<String>)
    ensures
        r is Some <==> datetime_text(secs as int, nanos as nat) is Some,
        r matches Some(t) ==> Some(t@) == datetime_text(secs as int, nanos as nat),
{
    chrono::DateTime::from_timestamp(secs, nanos).map(|d| d.naive_utc().to_string())
}

/// The window of one day, in seconds, used when none is given.
pub const DEFAULT_MAX_PAST_SECS: i64 = 86400;

/// Why a timestamp generator could not be made.
#[derive(Clone, Copy, PartialEq, Eq, Debug)]
pub enum TimestampFieldError {
    /// The window is not a duration.
    InvalidDuration,
    /// The window is longer than a time delta can hold.
    OutOfRange,
}

/// A generator of timestamps up to `max_past_secs` seconds before `local_now`.
pub struct TimestampField {
    pub max_past_secs: i64,
    pub local_now_secs: i64,
    pub local_now_nanos: u32,
}

/// The window of a text: what the text denotes, in whole seconds, where that fits.
pub open spec fn max_past_of(text: Option<Seq<char>>) -> Result<i64, TimestampFieldError> {
    match text {
        None => Ok(DEFAULT_MAX_PAST_SECS),
        Some(t) => match parsed_duration(t) {
            None => Err(TimestampFieldError::InvalidDuration),
            Some((secs, nanos)) => if secs < TIME_DELTA_MAX_SECS || (secs == TIME_DELTA_MAX_SECS
                && nanos <= TIME_DELTA_MAX_NANOS) {
                Ok(secs as i64)
            } else {
                Err(TimestampFieldError::OutOfRange)
            },
        },
    }
}

impl TimestampField {
    pub open spec fn wf(&self) -> bool {
        self.max_past_secs >= 0
    }

    /// The generator for the window that `max_past_option` denotes (one day where none
    /// is given), ending now.
    pub fn new(max_past_option: Option<String>) -> (r: Result<Self, TimestampFieldError>)
        ensures
            r is Ok <==> max_past_of(
                match max_past_option {
                    Some(s) => Some(s@),
                    None => None,
                },
            ) is Ok,
            r matches Err(e) ==> max_past_of(
                match max_past_option {
                    Some(s) => Some(s@),
                    None => None,
                },
            ) == Err::<i64, TimestampFieldError>(e),
            r matches Ok(f) ==> f.wf() && Ok::<i64, TimestampFieldError>(f.max_past_secs) == max_past_of(
                match max_past_option {
                    Some(s) => Some(s@),
                    None => None,
                },
            ),
    {
        let (local_now_secs, local_now_nanos) = local_now_timestamp();
        let max_past_secs = match max_past_option {
            Some(text) => {
                match parse_duration_text(text.as_str()) {
                    Ok((secs, nanos)) => match delta_seconds_from_std(secs, nanos) {
                        Ok(n) => n,
                        Err(_) => {
                            return Err(TimestampFieldError::OutOfRange);
                        },
                    },
                    Err(_) => {
                        return Err(TimestampFieldError::InvalidDuration);
                    },
                }
            },
            None => DEFAULT_MAX_PAST_SECS,
        };
        Ok(TimestampField { max_past_secs, local_now_secs, local_now_nanos })
    }

    /// The text of the timestamp `back_secs` seconds before the generator's now, where
    /// chrono can represent it.
    pub fn timestamp_before(&self, back_secs: i64) -> (r: Option<String>)
        requires
            0 <= back_secs <= self.max_past_secs,
        ensures
            self.local_now_secs - back_secs >= i64::MIN ==> (r is Some <==> datetime_text(
                self.local_now_secs - back_secs,
                self.local_now_nanos as nat,
            ) is Some),
            r matches Some(t) ==> Some(t@) == datetime_text(
                self.local_now_secs - back_secs,
                self.local_now_nanos as nat,
            ),
    {
        if self.local_now_secs < i64::MIN + back_secs {
            return None;
        }
        naive_datetime_text(self.local_now_secs - back_secs, self.local_now_nanos)
    }

    /// A random timestamp of the window, as text.
    pub fn generate(&mut self) -> (r: Option<String>)
        requires
            old(self).wf(),
        ensures
            *final(self) == *old(self),
            r is None ==> exists|back: int|
                0 <= back <= old(self).max_past_secs && (old(self).local_now_secs - back < i64::MIN
                    || #[trigger] datetime_text(
                    old(self).local_now_secs - back,
                    old(self).local_now_nanos as nat,
                ) is None),
            r matches Some(t) ==> exists|back: int|
                0 <= back <= old(self).max_past_secs && Some(t@) == #[trigger] datetime_text(
                    old(self).local_now_secs - back,
                    old(self).local_now_nanos as nat,
                ),
    {
        let back = random_up_to(self.max_past_secs);
        let r = self.timestamp_before(back);
        proof {
            let b = back as int;
            if r is None {
                assert(self.local_now_secs - b < i64::MIN || datetime_text(
                    self.local_now_secs - b,
                    self.local_now_nanos as nat,
                ) is None);
            }
        }
        r
    }
}

} // verus!
