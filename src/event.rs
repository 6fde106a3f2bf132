//! The two messages that cross the scheduler's boundary: a report on the
//! outcome of the last poll of a region, and a request to dispatch the next one.
use vstd::prelude::*;

verus! {

/// Number of result slots a single search call can fill.
pub const QUOTA_CEILING: u64 = 100;

/// Extra delay added for every result slot the last call left empty.
pub const BACKOFF_SCALE: u64 = 1;

/// `c` is an ASCII decimal digit.
pub open spec fn is_digit(c: char) -> bool {
    '0' <= c <= '9'
}

/// The number that a string of decimal digits spells.
pub open spec fn digits_value(s: Seq<char>) -> int
    decreases s.len(),
{
    if s.len() == 0 {
        0
    } else {
        digits_value(s.drop_last()) * 10 + (s.last() as int - '0' as int)
    }
}

/// The digits of `s`, without a leading plus sign.
pub open spec fn unsigned_digits(s: Seq<char>) -> Seq<char> {
    if s.len() > 0 && s[0] == '+' {
        s.subrange(1, s.len() as int)
    } else {
        s
    }
}

/// The 64-bit unsigned number that `s` writes in decimal, with an optional
/// leading plus sign; nothing when `s` writes no such number.
pub open spec fn decimal_u64(s: Seq<char>) -> Option<u64> {
    let d = unsigned_digits(s);
    if d.len() > 0 && (forall|i: int| 0 <= i < d.len() ==> is_digit(#[trigger] d[i])) && digits_value(d)
        <= u64::MAX {
        Some(digits_value(d) as u64)
    } else {
        None
    }
}

/// Relies on `str::parse::<u64>`: an optional `+` followed by one or more
/// decimal digits whose value fits, and nothing else, reads as that value.
#[verifier::external_body]
fn parse_u64(s: &str) -> (r: Option<u64>)
    ensures
        r == decimal_u64(s@),
{
    s.parse::<u64>().ok()
}

/// Feedback on the last poll of a region.
#[derive(PartialEq, Eq, Structural, Debug, Clone, Copy)]
pub struct InputEvent {
    /// Identifier of the region that the report belongs to.
    pub region_id: u64,
    /// Highest item identifier that the poll observed.
    pub max_id: u64,
    /// How many items the poll returned, at most `QUOTA_CEILING`.
    pub resources_count: u64,
    /// Present when the poll failed: the suggested wait before a retry.
    pub error: Option<u64>,
}

impl InputEvent {
    /// A report is well formed when its item count stays within the quota.
    pub open spec fn wf(&self) -> bool {
        self.resources_count <= QUOTA_CEILING
    }

    /// The wait this report adds on top of a region's cadence.
    pub open spec fn backoff(&self) -> int {
        match self.error {
            Some(wait) => wait as int,
            None => (QUOTA_CEILING - self.resources_count) * BACKOFF_SCALE,
        }
    }

    /// Builds a report from the fields of a feedback message. The message is
    /// malformed, and nothing is built, when the region, the highest id or the
    /// item count is missing, the highest id is not a decimal number, or the
    /// count exceeds the quota.
    pub fn from_fields(
        region_id: Option<u64>,
        max_id: Option<&str>,
        resources_count: Option<u64>,
        error: Option<u64>,
    ) -> (r: Option<InputEvent>)
        ensures
            r is Some <==> {
                &&& region_id is Some
                &&& max_id is Some
                &&& decimal_u64(max_id->Some_0@) is Some
                &&& resources_count is Some
                &&& resources_count->Some_0 <= QUOTA_CEILING
            },
            r matches Some(event) ==> {
                &&& event.region_id == region_id->Some_0
                &&& event.max_id == decimal_u64(max_id->Some_0@)->Some_0
                &&& event.resources_count == resources_count->Some_0
                &&& event.error == error
            },
            r matches Some(event) ==> event.wf(),
    {
        let region_id = match region_id {
            Some(id) => id,
            None => return None,
        };
        let max_id = match max_id {
            Some(text) => match parse_u64(text) {
                Some(m) => m,
                None => return None,
            },
            None => return None,
        };
        let resources_count = match resources_count {
            Some(c) => c,
            None => return None,
        };
        if resources_count > QUOTA_CEILING {
            return None;
        }
        Some(InputEvent { region_id, max_id, resources_count, error })
    }
}

/// A decision to publish a region's next call after `delay` milliseconds.
#[derive(Debug)]
pub struct OutputEvent {
    /// Milliseconds to wait before publishing.
    pub delay: u64,
    /// Identifier of the region the request belongs to.
    pub region_id: u64,
    /// Watermark of the region at the time of emission.
    pub since_id: u64,
    /// Serialized query parameters of the region, forwarded verbatim.
    pub params: String,
    /// Destination the request is published to.
    pub topic: String,
}

} // verus!
