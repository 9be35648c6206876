//! The weekly time-window access policy.
//!
//! A schedule maps a weekday to an ordered sequence of ranges, each the
//! literal form `"HH:MM:SS-HH:MM:SS"`. Both ends of a range are inclusive,
//! and the declared order is significant: the first matching range admits.
//! A malformed range string is a configuration defect, not an
//! attacker-controlled input, and so propagates as a policy error instead of
//! quietly denying.

use vstd::prelude::*;
use vstd::string::StrSliceExecFns;

use crate::error::{Error, ErrorKind};
use crate::strutil::str_eq;

verus! {

/// A day of the week.
#[derive(Clone, Copy, Debug, PartialEq, Eq, Structural)]
pub enum Weekday {
    Monday,
    Tuesday,
    Wednesday,
    Thursday,
    Friday,
    Saturday,
    Sunday,
}

/// The weekday named by a configuration key such as `"monday"`.
pub open spec fn spec_weekday_from_name(s: Seq<char>) -> Option<Weekday> {
    if s == "monday"@ {
        Some(Weekday::Monday)
    } else if s == "tuesday"@ {
        Some(Weekday::Tuesday)
    } else if s == "wednesday"@ {
        Some(Weekday::Wednesday)
    } else if s == "thursday"@ {
        Some(Weekday::Thursday)
    } else if s == "friday"@ {
        Some(Weekday::Friday)
    } else if s == "saturday"@ {
        Some(Weekday::Saturday)
    } else if s == "sunday"@ {
        Some(Weekday::Sunday)
    } else {
        None
    }
}

/// Resolves a lower-case day name to its weekday.
pub fn weekday_from_name(name: &str) -> (r: Option<Weekday>)
    ensures
        r == spec_weekday_from_name(name@),
{
    if str_eq(name, "monday") {
        Some(Weekday::Monday)
    } else if str_eq(name, "tuesday") {
        Some(Weekday::Tuesday)
    } else if str_eq(name, "wednesday") {
        Some(Weekday::Wednesday)
    } else if str_eq(name, "thursday") {
        Some(Weekday::Thursday)
    } else if str_eq(name, "friday") {
        Some(Weekday::Friday)
    } else if str_eq(name, "saturday") {
        Some(Weekday::Saturday)
    } else if str_eq(name, "sunday") {
        Some(Weekday::Sunday)
    } else {
        None
    }
}

/// A decimal digit.
pub open spec fn is_digit(c: char) -> bool {
    48 <= c as int <= 57
}

/// The value of a digit string, most significant digit first.
pub open spec fn digits_val(s: Seq<char>) -> int
    decreases s.len(),
{
    if s.len() == 0 {
        0
    } else {
        digits_val(s.drop_last()) * 10 + (s.last() as int - 48)
    }
}

/// A nonempty all-digit string that fits in 32 bits, as a number.
pub open spec fn parse_u32(s: Seq<char>) -> Option<u32> {
    if s.len() > 0 && (forall|k: int| 0 <= k < s.len() ==> is_digit(s[k])) && digits_val(s)
        <= u32::MAX {
        Some(digits_val(s) as u32)
    } else {
        None
    }
}

proof fn lemma_digits_val_nonneg(s: Seq<char>)
    requires
        forall|k: int| 0 <= k < s.len() ==> is_digit(s[k]),
    ensures
        digits_val(s) >= 0,
    decreases s.len(),
{
    if s.len() > 0 {
        lemma_digits_val_nonneg(s.drop_last());
    }
}

proof fn lemma_digits_val_take_le(s: Seq<char>, i: int)
    requires
        0 <= i <= s.len(),
        forall|k: int| 0 <= k < s.len() ==> is_digit(s[k]),
    ensures
        digits_val(s.take(i)) <= digits_val(s),
    decreases s.len() - i,
{
    if i < s.len() {
        lemma_digits_val_take_le(s, i + 1);
        assert(s.take(i + 1).drop_last() =~= s.take(i));
        lemma_digits_val_nonneg(s.take(i));
        assert(digits_val(s.take(i + 1)) == digits_val(s.take(i)) * 10 + (s[i] as int - 48));
    } else {
        assert(s.take(i) =~= s);
    }
}

/// Parses a digit string; `None` on anything that is not a nonempty decimal
/// number fitting in 32 bits.
fn parse_u32_str(s: &str) -> (r: Option<u32>)
    ensures
        r == parse_u32(s@),
{
    let len = s.unicode_len();
    if len == 0 {
        return None;
    }
    let mut acc: u32 = 0;
    let mut i: usize = 0;
    while i < len
        invariant
            len == s@.len(),
            0 < len,
            i <= len,
            forall|k: int| 0 <= k < i ==> is_digit(s@[k]),
            acc as int == digits_val(s@.take(i as int)),
        decreases len - i,
    {
        let c = s.get_char(i) as u32;
        if c < 48 || c > 57 {
            return None;
        }
        let d = c - 48;
        let next = (acc as u64) * 10 + (d as u64);
        proof {
            assert(s@.take(i + 1).drop_last() =~= s@.take(i as int));
            assert(digits_val(s@.take(i + 1)) == acc as int * 10 + (d as int));
        }
        if next > 0xffff_ffffu64 {
            proof {
                if forall|k: int| 0 <= k < s@.len() ==> is_digit(s@[k]) {
                    lemma_digits_val_take_le(s@, i + 1);
                }
            }
            return None;
        }
        acc = next as u32;
        i += 1;
    }
    proof {
        assert(s@.take(len as int) =~= s@);
    }
    Some(acc)
}

/// The position of the leftmost `c` at or after `i`, if any.
pub open spec fn find_char_from(s: Seq<char>, c: char, i: int) -> Option<int>
    decreases s.len() - i,
{
    if i < 0 || i >= s.len() {
        None
    } else if s[i] == c {
        Some(i)
    } else {
        find_char_from(s, c, i + 1)
    }
}

fn find_char(s: &str, c: char, from: usize) -> (r: Option<usize>)
    requires
        from <= s@.len(),
    ensures
        match find_char_from(s@, c, from as int) {
            Some(j) => r matches Some(u) && u as int == j && from <= j < s@.len(),
            None => r is None,
        },
{
    let len = s.unicode_len();
    let mut k: usize = from;
    loop
        invariant
            len == s@.len(),
            from <= k <= len,
            find_char_from(s@, c, from as int) == find_char_from(s@, c, k as int),
        ensures
            from <= k <= len,
            k < len ==> find_char_from(s@, c, from as int) == Some(k as int),
            k == len ==> find_char_from(s@, c, from as int) is None,
        decreases len - k,
    {
        if k == len {
            break;
        }
        if s.get_char(k) == c {
            break;
        }
        k += 1;
    }
    if k < len {
        Some(k)
    } else {
        None
    }
}

/// A wall-clock time `"HH:MM:SS"` as seconds of the day: the first two
/// colon-separated fields and the third one (anything past a third colon is
/// ignored) must be decimal numbers no larger than 23, 59 and 59.
pub open spec fn spec_parse_time(s: Seq<char>) -> Option<u32> {
    match find_char_from(s, ':', 0) {
        None => None,
        Some(j1) => match find_char_from(s, ':', j1 + 1) {
            None => None,
            Some(j2) => {
                let hpart = s.subrange(0, j1);
                let mpart = s.subrange(j1 + 1, j2);
                let spart = match find_char_from(s, ':', j2 + 1) {
                    None => s.subrange(j2 + 1, s.len() as int),
                    Some(j3) => s.subrange(j2 + 1, j3),
                };
                match (parse_u32(hpart), parse_u32(mpart), parse_u32(spart)) {
                    (Some(h), Some(m), Some(sec)) => if h <= 23 && m <= 59 && sec <= 59 {
                        Some((h * 3600 + m * 60 + sec) as u32)
                    } else {
                        None
                    },
                    _ => None,
                }
            },
        },
    }
}

fn parse_time(s: &str) -> (r: Option<u32>)
    ensures
        r == spec_parse_time(s@),
        r matches Some(t) ==> t < 86400,
{
    let len = s.unicode_len();
    let j1 = match find_char(s, ':', 0) {
        Some(j) => j,
        None => {
            return None;
        },
    };
    let j2 = match find_char(s, ':', j1 + 1) {
        Some(j) => j,
        None => {
            return None;
        },
    };
    let send = match find_char(s, ':', j2 + 1) {
        Some(j3) => j3,
        None => len,
    };
    let hpart = s.substring_char(0, j1);
    let mpart = s.substring_char(j1 + 1, j2);
    let spart = s.substring_char(j2 + 1, send);
    let h = match parse_u32_str(hpart) {
        Some(v) => v,
        None => {
            return None;
        },
    };
    let m = match parse_u32_str(mpart) {
        Some(v) => v,
        None => {
            return None;
        },
    };
    let sec = match parse_u32_str(spart) {
        Some(v) => v,
        None => {
            return None;
        },
    };
    if h <= 23 && m <= 59 && sec <= 59 {
        Some(h * 3600 + m * 60 + sec)
    } else {
        None
    }
}

/// Parses one `"HH:MM:SS"` field; a malformed field is a policy error.
pub fn get_time(s: &str) -> (r: Result<u32, Error>)
    ensures
        spec_parse_time(s@) matches Some(t) ==> r == Ok::<u32, Error>(t),
        spec_parse_time(s@) is None ==> (r matches Err(e) && e.kind == ErrorKind::Policy),
{
    match parse_time(s) {
        Some(t) => Ok(t),
        None => Err(
            Error::categorized(ErrorKind::Policy, "could not parse time of day".to_owned()),
        ),
    }
}

/// A schedule range `"start-end"`: the part before the first `-` and the part
/// between the first and second `-` (or the rest), both wall-clock times.
pub open spec fn spec_parse_range(s: Seq<char>) -> Option<(u32, u32)> {
    match find_char_from(s, '-', 0) {
        None => None,
        Some(j) => {
            let epart = match find_char_from(s, '-', j + 1) {
                None => s.subrange(j + 1, s.len() as int),
                Some(j2) => s.subrange(j + 1, j2),
            };
            match (spec_parse_time(s.subrange(0, j)), spec_parse_time(epart)) {
                (Some(a), Some(b)) => Some((a, b)),
                _ => None,
            }
        },
    }
}

fn parse_range(s: &str) -> (r: Option<(u32, u32)>)
    ensures
        r == spec_parse_range(s@),
{
    let len = s.unicode_len();
    let j = match find_char(s, '-', 0) {
        Some(j) => j,
        None => {
            return None;
        },
    };
    let eend = match find_char(s, '-', j + 1) {
        Some(j2) => j2,
        None => len,
    };
    let start = match parse_time(s.substring_char(0, j)) {
        Some(a) => a,
        None => {
            return None;
        },
    };
    let end = match parse_time(s.substring_char(j + 1, eend)) {
        Some(b) => b,
        None => {
            return None;
        },
    };
    Some((start, end))
}

/// The verdict of one weekday's range list on a time of day, in declared
/// order: `Some(true)` as soon as a range contains the time (both ends
/// inclusive), `None` as soon as a range is malformed, and `Some(false)` when
/// the list is exhausted. Entries after the first match are never examined.
pub open spec fn eval_ranges(rs: Seq<Seq<char>>, t: u32) -> Option<bool>
    decreases rs.len(),
{
    if rs.len() == 0 {
        Some(false)
    } else {
        match spec_parse_range(rs.first()) {
            None => None,
            Some(r) => if r.0 <= t && t <= r.1 {
                Some(true)
            } else {
                eval_ranges(rs.drop_first(), t)
            },
        }
    }
}

/// First match wins: if the range at position `i` contains `t` and every
/// earlier-declared range is well-formed and does not, the verdict is admit —
/// whatever stands after position `i`, matching or malformed.
pub proof fn lemma_first_match_wins(rs: Seq<Seq<char>>, t: u32, i: int)
    requires
        0 <= i < rs.len(),
        spec_parse_range(rs[i]) matches Some(r) && r.0 <= t && t <= r.1,
        forall|j: int|
            0 <= j < i ==> ((#[trigger] spec_parse_range(rs[j])) matches Some(q) && !(q.0 <= t
                && t <= q.1)),
    ensures
        eval_ranges(rs, t) == Some(true),
    decreases i,
{
    if i > 0 {
        assert(rs.drop_first()[i - 1] == rs[i]);
        assert(forall|j: int|
            0 <= j < i - 1 ==> rs.drop_first()[j] == rs[j + 1]);
        lemma_first_match_wins(rs.drop_first(), t, i - 1);
    }
}

/// Evaluates one weekday's ordered range list.
pub fn evaluate_ranges(ranges: &Vec<String>, t: u32) -> (r: Result<bool, Error>)
    ensures
        eval_ranges(ranges.deep_view(), t) matches Some(b) ==> r == Ok::<bool, Error>(b),
        eval_ranges(ranges.deep_view(), t) is None ==> (r matches Err(e) && e.kind
            == ErrorKind::Policy),
{
    let n = ranges.len();
    let mut i: usize = 0;
    proof {
        assert(ranges.deep_view().skip(0) =~= ranges.deep_view());
    }
    while i < n
        invariant
            n == ranges@.len(),
            i <= n,
            eval_ranges(ranges.deep_view(), t) == eval_ranges(ranges.deep_view().skip(i as int), t),
        decreases n - i,
    {
        let ghost rest = ranges.deep_view().skip(i as int);
        proof {
            assert(rest.first() == ranges.deep_view()[i as int]);
            assert(rest.drop_first() =~= ranges.deep_view().skip(i + 1));
        }
        match parse_range(ranges[i].as_str()) {
            None => {
                return Err(
                    Error::categorized(
                        ErrorKind::Policy,
                        "malformed schedule range".to_owned(),
                    ),
                );
            },
            Some((a, b)) => {
                if a <= t && t <= b {
                    return Ok(true);
                }
            },
        }
        i += 1;
    }
    proof {
        assert(ranges.deep_view().skip(n as int) =~= Seq::<Seq<char>>::empty());
    }
    Ok(false)
}

/// The decision of the weekly policy on one weekday and time of day.
#[derive(Clone, Copy, Debug, PartialEq, Eq, Structural)]
pub enum PolicyDecision {
    /// Some declared range of the weekday contains the time.
    Admit,
    /// The schedule has no entry for the weekday.
    DenyNoSchedule,
    /// The weekday is scheduled but no range contains the time.
    DenyOutsideHours,
}

/// The first schedule entry declared for a weekday, if any.
pub open spec fn lookup_day(sched: Seq<(Weekday, Vec<String>)>, d: Weekday) -> Option<
    Vec<String>,
>
    decreases sched.len(),
{
    if sched.len() == 0 {
        None
    } else if sched.first().0 == d {
        Some(sched.first().1)
    } else {
        lookup_day(sched.drop_first(), d)
    }
}

/// What the weekly policy decides: access is granted exactly when the
/// weekday has a schedule entry and a declared range contains the time;
/// `None` marks a malformed range.
pub open spec fn spec_evaluate(
    sched: Seq<(Weekday, Vec<String>)>,
    d: Weekday,
    t: u32,
) -> Option<PolicyDecision> {
    match lookup_day(sched, d) {
        None => Some(PolicyDecision::DenyNoSchedule),
        Some(ranges) => match eval_ranges(ranges.deep_view(), t) {
            None => None,
            Some(true) => Some(PolicyDecision::Admit),
            Some(false) => Some(PolicyDecision::DenyOutsideHours),
        },
    }
}

/// Evaluates the weekly schedule for a weekday and a time of day, given as
/// whole seconds since midnight.
pub fn evaluate(schedule: &Vec<(Weekday, Vec<String>)>, weekday: Weekday, current_time: u32) -> (r:
    Result<PolicyDecision, Error>)
    ensures
        spec_evaluate(schedule@, weekday, current_time) matches Some(d) ==> r == Ok::<
            PolicyDecision,
            Error,
        >(d),
        spec_evaluate(schedule@, weekday, current_time) is None ==> (r matches Err(e) && e.kind
            == ErrorKind::Policy),
{
    let n = schedule.len();
    let mut i: usize = 0;
    proof {
        assert(schedule@.skip(0) =~= schedule@);
    }
    while i < n
        invariant
            n == schedule@.len(),
            i <= n,
            lookup_day(schedule@, weekday) == lookup_day(schedule@.skip(i as int), weekday),
        decreases n - i,
    {
        let ghost rest = schedule@.skip(i as int);
        proof {
            assert(rest.first() == schedule@[i as int]);
            assert(rest.drop_first() =~= schedule@.skip(i + 1));
        }
        if schedule[i].0 == weekday {
            return match evaluate_ranges(&schedule[i].1, current_time) {
                Ok(true) => Ok(PolicyDecision::Admit),
                Ok(false) => Ok(PolicyDecision::DenyOutsideHours),
                Err(e) => Err(e),
            };
        }
        i += 1;
    }
    proof {
        assert(schedule@.skip(n as int) =~= Seq::<(Weekday, Vec<String>)>::empty());
    }
    Ok(PolicyDecision::DenyNoSchedule)
}

} // verus!
