use vstd::prelude::*;

verus! {

/// Whole milliseconds of the duration that `parse_duration::parse` reads from a
/// string, or `None` where it rejects the string.
pub uninterp spec fn parsed_millis(s: Seq<char>) -> Option<u128>;

pub open spec fn is_digit(c: char) -> bool {
    '0' <= c && c <= '9'
}

pub open spec fn is_exp_mark(c: char) -> bool {
    c == 'e' || c == 'E'
}

/// At position `i` stands an exponent marker followed (after an optional sign)
/// by three digits or more.
pub open spec fn long_exponent_at(s: Seq<char>, i: int) -> bool {
    &&& 0 <= i < s.len()
    &&& is_exp_mark(s[i])
    &&& {
        ||| (i + 3 < s.len() && is_digit(s[i + 1]) && is_digit(s[i + 2]) && is_digit(s[i + 3]))
        ||| (i + 4 < s.len() && (s[i + 1] == '+' || s[i + 1] == '-') && is_digit(s[i + 2])
            && is_digit(s[i + 3]) && is_digit(s[i + 4]))
    }
}

pub open spec fn has_long_exponent(s: Seq<char>) -> bool {
    exists|i: int| long_exponent_at(s, i)
}

/// Relies on `parse_duration::parse`: it reads a human duration such as `1h` or
/// `90 min`; the result depends on the text alone. An empty string is rejected.
/// The parser raises ten to the power of a written exponent, so a long exponent
/// would not finish in practice: such input is left out.
#[verifier::external_body]
fn parse_duration_millis(s: &str) -> (r: Option<u128>)
    requires
        !has_long_exponent(s@),
    ensures
        r == parsed_millis(s@),
        s@.len() == 0 ==> r is None,
{
    parse_duration::parse(s).ok().map(|d| d.as_millis())
}

/// Why an interval string cannot be used for a recurring event.
#[derive(Clone, Copy, Debug, PartialEq, Eq, Structural)]
pub enum IntervalError {
    /// The text is not a duration.
    Unparsable,
    /// The duration is shorter than one millisecond.
    NotPositive,
    /// The duration does not fit a signed 64-bit count of milliseconds.
    TooLarge,
}

pub open spec fn interval_spec(parsed: Option<u128>) -> Result<i64, IntervalError> {
    match parsed {
        None => Err(IntervalError::Unparsable),
        Some(ms) => if ms == 0 {
            Err(IntervalError::NotPositive)
        } else if ms > i64::MAX as u128 {
            Err(IntervalError::TooLarge)
        } else {
            Ok(ms as i64)
        },
    }
}

/// Turns a parsed duration into a strictly positive interval in milliseconds.
pub fn interval_from_parsed(parsed: Option<u128>) -> (r: Result<i64, IntervalError>)
    ensures
        r == interval_spec(parsed),
        r matches Ok(ms) ==> ms > 0,
{
    match parsed {
        None => Err(IntervalError::Unparsable),
        Some(ms) => {
            if ms == 0 {
                Err(IntervalError::NotPositive)
            } else if ms > i64::MAX as u128 {
                Err(IntervalError::TooLarge)
            } else {
                Ok(ms as i64)
            }
        },
    }
}

pub open spec fn parse_interval_spec(s: Seq<char>) -> Result<i64, IntervalError> {
    if has_long_exponent(s) {
        Err(IntervalError::Unparsable)
    } else {
        interval_spec(parsed_millis(s))
    }
}

fn is_digit_exec(c: char) -> (r: bool)
    ensures
        r == is_digit(c),
{
    '0' <= c && c <= '9'
}

/// Looks for an exponent of three digits or more.
pub fn find_long_exponent(s: &str) -> (r: bool)
    ensures
        r == has_long_exponent(s@),
{
    let n = s.unicode_len();
    let mut i: usize = 0;
    while i < n
        invariant
            n == s@.len(),
            i <= n,
            forall|j: int| 0 <= j < i ==> !long_exponent_at(s@, j),
        decreases n - i,
    {
        let c = s.get_char(i);
        if c == 'e' || c == 'E' {
            if 3 < n - i && is_digit_exec(s.get_char(i + 1)) && is_digit_exec(s.get_char(i + 2))
                && is_digit_exec(s.get_char(i + 3)) {
                assert(long_exponent_at(s@, i as int));
                return true;
            }
            if 4 < n - i {
                let sign = s.get_char(i + 1);
                if (sign == '+' || sign == '-') && is_digit_exec(s.get_char(i + 2))
                    && is_digit_exec(s.get_char(i + 3)) && is_digit_exec(s.get_char(i + 4)) {
                    assert(long_exponent_at(s@, i as int));
                    return true;
                }
            }
        }
        i = i + 1;
    }
    false
}

/// Parses and validates an interval string; only strictly positive durations
/// are accepted, and exponents of three digits or more are refused.
pub fn parse_interval(s: &str) -> (r: Result<i64, IntervalError>)
    ensures
        r == parse_interval_spec(s@),
        s@.len() == 0 ==> r == Err::<i64, IntervalError>(IntervalError::Unparsable),
{
    if find_long_exponent(s) {
        return Err(IntervalError::Unparsable);
    }
    let parsed = parse_duration_millis(s);
    interval_from_parsed(parsed)
}

/// An accepted interval is strictly positive.
pub proof fn lemma_interval_positive(s: Seq<char>)
    ensures
        parse_interval_spec(s) matches Ok(ms) ==> ms > 0,
{
}

pub open spec fn next_due_spec(due_at: i64, interval: i64) -> Option<i64> {
    if due_at + interval <= i64::MAX && due_at + interval >= i64::MIN {
        Some((due_at + interval) as i64)
    } else {
        None
    }
}

/// The next due time of a recurring event: the previous scheduled time plus the
/// interval, or `None` where it does not fit the timestamp range.
pub fn next_due(due_at: i64, interval: i64) -> (r: Option<i64>)
    ensures
        r == next_due_spec(due_at, interval),
{
    due_at.checked_add(interval)
}

} // verus!
