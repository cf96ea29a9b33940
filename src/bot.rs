use vstd::prelude::*;

use crate::events_db::Event;
use crate::interval::{parse_interval, parse_interval_spec, IntervalError};

verus! {

/// Why a chat command is refused before anything is stored.
pub enum CommandError {
    /// A schedule command must reply to the message that holds the text.
    MissingReplyText,
    /// The date could not be read.
    InvalidDate,
    /// The date lies before the current time.
    PastDueTime,
    InvalidInterval(IntervalError),
    /// The zone name is not in the zone database; the input is echoed.
    InvalidTimezone(String),
}

/// The positions of the commas in `s`, in order.
pub open spec fn commas(s: Seq<char>) -> Seq<int>
    decreases s.len(),
{
    if s.len() == 0 {
        Seq::empty()
    } else if s.last() == ',' {
        commas(s.drop_last()).push(s.len() - 1)
    } else {
        commas(s.drop_last())
    }
}

/// The arguments of a schedule command split at the commas: two parts are
/// channel and date, three add an interval; any other count is refused with
/// the number of commas found.
pub open spec fn parse_args_spec(s: Seq<char>) -> Result<(Seq<char>, Seq<char>, Option<Seq<char>>), nat> {
    let p = commas(s);
    if p.len() == 1 {
        Ok((s.subrange(0, p[0]), s.subrange(p[0] + 1, s.len() as int), None))
    } else if p.len() == 2 {
        Ok(
            (
                s.subrange(0, p[0]),
                s.subrange(p[0] + 1, p[1]),
                Some(s.subrange(p[1] + 1, s.len() as int)),
            ),
        )
    } else {
        Err(p.len())
    }
}

proof fn lemma_commas_bounds(s: Seq<char>)
    ensures
        forall|k: int| 0 <= k < commas(s).len() ==> 0 <= #[trigger] commas(s)[k] < s.len(),
        forall|k: int, l: int| 0 <= k < l < commas(s).len() ==> commas(s)[k] < commas(s)[l],
        commas(s).len() <= s.len(),
    decreases s.len(),
{
    if s.len() > 0 {
        lemma_commas_bounds(s.drop_last());
    }
}

/// Splits the arguments of a schedule command at its commas.
pub fn parse_args(input: &str) -> (r: Result<(String, String, Option<String>), usize>)
    ensures
        match (r, parse_args_spec(input@)) {
            (Ok((a, b, c)), Ok((x, y, z))) => a@ == x && b@ == y && match (c, z) {
                (Some(c), Some(z)) => c@ == z,
                (None, None) => true,
                _ => false,
            },
            (Err(n), Err(m)) => n == m,
            _ => false,
        },
{
    let n = input.unicode_len();
    let mut found: Vec<usize> = Vec::new();
    let mut i: usize = 0;
    while i < n
        invariant
            n == input@.len(),
            i <= n,
            found@.len() <= 3,
            found@.len() < 3 ==> found@.map_values(|x: usize| x as int) == commas(input@.subrange(0, i as int)),
            found@.len() == 3 ==> commas(input@.subrange(0, i as int)).len() >= 3,
        decreases n - i,
    {
        proof {
            let t = input@.subrange(0, i as int + 1);
            assert(t.drop_last() =~= input@.subrange(0, i as int));
            lemma_commas_bounds(input@.subrange(0, i as int));
        }
        if found.len() < 3 && input.get_char(i) == ',' {
            found.push(i);
            proof {
                assert(found@.map_values(|x: usize| x as int) =~= commas(input@.subrange(0, i as int)).push(i as int));
            }
        }
        i = i + 1;
    }
    proof {
        assert(input@.subrange(0, n as int) =~= input@);
        lemma_commas_bounds(input@);
    }
    if found.len() == 2 {
        let a = input.substring_char(0, found[0]).to_owned();
        let b = input.substring_char(found[0] + 1, found[1]).to_owned();
        let c = input.substring_char(found[1] + 1, n).to_owned();
        Ok((a, b, Some(c)))
    } else if found.len() == 1 {
        let a = input.substring_char(0, found[0]).to_owned();
        let b = input.substring_char(found[0] + 1, n).to_owned();
        Ok((a, b, None))
    } else if found.len() == 0 {
        Err(0)
    } else {
        // three commas or more: count them all
        let mut count: usize = 0;
        let mut j: usize = 0;
        while j < n
            invariant
                n == input@.len(),
                j <= n,
                count == commas(input@.subrange(0, j as int)).len(),
                count <= j,
            decreases n - j,
        {
            proof {
                let t = input@.subrange(0, j as int + 1);
                assert(t.drop_last() =~= input@.subrange(0, j as int));
                lemma_commas_bounds(input@.subrange(0, j as int));
            }
            if input.get_char(j) == ',' {
                count = count + 1;
            }
            j = j + 1;
        }
        Err(count)
    }
}

pub open spec fn new_event_spec(
    id: i32,
    channel: String,
    message: Option<String>,
    notify_at: Option<i64>,
    now: i64,
    interval: Option<String>,
) -> Result<Event, CommandError> {
    match message {
        None => Err(CommandError::MissingReplyText),
        Some(message) => match notify_at {
            None => Err(CommandError::InvalidDate),
            Some(at) => if at < now {
                Err(CommandError::PastDueTime)
            } else {
                match interval {
                    Some(text) => match parse_interval_spec(text@) {
                        Err(e) => Err(CommandError::InvalidInterval(e)),
                        Ok(_) => Ok(Event { id, channel, message, notify_at: at, interval: Some(text) }),
                    },
                    None => Ok(Event { id, channel, message, notify_at: at, interval: None }),
                }
            },
        },
    }
}

/// Builds the event of a schedule command, or says why it is refused: the text
/// of the replied-to message is required, the date must have been read and not
/// lie in the past (`now`), and an interval must be a strictly positive
/// duration. `notify_at` and `now` are UTC milliseconds since the Unix epoch.
pub fn new_event(
    id: i32,
    channel: String,
    message: Option<String>,
    notify_at: Option<i64>,
    now: i64,
    interval: Option<String>,
) -> (r: Result<Event, CommandError>)
    ensures
        r == new_event_spec(id, channel, message, notify_at, now, interval),
{
    match message {
        None => Err(CommandError::MissingReplyText),
        Some(message) => match notify_at {
            None => Err(CommandError::InvalidDate),
            Some(at) => {
                if at < now {
                    Err(CommandError::PastDueTime)
                } else {
                    match interval {
                        Some(text) => match parse_interval(text.as_str()) {
                            Err(e) => Err(CommandError::InvalidInterval(e)),
                            Ok(_) => Ok(Event { id, channel, message, notify_at: at, interval: Some(text) }),
                        },
                        None => Ok(Event { id, channel, message, notify_at: at, interval: None }),
                    }
                }
            },
        },
    }
}

} // verus!
