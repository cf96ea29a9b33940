use vstd::prelude::*;

use crate::bot::CommandError;

verus! {

/// Whether `chrono_tz` knows a zone of this name.
pub uninterp spec fn is_zone_name(s: Seq<char>) -> bool;

/// Relies on `<chrono_tz::Tz as FromStr>::from_str`: an exact lookup of the
/// name in the zone database compiled into the crate.
#[verifier::external_body]
fn known_zone(s: &str) -> (r: bool)
    ensures
        r == is_zone_name(s@),
{
    s.parse::<chrono_tz::Tz>().is_ok()
}

/// The zone used where a chat has chosen none.
pub const DEFAULT_TIMEZONE: &'static str = "Europe/Kiev";

pub open spec fn checked_timezone_spec(name: String, known: bool) -> Result<String, CommandError> {
    if known {
        Ok(name)
    } else {
        Err(CommandError::InvalidTimezone(name))
    }
}

/// Accepts a zone name that the zone database knows (`known`), or refuses it
/// and echoes it back.
pub fn checked_timezone(name: String, known: bool) -> (r: Result<String, CommandError>)
    ensures
        r == checked_timezone_spec(name, known),
{
    if known {
        Ok(name)
    } else {
        Err(CommandError::InvalidTimezone(name))
    }
}

/// Validates a zone name before it is stored as a chat's preference.
pub fn check_timezone(name: String) -> (r: Result<String, CommandError>)
    ensures
        r == checked_timezone_spec(name, is_zone_name(name@)),
{
    let known = known_zone(name.as_str());
    checked_timezone(name, known)
}

pub open spec fn resolved_timezone_spec(stored: Option<String>, known: bool) -> Seq<char> {
    match stored {
        Some(name) => if known {
            name@
        } else {
            DEFAULT_TIMEZONE@
        },
        None => DEFAULT_TIMEZONE@,
    }
}

/// The zone in which a chat's dates are read: its stored preference where the
/// zone database knows it (`known`), else the default zone.
pub fn resolved_timezone(stored: Option<String>, known: bool) -> (r: String)
    ensures
        r@ == resolved_timezone_spec(stored, known),
{
    match stored {
        Some(name) => {
            if known {
                name
            } else {
                DEFAULT_TIMEZONE.to_owned()
            }
        },
        None => DEFAULT_TIMEZONE.to_owned(),
    }
}

/// The zone in which a chat's dates are read, from its stored preference.
pub fn resolve_timezone(stored: Option<String>) -> (r: String)
    ensures
        r@ == resolved_timezone_spec(
            stored,
            match stored {
                Some(name) => is_zone_name(name@),
                None => false,
            },
        ),
{
    let known = match &stored {
        Some(name) => known_zone(name.as_str()),
        None => false,
    };
    resolved_timezone(stored, known)
}

} // verus!
