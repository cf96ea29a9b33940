use vstd::prelude::*;

/// Chat commands: argument splitting and validation of a schedule request.
pub mod bot;
/// Stored records, the change feed of the triggers, and the subscription registry.
pub mod events_db;
/// Repeat intervals: parsing, validation, and the next due time.
pub mod interval;
/// The dispatcher that handles fired triggers.
pub mod notifier;
/// Time zone preferences.
pub mod timezone;

verus! {

} // verus!
