//! Personal finance tracking: income and expense entries, time-window
//! filters over them, and the totals of what a filter lets through.

mod calendar;
mod clock;
mod entry;
mod manager;
mod table;

pub use calendar::{Date, Timestamp};
pub use entry::{Entry, EntryType, NewEntry};
pub use manager::{EntryManager, Filter};
pub use table::EntriesTableBuilder;
