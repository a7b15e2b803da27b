use crate::entry::EntryType;
use vstd::prelude::*;

verus! {

/// The table that lists entries, one row each.
pub struct EntriesTableBuilder;

impl EntriesTableBuilder {
    /// The sign shown in a row's first column: `-` for an expense, `+` for
    /// an income.
    pub fn row_symbol(entry_type: EntryType) -> (r: String)
        ensures
            r@ == (match entry_type {
                EntryType::Expense => "-"@,
                EntryType::Income => "+"@,
            }),
    {
        match entry_type {
            EntryType::Expense => String::from_str("-"),
            EntryType::Income => String::from_str("+"),
        }
    }
}

} // verus!
