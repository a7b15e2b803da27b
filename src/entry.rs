use crate::calendar::{Date, Timestamp};
use crate::clock::{fresh_id, local_today, utc_now};
use vstd::prelude::*;

verus! {

/// Whether an entry takes money out or brings it in.
#[derive(Clone, Copy, Debug, PartialEq, Eq, Structural)]
pub enum EntryType {
    Expense,
    Income,
}

impl EntryType {
    /// The variant's name, as shown to a user.
    pub fn label(&self) -> (r: String)
        ensures
            r@ == (match *self {
                EntryType::Expense => "Expense"@,
                EntryType::Income => "Income"@,
            }),
    {
        match self {
            EntryType::Expense => String::from_str("Expense"),
            EntryType::Income => String::from_str("Income"),
        }
    }
}

impl Default for EntryType {
    fn default() -> (r: Self)
        ensures
            r == EntryType::Expense,
    {
        EntryType::Expense
    }
}

/// One recorded transaction. The amount is in whole currency units.
#[derive(Clone, Debug)]
pub struct Entry {
    pub id: String,
    pub created_at: Timestamp,
    pub amount: u32,
    pub entry_type: EntryType,
    pub date: Date,
    pub description: String,
}

impl PartialEq for Entry {
    fn eq(&self, o: &Entry) -> (r: bool) {
        self.id == o.id && self.created_at == o.created_at && self.amount == o.amount
            && self.entry_type == o.entry_type && self.date == o.date && self.description
            == o.description
    }
}

impl vstd::std_specs::cmp::PartialEqSpecImpl for Entry {
    open spec fn obeys_eq_spec() -> bool {
        true
    }

    open spec fn eq_spec(&self, o: &Entry) -> bool {
        self.id@ == o.id@ && self.created_at == o.created_at && self.amount == o.amount
            && self.entry_type == o.entry_type && self.date == o.date && self.description@
            == o.description@
    }
}

impl Entry {
    /// An entry made of a draft, with the identity and creation time given.
    pub fn from_draft(draft: NewEntry, id: String, created_at: Timestamp) -> (r: Entry)
        ensures
            r.id == id,
            r.created_at == created_at,
            r.amount == draft.amount,
            r.entry_type == draft.entry_type,
            r.date == draft.date,
            r.description == draft.description,
    {
        Entry {
            id,
            created_at,
            amount: draft.amount,
            entry_type: draft.entry_type,
            date: draft.date,
            description: draft.description,
        }
    }

    /// Commits a draft: the entry gets a fresh random identifier and the
    /// current instant as its creation time, and keeps the draft's fields.
    pub fn create(draft: NewEntry) -> (r: Entry)
        ensures
            r.id@.len() == 21,
            r.amount == draft.amount,
            r.entry_type == draft.entry_type,
            r.date == draft.date,
            r.description == draft.description,
    {
        let id = fresh_id();
        let created_at = utc_now();
        Entry::from_draft(draft, id, created_at)
    }

    /// A copy equal to `self` in every field.
    pub fn duplicate(&self) -> (r: Entry)
        ensures
            r == *self,
    {
        Entry {
            id: self.id.clone(),
            created_at: self.created_at,
            amount: self.amount,
            entry_type: self.entry_type,
            date: self.date,
            description: self.description.clone(),
        }
    }
}

/// A transaction being composed, not yet recorded.
#[derive(Clone, Debug)]
pub struct NewEntry {
    pub amount: u32,
    pub entry_type: EntryType,
    pub description: String,
    pub date: Date,
}

impl NewEntry {
    /// The blank draft dated `today`.
    pub open spec fn blank(self, today: Date) -> bool {
        self.amount == 0 && self.entry_type == EntryType::Expense && self.description@.len() == 0
            && self.date == today
    }

    /// A blank draft dated `today`.
    pub fn dated(today: Date) -> (r: NewEntry)
        ensures
            r.blank(today),
    {
        NewEntry {
            amount: 0,
            entry_type: EntryType::Expense,
            description: String::new(),
            date: today,
        }
    }

    /// Puts the draft back to a blank one dated today.
    pub fn reset(&mut self)
        ensures
            final(self).amount == 0,
            final(self).entry_type == EntryType::Expense,
            final(self).description@.len() == 0,
            final(self).date.wf(),
    {
        *self = NewEntry::default();
    }
}

impl Default for NewEntry {
    /// A blank draft dated today in the local time zone.
    fn default() -> (r: Self)
        ensures
            r.amount == 0,
            r.entry_type == EntryType::Expense,
            r.description@.len() == 0,
            r.date.wf(),
    {
        NewEntry::dated(local_today())
    }
}

} // verus!
