use crate::calendar::Date;
use crate::clock::local_today;
use crate::entry::{Entry, EntryType};
use vstd::multiset::Multiset;
use vstd::prelude::*;

verus! {

broadcast use vstd::seq_lib::group_to_multiset_ensures;

/// Which entries are visible and counted, relative to today's date.
#[derive(Clone, Copy, Debug, PartialEq, Eq, Structural)]
pub enum Filter {
    NoFilter,
    ThisMonth,
    ThisYear,
    LastYear,
    /// The month of the year before today's, in any year.
    LastMonth,
}

/// The month of the year that comes before `m` (December before January).
pub open spec fn month_before(m: u32) -> u32 {
    if m <= 1 {
        12
    } else {
        (m - 1) as u32
    }
}

impl Filter {
    /// Whether an entry dated `d` passes the filter on the day `today`.
    pub open spec fn admits(self, d: Date, today: Date) -> bool {
        match self {
            Filter::NoFilter => true,
            Filter::ThisMonth => d.year == today.year && d.month == today.month,
            Filter::ThisYear => d.year == today.year,
            Filter::LastYear => d.year == today.year - 1,
            Filter::LastMonth => d.month == month_before(today.month),
        }
    }

    pub fn accepts(&self, d: &Date, today: &Date) -> (r: bool)
        ensures
            r == self.admits(*d, *today),
    {
        match self {
            Filter::NoFilter => true,
            Filter::ThisMonth => d.year == today.year && d.month == today.month,
            Filter::ThisYear => d.year == today.year,
            Filter::LastYear => d.year as i64 == today.year as i64 - 1,
            Filter::LastMonth => {
                let prev: u32 = if today.month <= 1 {
                    12
                } else {
                    today.month - 1
                };
                d.month == prev
            },
        }
    }
}

impl Default for Filter {
    fn default() -> (r: Self)
        ensures
            r == Filter::NoFilter,
    {
        Filter::NoFilter
    }
}

/// The entries of `s` that `f` admits on the day `today`, in their order.
pub open spec fn visible(s: Seq<Entry>, f: Filter, today: Date) -> Seq<Entry>
    decreases s.len(),
{
    if s.len() == 0 {
        Seq::empty()
    } else {
        let rest = visible(s.drop_last(), f, today);
        if f.admits(s.last().date, today) {
            rest.push(s.last())
        } else {
            rest
        }
    }
}

/// The sum of the amounts of the entries of `s` of type `t`.
pub open spec fn amount_sum(s: Seq<Entry>, t: EntryType) -> int
    decreases s.len(),
{
    if s.len() == 0 {
        0
    } else {
        amount_sum(s.drop_last(), t) + if s.last().entry_type == t {
            s.last().amount as int
        } else {
            0
        }
    }
}

/// The net amount of `s`: each income counted up, each expense down.
pub open spec fn balance(s: Seq<Entry>) -> int
    decreases s.len(),
{
    if s.len() == 0 {
        0
    } else {
        balance(s.drop_last()) + match s.last().entry_type {
            EntryType::Income => s.last().amount as int,
            EntryType::Expense => -(s.last().amount as int),
        }
    }
}

/// `a` may be shown before `b`: its date is later, or the dates are equal
/// and it was not recorded earlier.
pub open spec fn shows_before(a: Entry, b: Entry) -> bool {
    a.date.spec_after(b.date) || (a.date == b.date && !b.created_at.spec_after(a.created_at))
}

/// `s` is in display order.
pub open spec fn in_display_order(s: Seq<Entry>) -> bool {
    forall|i: int, j: int| 0 <= i < j < s.len() ==> shows_before(s[i], s[j])
}

/// Some entry of `s` has the identifier `id`.
pub open spec fn holds_id(s: Seq<Entry>, id: Seq<char>) -> bool {
    exists|i: int| 0 <= i < s.len() && s[i].id@ == id
}

/// No two entries of `s` share an identifier.
pub open spec fn ids_unique(s: Seq<Entry>) -> bool {
    forall|i: int, j: int| 0 <= i < s.len() && 0 <= j < s.len() && i != j ==> s[i].id@ != s[j].id@
}

proof fn lemma_shows_before_total(a: Entry, b: Entry)
    ensures
        shows_before(a, b) || shows_before(b, a),
{
}

proof fn lemma_shows_before_transitive(a: Entry, b: Entry, c: Entry)
    requires
        shows_before(a, b),
        shows_before(b, c),
    ensures
        shows_before(a, c),
{
}

proof fn lemma_amount_sum_bound(s: Seq<Entry>, t: EntryType)
    ensures
        0 <= amount_sum(s, t) <= s.len() * 0xffff_ffff,
    decreases s.len(),
{
    if s.len() > 0 {
        lemma_amount_sum_bound(s.drop_last(), t);
    }
}

/// Owns the recorded entries, kept in display order, and the active filter.
pub struct EntryManager {
    pub entries: Vec<Entry>,
    pub filter: Filter,
}

impl EntryManager {
    /// The entries are in display order.
    pub open spec fn wf(self) -> bool {
        in_display_order(self.entries@)
    }

    /// An empty manager with no filter.
    pub fn new() -> (r: EntryManager)
        ensures
            r.entries@.len() == 0,
            r.filter == Filter::NoFilter,
            r.wf(),
    {
        EntryManager { entries: Vec::new(), filter: Filter::NoFilter }
    }

    /// Selects the filter that views and totals go by.
    pub fn set_filter(&mut self, filter: Filter)
        ensures
            final(self).filter == filter,
            final(self).entries == old(self).entries,
    {
        self.filter = filter;
    }

    /// Places `e` into the display-ordered `v`, after every entry that may
    /// be shown before it.
    fn insert_in_order(v: &mut Vec<Entry>, e: Entry)
        requires
            in_display_order(old(v)@),
        ensures
            in_display_order(final(v)@),
            final(v)@.to_multiset() == old(v)@.to_multiset().insert(e),
    {
        let n = v.len();
        let mut k: usize = 0;
        while k < n && shows_before_exec(&v[k], &e)
            invariant
                n == v@.len(),
                k <= n,
                in_display_order(v@),
                forall|i: int| 0 <= i < k ==> shows_before(v@[i], e),
            decreases n - k,
        {
            k = k + 1;
        }
        proof {
            if k < n {
                lemma_shows_before_total(v@[k as int], e);
            }
        }
        let ghost s = v@;
        v.insert(k, e);
        proof {
            let t = v@;
            assert(t.remove(k as int) =~= s);
            assert(t[k as int] == e);
            assert(t.to_multiset() =~= s.to_multiset().insert(e));
            assert forall|i: int, j: int| 0 <= i < j < t.len() implies shows_before(
                t[i],
                t[j],
            ) by {
                if i == k && k < j {
                    lemma_shows_before_transitive(e, s[k as int], s[j - 1]);
                }
            }
        }
    }

    /// Puts the entries in display order: later dates first, and among
    /// entries of one date the most recently recorded first.
    pub fn sort(&mut self)
        ensures
            final(self).wf(),
            final(self).entries@.to_multiset() == old(self).entries@.to_multiset(),
            final(self).filter == old(self).filter,
    {
        let mut pending: Vec<Entry> = Vec::new();
        std::mem::swap(&mut pending, &mut self.entries);
        let ghost whole = pending@;
        while pending.len() > 0
            invariant
                in_display_order(self.entries@),
                self.entries@.to_multiset().add(pending@.to_multiset()) == whole.to_multiset(),
                self.filter == old(self).filter,
            decreases pending.len(),
        {
            let ghost before = pending@;
            let e = pending.pop().unwrap();
            proof {
                assert(before =~= pending@.push(e));
                assert(before.to_multiset() =~= pending@.to_multiset().insert(e));
            }
            let ghost done = self.entries@;
            EntryManager::insert_in_order(&mut self.entries, e);
            proof {
                assert(self.entries@.to_multiset().add(pending@.to_multiset()) =~= done.to_multiset().add(before.to_multiset()));
                assert(self.entries@.to_multiset().add(pending@.to_multiset())
                    =~= whole.to_multiset());
            }
        }
        proof {
            assert(pending@.to_multiset() =~= Multiset::empty());
            assert(self.entries@.to_multiset() =~= whole.to_multiset());
        }
    }
    /// Records `entry` and puts the collection back in display order.
    /// Always succeeds.
    pub fn add_entry(&mut self, entry: Entry) -> (r: bool)
        ensures
            r,
            final(self).wf(),
            final(self).entries@.to_multiset() == old(self).entries@.to_multiset().insert(entry),
            final(self).filter == old(self).filter,
    {
        let ghost e = entry;
        self.entries.push(entry);
        proof {
            assert(self.entries@.to_multiset() =~= old(self).entries@.to_multiset().insert(e));
        }
        self.sort();
        true
    }

    /// Removes the first entry whose identifier is `id`; returns whether
    /// there was one. Without one nothing changes.
    pub fn remove_entry_by_id(&mut self, id: String) -> (r: bool)
        ensures
            r == holds_id(old(self).entries@, id@),
            r ==> exists|k: int|
                0 <= k < old(self).entries@.len() && old(self).entries@[k].id@ == id@ && (forall|
                    j: int,
                | 0 <= j < k ==> old(self).entries@[j].id@ != id@) && final(self).entries@
                    == old(self).entries@.remove(k),
            !r ==> final(self).entries@ == old(self).entries@,
            final(self).filter == old(self).filter,
            old(self).wf() ==> final(self).wf(),
    {
        let n = self.entries.len();
        let mut i: usize = 0;
        while i < n
            invariant
                n == self.entries@.len(),
                i <= n,
                self.entries == old(self).entries,
                self.filter == old(self).filter,
                forall|j: int| 0 <= j < i ==> self.entries@[j].id@ != id@,
            decreases n - i,
        {
            if self.entries[i].id == id {
                let ghost s = self.entries@;
                self.entries.remove(i);
                proof {
                    let t = self.entries@;
                    assert(old(self).wf() ==> in_display_order(t)) by {
                        if old(self).wf() {
                            assert forall|a: int, b: int| 0 <= a < b < t.len() implies shows_before(
                                t[a],
                                t[b],
                            ) by {
                                let a2 = if a < i {
                                    a
                                } else {
                                    a + 1
                                };
                                let b2 = if b < i {
                                    b
                                } else {
                                    b + 1
                                };
                                assert(t[a] == s[a2] && t[b] == s[b2]);
                            }
                        }
                    }
                }
                return true;
            }
            i = i + 1;
        }
        false
    }

    /// The entries that the active filter admits on the day `today`, in
    /// display order.
    pub fn filtered_entries_at(&self, today: Date) -> (r: Vec<Entry>)
        ensures
            r@ == visible(self.entries@, self.filter, today),
    {
        let mut out: Vec<Entry> = Vec::new();
        let n = self.entries.len();
        let mut i: usize = 0;
        while i < n
            invariant
                n == self.entries@.len(),
                i <= n,
                out@ == visible(self.entries@.subrange(0, i as int), self.filter, today),
            decreases n - i,
        {
            let ghost prefix = self.entries@.subrange(0, i as int);
            let e = &self.entries[i];
            if self.filter.accepts(&e.date, &today) {
                out.push(e.duplicate());
            }
            proof {
                assert(self.entries@.subrange(0, i + 1).drop_last() =~= prefix);
            }
            i = i + 1;
        }
        proof {
            assert(self.entries@.subrange(0, n as int) =~= self.entries@);
        }
        out
    }

    /// The entries that the active filter admits today, in display order.
    pub fn filtered_entries(&self) -> (r: Vec<Entry>)
        ensures
            exists|today: Date| today.wf() && r@ == visible(self.entries@, self.filter, today),
    {
        let today = local_today();
        self.filtered_entries_at(today)
    }

    /// The sum of the amounts of income entries that the filter admits on
    /// the day `today`.
    pub fn total_income_at(&self, today: Date) -> (r: u128)
        ensures
            r == amount_sum(visible(self.entries@, self.filter, today), EntryType::Income),
            r <= 0xffff_ffff_ffff_ffff * 0xffff_ffff,
    {
        sum_of_type(&self.filtered_entries_at(today), EntryType::Income)
    }

    /// The sum of the amounts of expense entries that the filter admits on
    /// the day `today`.
    pub fn total_expenses_at(&self, today: Date) -> (r: u128)
        ensures
            r == amount_sum(visible(self.entries@, self.filter, today), EntryType::Expense),
            r <= 0xffff_ffff_ffff_ffff * 0xffff_ffff,
    {
        sum_of_type(&self.filtered_entries_at(today), EntryType::Expense)
    }

    /// Income less expenses, over the entries that the filter admits on the
    /// day `today`.
    pub fn total_at(&self, today: Date) -> (r: i128)
        ensures
            r == balance(visible(self.entries@, self.filter, today)),
    {
        let income = self.total_income_at(today);
        let expenses = self.total_expenses_at(today);
        proof {
            lemma_balance_splits(visible(self.entries@, self.filter, today));
        }
        income as i128 - expenses as i128
    }

    /// The sum of the amounts of income entries that the filter admits
    /// today.
    pub fn total_income(&self) -> (r: u128)
        ensures
            exists|today: Date|
                today.wf() && r == amount_sum(
                    visible(self.entries@, self.filter, today),
                    EntryType::Income,
                ),
    {
        let today = local_today();
        self.total_income_at(today)
    }

    /// The sum of the amounts of expense entries that the filter admits
    /// today.
    pub fn total_expenses(&self) -> (r: u128)
        ensures
            exists|today: Date|
                today.wf() && r == amount_sum(
                    visible(self.entries@, self.filter, today),
                    EntryType::Expense,
                ),
    {
        let today = local_today();
        self.total_expenses_at(today)
    }

    /// Income less expenses, over the entries that the filter admits today.
    pub fn total(&self) -> (r: i128)
        ensures
            exists|today: Date| today.wf() && r == balance(visible(self.entries@, self.filter, today)),
    {
        let today = local_today();
        self.total_at(today)
    }
}

impl Default for EntryManager {
    fn default() -> (r: Self)
        ensures
            r.entries@.len() == 0,
            r.filter == Filter::NoFilter,
            r.wf(),
    {
        EntryManager::new()
    }
}

/// The sum of the amounts of the entries of `v` of type `t`.
fn sum_of_type(v: &Vec<Entry>, t: EntryType) -> (r: u128)
    ensures
        r == amount_sum(v@, t),
        r <= 0xffff_ffff_ffff_ffff * 0xffff_ffff,
{
    let n = v.len();
    let mut acc: u128 = 0;
    let mut i: usize = 0;
    while i < n
        invariant
            n == v@.len(),
            i <= n,
            acc == amount_sum(v@.subrange(0, i as int), t),
            acc <= i * 0xffff_ffff,
        decreases n - i,
    {
        let ghost prefix = v@.subrange(0, i as int);
        proof {
            assert(v@.subrange(0, i + 1).drop_last() =~= prefix);
        }
        if v[i].entry_type == t {
            acc = acc + v[i].amount as u128;
        }
        i = i + 1;
    }
    proof {
        assert(v@.subrange(0, n as int) =~= v@);
    }
    acc
}

/// The net amount of a sequence of entries is its income less its
/// expenses.
pub proof fn lemma_balance_splits(s: Seq<Entry>)
    ensures
        balance(s) == amount_sum(s, EntryType::Income) - amount_sum(s, EntryType::Expense),
    decreases s.len(),
{
    if s.len() > 0 {
        lemma_balance_splits(s.drop_last());
    }
}

/// For every collection, filter and day, the total is the income total
/// less the expense total.
pub proof fn lemma_total_is_income_less_expenses(m: EntryManager, today: Date)
    ensures
        balance(visible(m.entries@, m.filter, today)) == amount_sum(
            visible(m.entries@, m.filter, today),
            EntryType::Income,
        ) - amount_sum(visible(m.entries@, m.filter, today), EntryType::Expense),
{
    lemma_balance_splits(visible(m.entries@, m.filter, today));
}

/// Without a filter every entry is visible, in order.
pub proof fn lemma_no_filter_shows_all(s: Seq<Entry>, today: Date)
    ensures
        visible(s, Filter::NoFilter, today) == s,
    decreases s.len(),
{
    if s.len() > 0 {
        lemma_no_filter_shows_all(s.drop_last(), today);
        assert(s.drop_last().push(s.last()) =~= s);
    }
}

/// An entry that has been added is among the entries shown without a
/// filter, with all its fields.
pub proof fn lemma_added_entry_is_shown(before: Seq<Entry>, after: Seq<Entry>, e: Entry, today: Date)
    requires
        after.to_multiset() == before.to_multiset().insert(e),
    ensures
        visible(after, Filter::NoFilter, today).contains(e),
{
    lemma_no_filter_shows_all(after, today);
    assert(after.to_multiset().count(e) > 0);
}

/// Where identifiers are unique, once the entry with `id` is removed no
/// entry with `id` is left, so a second removal finds nothing.
pub proof fn lemma_removed_id_is_gone(s: Seq<Entry>, k: int, id: Seq<char>)
    requires
        ids_unique(s),
        0 <= k < s.len(),
        s[k].id@ == id,
    ensures
        !holds_id(s.remove(k), id),
{
    let t = s.remove(k);
    assert forall|i: int| 0 <= i < t.len() implies t[i].id@ != id by {
        let i2 = if i < k {
            i
        } else {
            i + 1
        };
        assert(t[i] == s[i2]);
    }
}

/// In display order, of two entries of one date the one recorded later
/// comes first.
pub proof fn lemma_later_record_shown_first(s: Seq<Entry>, a: int, b: int)
    requires
        in_display_order(s),
        0 <= a < s.len(),
        0 <= b < s.len(),
        s[a].date == s[b].date,
        s[b].created_at.spec_after(s[a].created_at),
    ensures
        b < a,
{
    if a < b {
        assert(shows_before(s[a], s[b]));
    }
}


fn shows_before_exec(a: &Entry, b: &Entry) -> (r: bool)
    ensures
        r == shows_before(*a, *b),
{
    a.date.is_after(&b.date) || (a.date == b.date && !b.created_at.is_after(&a.created_at))
}

} // verus!
