use expense_tracker::{Date, Entry, EntryManager, EntryType, Filter, NewEntry, Timestamp};

fn date(year: i32, month: u32, day: u32) -> Date {
    Date { year, month, day }
}

fn entry(id: &str, secs: i64, amount: u32, entry_type: EntryType, d: Date) -> Entry {
    Entry {
        id: id.to_string(),
        created_at: Timestamp { secs, nanos: 0 },
        amount,
        entry_type,
        date: d,
        description: format!("entry {}", id),
    }
}

fn ids(v: &[Entry]) -> Vec<String> {
    v.iter().map(|e| e.id.clone()).collect()
}

#[test]
fn added_entry_is_listed_without_filter() {
    let mut m = EntryManager::new();
    let e = entry("a1", 10, 25, EntryType::Income, date(2024, 2, 3));
    assert!(m.add_entry(e.clone()));
    m.add_entry(entry("b2", 11, 5, EntryType::Expense, date(2023, 1, 1)));
    let shown = m.filtered_entries_at(date(2024, 6, 1));
    assert!(shown.iter().any(|x| *x == e));
}

#[test]
fn second_removal_fails() {
    let mut m = EntryManager::new();
    m.add_entry(entry("x", 1, 1, EntryType::Income, date(2024, 1, 1)));
    m.add_entry(entry("y", 2, 2, EntryType::Income, date(2024, 1, 2)));
    assert!(m.remove_entry_by_id("x".to_string()));
    assert_eq!(ids(&m.entries), vec!["y".to_string()]);
    assert!(!m.remove_entry_by_id("x".to_string()));
    assert_eq!(ids(&m.entries), vec!["y".to_string()]);
}

#[test]
fn removal_of_unknown_id_changes_nothing() {
    let mut m = EntryManager::new();
    m.add_entry(entry("x", 1, 1, EntryType::Income, date(2024, 1, 1)));
    assert!(!m.remove_entry_by_id("nope".to_string()));
    assert_eq!(m.entries.len(), 1);
}

#[test]
fn total_is_income_less_expenses_under_each_filter() {
    let mut m = EntryManager::new();
    m.add_entry(entry("a", 1, 70, EntryType::Income, date(2024, 4, 2)));
    m.add_entry(entry("b", 2, 30, EntryType::Expense, date(2024, 3, 9)));
    m.add_entry(entry("c", 3, 500, EntryType::Expense, date(2023, 11, 9)));
    let today = date(2024, 4, 20);
    for f in [Filter::NoFilter, Filter::ThisMonth, Filter::ThisYear, Filter::LastYear, Filter::LastMonth] {
        m.set_filter(f);
        let t = m.total_at(today);
        assert_eq!(t, m.total_income_at(today) as i128 - m.total_expenses_at(today) as i128);
    }
    m.set_filter(Filter::NoFilter);
    assert_eq!(m.total_at(today), -460);
}

#[test]
fn later_record_of_same_date_sorts_first() {
    let mut m = EntryManager::new();
    let a = entry("A", 100, 1, EntryType::Income, date(2024, 1, 10));
    let b = entry("B", 200, 1, EntryType::Income, date(2024, 1, 10));
    m.entries.push(a);
    m.entries.push(b);
    m.sort();
    assert_eq!(ids(&m.entries), vec!["B".to_string(), "A".to_string()]);
}

#[test]
fn sort_puts_later_dates_first() {
    let mut m = EntryManager::new();
    m.add_entry(entry("old", 5, 1, EntryType::Income, date(2023, 12, 31)));
    m.add_entry(entry("new", 1, 1, EntryType::Income, date(2024, 1, 1)));
    m.add_entry(entry("mid", 9, 1, EntryType::Income, date(2023, 12, 31)));
    assert_eq!(ids(&m.entries), vec!["new".to_string(), "mid".to_string(), "old".to_string()]);
}

#[test]
fn this_month_and_last_month_filters() {
    let mut m = EntryManager::new();
    m.add_entry(entry("march", 1, 10, EntryType::Income, date(2024, 3, 15)));
    m.add_entry(entry("april", 2, 20, EntryType::Income, date(2024, 4, 15)));
    let now = date(2024, 4, 20);
    m.set_filter(Filter::ThisMonth);
    assert_eq!(ids(&m.filtered_entries_at(now)), vec!["april".to_string()]);
    m.set_filter(Filter::LastMonth);
    assert_eq!(ids(&m.filtered_entries_at(now)), vec!["march".to_string()]);
}

#[test]
fn last_month_in_january_is_december_of_any_year() {
    let mut m = EntryManager::new();
    m.add_entry(entry("d23", 1, 1, EntryType::Income, date(2023, 12, 5)));
    m.add_entry(entry("d20", 2, 1, EntryType::Income, date(2020, 12, 5)));
    m.add_entry(entry("j24", 3, 1, EntryType::Income, date(2024, 1, 5)));
    m.set_filter(Filter::LastMonth);
    assert_eq!(ids(&m.filtered_entries_at(date(2024, 1, 20))), vec!["d23".to_string(), "d20".to_string()]);
}

#[test]
fn this_year_and_last_year_filters() {
    let mut m = EntryManager::new();
    m.add_entry(entry("y24", 1, 1, EntryType::Income, date(2024, 2, 1)));
    m.add_entry(entry("y23", 2, 1, EntryType::Income, date(2023, 7, 1)));
    m.add_entry(entry("y22", 3, 1, EntryType::Income, date(2022, 7, 1)));
    let now = date(2024, 6, 1);
    m.set_filter(Filter::ThisYear);
    assert_eq!(ids(&m.filtered_entries_at(now)), vec!["y24".to_string()]);
    m.set_filter(Filter::LastYear);
    assert_eq!(ids(&m.filtered_entries_at(now)), vec!["y23".to_string()]);
}

#[test]
fn totals_scenario() {
    let mut m = EntryManager::default();
    let now = date(2024, 6, 1);
    assert_eq!(m.filter, Filter::NoFilter);
    assert_eq!(m.total_at(now), 0);
    m.add_entry(entry("inc", 1, 100, EntryType::Income, date(2024, 1, 1)));
    assert_eq!(m.total_income_at(now), 100);
    assert_eq!(m.total_at(now), 100);
    m.add_entry(entry("exp", 2, 40, EntryType::Expense, date(2024, 1, 1)));
    assert_eq!(m.total_expenses_at(now), 40);
    assert_eq!(m.total_at(now), 60);
    m.set_filter(Filter::ThisYear);
    assert_eq!(m.total_at(now), 60);
    m.set_filter(Filter::LastYear);
    assert!(m.filtered_entries_at(now).is_empty());
    assert_eq!(m.total_income_at(now), 0);
    assert_eq!(m.total_expenses_at(now), 0);
    assert_eq!(m.total_at(now), 0);
}

#[test]
fn totals_of_today_without_filter() {
    let mut m = EntryManager::new();
    m.add_entry(entry("i", 1, 7, EntryType::Income, date(1999, 1, 1)));
    m.add_entry(entry("e", 2, 3, EntryType::Expense, date(2001, 5, 1)));
    assert_eq!(m.total_income(), 7);
    assert_eq!(m.total_expenses(), 3);
    assert_eq!(m.total(), 4);
    assert_eq!(m.filtered_entries().len(), 2);
}

#[test]
fn largest_amounts_do_not_overflow() {
    let mut m = EntryManager::new();
    m.add_entry(entry("a", 1, u32::MAX, EntryType::Income, date(2024, 1, 1)));
    m.add_entry(entry("b", 2, u32::MAX, EntryType::Income, date(2024, 1, 1)));
    m.add_entry(entry("c", 3, u32::MAX, EntryType::Expense, date(2024, 1, 1)));
    let now = date(2024, 1, 1);
    assert_eq!(m.total_income_at(now), 2 * u32::MAX as u128);
    assert_eq!(m.total_at(now), u32::MAX as i128);
}

#[test]
fn filter_defaults_to_none() {
    assert_eq!(Filter::default(), Filter::NoFilter);
    let d = date(2024, 5, 5);
    assert!(Filter::NoFilter.accepts(&date(1, 1, 1), &d));
    assert!(!Filter::ThisMonth.accepts(&date(2023, 5, 5), &d));
}

#[test]
fn created_entry_keeps_draft_fields() {
    let draft = NewEntry {
        amount: 42,
        entry_type: EntryType::Income,
        description: "salary".to_string(),
        date: date(2024, 2, 29),
    };
    let e = Entry::create(draft.clone());
    let f = Entry::create(draft);
    assert_eq!(e.id.chars().count(), 21);
    assert_ne!(e.id, f.id);
    assert_eq!(e.amount, 42);
    assert_eq!(e.entry_type, EntryType::Income);
    assert_eq!(e.description, "salary");
    assert_eq!(e.date, date(2024, 2, 29));
    assert!(e.created_at.secs > 1_600_000_000);
}

#[test]
fn draft_resets_to_blank() {
    let mut d = NewEntry {
        amount: 9,
        entry_type: EntryType::Income,
        description: "x".to_string(),
        date: date(2000, 1, 1),
    };
    d.reset();
    assert_eq!(d.amount, 0);
    assert_eq!(d.entry_type, EntryType::Expense);
    assert!(d.description.is_empty());
    assert!(d.date.month >= 1 && d.date.month <= 12);
    assert!(d.date.year > 2000);
}
