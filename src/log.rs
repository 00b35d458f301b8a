use vstd::prelude::*;
use chrono::Datelike;
use crate::catalog::FoodCatalog;
use crate::goals::daily_target;
use crate::models::{ActivityLevel, UserProfile};
use crate::quantity::{add_saturating, mul_scaled, plus, scaled};
use crate::resolve::{resolve_spec, ResolveError};
use crate::models::FoodView;

verus! {

/// A calendar date of the proleptic Gregorian calendar.
#[derive(Debug, Clone, Copy, PartialEq, Eq, Structural)]
pub struct Date {
    pub year: i32,
    pub month: u32,
    pub day: u32,
}

/// A leap year of the proleptic Gregorian calendar.
pub open spec fn is_leap_year(year: int) -> bool {
    year % 4 == 0 && (year % 100 != 0 || year % 400 == 0)
}

/// Number of days of `month` in `year`.
pub open spec fn days_in_month(year: int, month: int) -> int {
    if month == 2 {
        if is_leap_year(year) {
            29
        } else {
            28
        }
    } else if month == 4 || month == 6 || month == 9 || month == 11 {
        30
    } else {
        31
    }
}

/// `year`-`month`-`day` is a day of the calendar, within the years chrono represents.
pub open spec fn is_calendar_day(year: int, month: int, day: int) -> bool {
    &&& -262143 <= year <= 262142
    &&& 1 <= month <= 12
    &&& 1 <= day <= days_in_month(year, month)
}

/// Relies on `chrono::NaiveDate::from_ymd_opt`: a date exactly for a day of the
/// proleptic Gregorian calendar in the years it represents.
#[verifier::external_body]
fn is_calendar_date(year: i32, month: u32, day: u32) -> (r: bool)
    ensures
        r == is_calendar_day(year as int, month as int, day as int),
{
    chrono::NaiveDate::from_ymd_opt(year, month, day).is_some()
}

/// The date, as year, month and day, that chrono reads from text in the form
/// `%Y-%m-%d`, if it reads one.
pub uninterp spec fn date_text_of(s: Seq<char>) -> Option<(i32, u32, u32)>;

/// Relies on `chrono::NaiveDate::parse_from_str` with the format `%Y-%m-%d`:
/// the result depends on the text alone, and a date it reads is a day of the
/// calendar in the years it represents.
#[verifier::external_body]
fn read_date_text(text: &str) -> (r: Option<(i32, u32, u32)>)
    ensures
        r == date_text_of(text@),
        r matches Some(t) ==> is_calendar_day(t.0 as int, t.1 as int, t.2 as int),
{
    chrono::NaiveDate::parse_from_str(text, "%Y-%m-%d").ok().map(|n| (n.year(), n.month(), n.day()))
}

impl Date {
    /// The date `year`-`month`-`day`, or `None` when the calendar has no such day.
    pub fn new(year: i32, month: u32, day: u32) -> (r: Option<Date>)
        ensures
            r is Some <==> is_calendar_day(year as int, month as int, day as int),
            r matches Some(d) ==> d == (Date { year, month, day }),
    {
        if is_calendar_date(year, month, day) {
            Some(Date { year, month, day })
        } else {
            None
        }
    }

    /// The date written `YYYY-MM-DD` in `text`, as chrono reads that form.
    pub fn parse(text: &str) -> (r: Option<Date>)
        ensures
            r == match date_text_of(text@) {
                Some(t) => Some(Date { year: t.0, month: t.1, day: t.2 }),
                None => None,
            },
            r matches Some(d) ==> is_calendar_day(d.year as int, d.month as int, d.day as int),
    {
        match read_date_text(text) {
            Some((year, month, day)) => Some(Date { year, month, day }),
            None => None,
        }
    }
}

/// One food eaten: the food's identifier, the servings in thousandths, and
/// when it was logged, in seconds since the Unix epoch.
#[derive(Debug)]
pub struct LogEntry {
    pub food_name: String,
    pub servings: u64,
    pub timestamp: Option<i64>,
}

/// A log entry as a mathematical value.
pub struct LogEntryView {
    pub food: Seq<char>,
    pub servings: nat,
    pub timestamp: Option<i64>,
}

impl View for LogEntry {
    type V = LogEntryView;

    open spec fn view(&self) -> LogEntryView {
        LogEntryView { food: self.food_name@, servings: self.servings as nat, timestamp: self.timestamp }
    }
}

impl Clone for LogEntry {
    fn clone(&self) -> (r: Self)
        ensures
            r@ == self@,
    {
        LogEntry { food_name: self.food_name.clone(), servings: self.servings, timestamp: self.timestamp }
    }
}

impl LogEntry {
    /// An entry for `servings` of `food_name`, logged at `timestamp`.
    pub fn new(food_name: String, servings: u64, timestamp: i64) -> (r: LogEntry)
        ensures
            r.food_name@ == food_name@,
            r.servings == servings,
            r.timestamp == Some(timestamp),
    {
        LogEntry { food_name, servings, timestamp: Some(timestamp) }
    }
}

/// The mathematical value of each entry of a list.
pub open spec fn entries_view(v: Seq<LogEntry>) -> Seq<LogEntryView> {
    v.map_values(|e: LogEntry| e@)
}

/// Copies a list of entries, keeping every element.
pub fn copy_entries(v: &Vec<LogEntry>) -> (r: Vec<LogEntry>)
    ensures
        entries_view(r@) == entries_view(v@),
{
    let mut r: Vec<LogEntry> = Vec::new();
    let mut i: usize = 0;
    while i < v.len()
        invariant
            i <= v.len(),
            r.len() == i,
            forall|j: int| 0 <= j < i ==> (#[trigger] r@[j])@ == v@[j]@,
        decreases v.len() - i,
    {
        r.push(v[i].clone());
        i = i + 1;
    }
    assert(entries_view(r@) =~= entries_view(v@));
    r
}

/// Everything eaten on one date, with the weight and activity level noted that day.
#[derive(Debug)]
pub struct DailyLog {
    pub date: Date,
    pub food_entries: Vec<LogEntry>,
    pub weight: Option<u32>,
    pub activity_level: Option<ActivityLevel>,
}

/// A daily log as a mathematical value.
pub struct DailyLogView {
    pub date: Date,
    pub entries: Seq<LogEntryView>,
    pub weight: Option<u32>,
    pub activity_level: Option<ActivityLevel>,
}

impl View for DailyLog {
    type V = DailyLogView;

    open spec fn view(&self) -> DailyLogView {
        DailyLogView {
            date: self.date,
            entries: entries_view(self.food_entries@),
            weight: self.weight,
            activity_level: self.activity_level,
        }
    }
}

impl Clone for DailyLog {
    fn clone(&self) -> (r: Self)
        ensures
            r@ == self@,
    {
        DailyLog {
            date: self.date,
            food_entries: copy_entries(&self.food_entries),
            weight: self.weight,
            activity_level: self.activity_level,
        }
    }
}

impl DailyLog {
    /// An empty log for `date`.
    pub fn new(date: Date) -> (r: DailyLog)
        ensures
            r@ == empty_log(date),
    {
        let r = DailyLog { date, food_entries: Vec::new(), weight: None, activity_level: None };
        assert(r@.entries =~= Seq::<LogEntryView>::empty());
        r
    }
}

/// An empty log for `date`, as a mathematical value.
pub open spec fn empty_log(date: Date) -> DailyLogView {
    DailyLogView { date, entries: Seq::empty(), weight: None, activity_level: None }
}

/// Calories of the first entries of `entries`, in order: each entry counts
/// `servings` times its food's resolved calories; an unknown food counts zero.
pub open spec fn entries_total(foods: Seq<FoodView>, entries: Seq<LogEntryView>) -> Result<nat, ResolveError>
    decreases entries.len(),
{
    if entries.len() == 0 {
        Ok(0)
    } else {
        match entries_total(foods, entries.drop_last()) {
            Err(e) => Err(e),
            Ok(t) => match resolve_spec(foods, entries.last().food) {
                Err(e) => Err(e),
                Ok(v) => Ok(plus(t, scaled(entries.last().servings, v))),
            },
        }
    }
}

/// Once a prefix of the entries fails, the whole list fails.
proof fn lemma_entries_prefix_err(foods: Seq<FoodView>, entries: Seq<LogEntryView>, k: int)
    requires
        0 <= k <= entries.len(),
        entries_total(foods, entries.subrange(0, k)) is Err,
    ensures
        entries_total(foods, entries) is Err,
    decreases entries.len() - k,
{
    if k < entries.len() {
        let next = entries.subrange(0, k + 1);
        assert(next.drop_last() =~= entries.subrange(0, k));
        lemma_entries_prefix_err(foods, entries, k + 1);
    } else {
        assert(entries.subrange(0, k) =~= entries);
    }
}

/// Total calories eaten in `log`, in thousandths of a kilocalorie.
pub fn total_calories(log: &DailyLog, catalog: &FoodCatalog) -> (r: Result<u64, ResolveError>)
    requires
        catalog.wf(),
    ensures
        match r {
            Ok(v) => entries_total(catalog@, log@.entries) == Ok::<nat, ResolveError>(v as nat),
            Err(e) => entries_total(catalog@, log@.entries) == Err::<nat, ResolveError>(e),
        },
{
    let ghost es = log@.entries;
    let mut acc: u64 = 0;
    let mut i: usize = 0;
    assert(es.subrange(0, 0) =~= Seq::<LogEntryView>::empty());
    while i < log.food_entries.len()
        invariant
            catalog.wf(),
            i <= log.food_entries.len(),
            es == log@.entries,
            entries_total(catalog@, es.subrange(0, i as int)) == Ok::<nat, ResolveError>(acc as nat),
        decreases log.food_entries.len() - i,
    {
        let entry = &log.food_entries[i];
        let ghost next = es.subrange(0, i + 1);
        assert(next.drop_last() =~= es.subrange(0, i as int));
        assert(next.last() == entry@);
        match catalog.resolve(&entry.food_name) {
            Ok(v) => {
                acc = add_saturating(acc, mul_scaled(entry.servings, v));
            },
            Err(e) => {
                proof {
                    lemma_entries_prefix_err(catalog@, es, i + 1);
                }
                return Err(e);
            },
        }
        i = i + 1;
    }
    assert(es.subrange(0, i as int) =~= es);
    Ok(acc)
}

/// Whether some log of `logs` is for date `d`.
pub open spec fn has_date(logs: Seq<DailyLogView>, d: Date) -> bool {
    exists|i: int| 0 <= i < logs.len() && (#[trigger] logs[i]).date == d
}

/// No two logs are for the same date.
pub open spec fn dates_unique(logs: Seq<DailyLogView>) -> bool {
    forall|i: int, j: int|
        0 <= i < logs.len() && 0 <= j < logs.len() && i != j ==> (#[trigger] logs[i]).date
            != (#[trigger] logs[j]).date
}

/// The logs keyed by their date.
pub open spec fn logs_map(logs: Seq<DailyLogView>) -> Map<Date, DailyLogView> {
    Map::new(
        |d: Date| has_date(logs, d),
        |d: Date| logs[choose|i: int| 0 <= i < logs.len() && (#[trigger] logs[i]).date == d],
    )
}

/// The mathematical value of each log of a list.
pub open spec fn daily_logs_view(v: Seq<DailyLog>) -> Seq<DailyLogView> {
    v.map_values(|l: DailyLog| l@)
}

/// With unique dates, the log at index `i` is the one its date maps to.
proof fn lemma_logs_map_at(logs: Seq<DailyLogView>, i: int)
    requires
        dates_unique(logs),
        0 <= i < logs.len(),
    ensures
        logs_map(logs).contains_key(logs[i].date),
        logs_map(logs)[logs[i].date] == logs[i],
{
    assert(has_date(logs, logs[i].date));
}

/// Replacing the log at index `i` by one for the same date replaces that date's entry.
proof fn lemma_logs_map_update(logs: Seq<DailyLogView>, i: int, x: DailyLogView)
    requires
        dates_unique(logs),
        0 <= i < logs.len(),
        x.date == logs[i].date,
    ensures
        dates_unique(logs.update(i, x)),
        logs_map(logs.update(i, x)) == logs_map(logs).insert(x.date, x),
{
    let u = logs.update(i, x);
    assert forall|d: Date| has_date(logs, d) || d == x.date implies #[trigger] has_date(u, d) by {
        if has_date(logs, d) {
            let j = choose|j: int| 0 <= j < logs.len() && (#[trigger] logs[j]).date == d;
            assert(u[j].date == d);
        }
        if d == x.date {
            assert(u[i].date == d);
        }
    }
    assert forall|d: Date| #[trigger] has_date(u, d) implies has_date(logs, d) by {
        let j = choose|j: int| 0 <= j < u.len() && (#[trigger] u[j]).date == d;
        assert(logs[j].date == d);
    }
    assert(logs_map(u) =~= logs_map(logs).insert(x.date, x));
}

/// Appending a log for a new date adds that date's entry.
proof fn lemma_logs_map_push(logs: Seq<DailyLogView>, x: DailyLogView)
    requires
        dates_unique(logs),
        !has_date(logs, x.date),
    ensures
        dates_unique(logs.push(x)),
        logs_map(logs.push(x)) == logs_map(logs).insert(x.date, x),
{
    let u = logs.push(x);
    assert forall|d: Date| #[trigger] has_date(u, d) <==> has_date(logs, d) || d == x.date by {
        if has_date(logs, d) {
            let j = choose|j: int| 0 <= j < logs.len() && (#[trigger] logs[j]).date == d;
            assert(u[j].date == d);
        }
        if d == x.date {
            assert(u[logs.len() as int].date == d);
        }
        if has_date(u, d) && d != x.date {
            let j = choose|j: int| 0 <= j < u.len() && (#[trigger] u[j]).date == d;
            assert(logs[j].date == d);
        }
    }
    assert(logs_map(u) =~= logs_map(logs).insert(x.date, x));
}

/// The profile that sets the goal of a day: the weight and activity level
/// noted in `log`, where noted, in place of the profile's own.
pub open spec fn day_profile(p: UserProfile, log: DailyLogView) -> UserProfile {
    UserProfile {
        weight_kg: match log.weight {
            Some(w) => w,
            None => p.weight_kg,
        },
        activity_level: match log.activity_level {
            Some(a) => a,
            None => p.activity_level,
        },
        ..p
    }
}

/// Calories of a day, in billionths of a kilocalorie: what was eaten, the
/// goal and what remains of it.
#[derive(Debug, Clone, Copy, PartialEq, Eq, Structural)]
pub struct CalorieSummary {
    pub consumed: i128,
    pub goal: i128,
    pub remaining: i128,
}

/// The daily logs of one user context, with the date currently shown.
pub struct DailyLogManager {
    pub logs: Vec<DailyLog>,
    pub current_date: Date,
}

impl DailyLogManager {
    /// The logs keyed by date.
    pub open spec fn logs_view(&self) -> Map<Date, DailyLogView> {
        logs_map(daily_logs_view(self.logs@))
    }

    /// One log per date, and a log for the current date.
    pub open spec fn wf(&self) -> bool {
        &&& dates_unique(daily_logs_view(self.logs@))
        &&& self.logs_view().contains_key(self.current_date)
    }

    /// The log of the current date.
    pub open spec fn current_log(&self) -> DailyLogView {
        self.logs_view()[self.current_date]
    }

    /// A manager over `logs` showing `date`, which gets an empty log if it has none.
    pub fn new(logs: Vec<DailyLog>, date: Date) -> (r: Self)
        requires
            dates_unique(daily_logs_view(logs@)),
        ensures
            r.wf(),
            r.current_date == date,
            r.logs_view() == if logs_map(daily_logs_view(logs@)).contains_key(date) {
                logs_map(daily_logs_view(logs@))
            } else {
                logs_map(daily_logs_view(logs@)).insert(date, empty_log(date))
            },
    {
        let mut m = DailyLogManager { logs, current_date: date };
        m.ensure_log_exists();
        m
    }

    /// Index of the log for `date`, if any.
    fn find_log(&self, date: Date) -> (r: Option<usize>)
        requires
            dates_unique(daily_logs_view(self.logs@)),
        ensures
            r is None <==> !self.logs_view().contains_key(date),
            r matches Some(i) ==> i < self.logs.len() && self.logs@[i as int].date == date,
    {
        let ghost v = daily_logs_view(self.logs@);
        let mut i: usize = 0;
        while i < self.logs.len()
            invariant
                i <= self.logs.len(),
                v == daily_logs_view(self.logs@),
                forall|j: int| 0 <= j < i ==> (#[trigger] v[j]).date != date,
            decreases self.logs.len() - i,
        {
            assert(v[i as int].date == self.logs@[i as int].date);
            if self.logs[i].date == date {
                return Some(i);
            }
            i = i + 1;
        }
        None
    }

    /// Adds an empty log for the current date unless it has one.
    fn ensure_log_exists(&mut self)
        requires
            dates_unique(daily_logs_view(old(self).logs@)),
        ensures
            final(self).wf(),
            final(self).current_date == old(self).current_date,
            final(self).logs_view() == if old(self).logs_view().contains_key(old(self).current_date) {
                old(self).logs_view()
            } else {
                old(self).logs_view().insert(old(self).current_date, empty_log(old(self).current_date))
            },
    {
        match self.find_log(self.current_date) {
            Some(_) => {},
            None => {
                let ghost before = daily_logs_view(self.logs@);
                let fresh = DailyLog::new(self.current_date);
                let ghost x = fresh@;
                self.logs.push(fresh);
                assert(daily_logs_view(self.logs@) =~= before.push(x));
                proof {
                    lemma_logs_map_push(before, x);
                }
            },
        }
    }

    /// Index of the log of the current date.
    fn current_index(&self) -> (r: usize)
        requires
            self.wf(),
        ensures
            r < self.logs.len(),
            self.logs@[r as int].date == self.current_date,
            self.logs@[r as int]@ == self.current_log(),
    {
        match self.find_log(self.current_date) {
            Some(i) => {
                proof {
                    lemma_logs_map_at(daily_logs_view(self.logs@), i as int);
                }
                i
            },
            None => {
                proof {
                    assert(false);
                }
                0
            },
        }
    }

    pub fn get_current_date(&self) -> (r: Date)
        ensures
            r == self.current_date,
    {
        self.current_date
    }

    /// Shows `date`, giving it an empty log if it has none.
    pub fn set_current_date(&mut self, date: Date)
        requires
            old(self).wf(),
        ensures
            final(self).wf(),
            final(self).current_date == date,
            final(self).logs_view() == if old(self).logs_view().contains_key(date) {
                old(self).logs_view()
            } else {
                old(self).logs_view().insert(date, empty_log(date))
            },
    {
        self.current_date = date;
        self.ensure_log_exists();
    }

    /// The log of the current date.
    pub fn get_current_log(&self) -> (r: &DailyLog)
        requires
            self.wf(),
        ensures
            r@ == self.current_log(),
    {
        let i = self.current_index();
        &self.logs[i]
    }

    /// All logs, one per date.
    pub fn get_all_logs(&self) -> (r: &Vec<DailyLog>)
        ensures
            r@ == self.logs@,
    {
        &self.logs
    }

    /// Replaces the log at index `i`, which is the current date's, by `x`.
    fn replace_current(&mut self, i: usize, x: DailyLog)
        requires
            old(self).wf(),
            i < old(self).logs.len(),
            old(self).logs@[i as int].date == old(self).current_date,
            x.date == old(self).current_date,
        ensures
            final(self).wf(),
            final(self).current_date == old(self).current_date,
            final(self).logs_view() == old(self).logs_view().insert(old(self).current_date, x@),
    {
        let ghost before = daily_logs_view(self.logs@);
        let ghost xv = x@;
        self.logs.set(i, x);
        assert(daily_logs_view(self.logs@) =~= before.update(i as int, xv));
        proof {
            lemma_logs_map_update(before, i as int, xv);
        }
    }

    /// Replaces the current date's entries, weight and activity level by those of `log`.
    pub fn update_current_log(&mut self, log: &DailyLog)
        requires
            old(self).wf(),
        ensures
            final(self).wf(),
            final(self).current_date == old(self).current_date,
            final(self).logs_view() == old(self).logs_view().insert(
                old(self).current_date,
                DailyLogView { date: old(self).current_date, ..log@ },
            ),
    {
        let i = self.current_index();
        let x = DailyLog {
            date: self.current_date,
            food_entries: copy_entries(&log.food_entries),
            weight: log.weight,
            activity_level: log.activity_level,
        };
        self.replace_current(i, x);
    }

    /// Logs `servings` (thousandths) of `food_name` on the current date, stamped
    /// with `timestamp`.
    pub fn add_food_entry(&mut self, food_name: &String, servings: u64, timestamp: Option<i64>)
        requires
            old(self).wf(),
        ensures
            final(self).wf(),
            final(self).current_date == old(self).current_date,
            final(self).logs_view().dom() == old(self).logs_view().dom(),
            forall|d: Date| d != old(self).current_date && #[trigger] old(self).logs_view().contains_key(d)
                ==> final(self).logs_view()[d] == old(self).logs_view()[d],
            ({
                let before = old(self).current_log();
                let after = final(self).current_log();
                &&& after.date == before.date
                &&& after.weight == before.weight
                &&& after.activity_level == before.activity_level
                &&& after.entries.len() == before.entries.len() + 1
                &&& after.entries.drop_last() == before.entries
                &&& after.entries.last().food == food_name@
                &&& after.entries.last().servings == servings
                &&& after.entries.last().timestamp == timestamp
            }),
    {
        let i = self.current_index();
        let old_log = &self.logs[i];
        let mut entries = copy_entries(&old_log.food_entries);
        let ghost before_entries = entries_view(entries@);
        let entry = LogEntry { food_name: food_name.clone(), servings, timestamp };
        let ghost ev = entry@;
        entries.push(entry);
        assert(entries_view(entries@) =~= before_entries.push(ev));
        let x = DailyLog {
            date: self.current_date,
            food_entries: entries,
            weight: old_log.weight,
            activity_level: old_log.activity_level,
        };
        proof {
            assert(entries_view(entries@).drop_last() =~= before_entries);
        }
        self.replace_current(i, x);
    }

    /// Removes the current date's entry at `index`; an index past the end changes nothing.
    pub fn delete_food_entry(&mut self, index: usize)
        requires
            old(self).wf(),
        ensures
            final(self).wf(),
            final(self).current_date == old(self).current_date,
            index < old(self).current_log().entries.len() ==> final(self).logs_view() == old(self).logs_view().insert(
                old(self).current_date,
                DailyLogView { entries: old(self).current_log().entries.remove(index as int), ..old(self).current_log() },
            ),
            index >= old(self).current_log().entries.len() ==> final(self).logs_view() == old(self).logs_view(),
    {
        let i = self.current_index();
        if index < self.logs[i].food_entries.len() {
            let old_log = &self.logs[i];
            let mut entries = copy_entries(&old_log.food_entries);
            let ghost before_entries = entries_view(entries@);
            entries.remove(index);
            assert(entries_view(entries@) =~= before_entries.remove(index as int));
            let x = DailyLog {
                date: self.current_date,
                food_entries: entries,
                weight: old_log.weight,
                activity_level: old_log.activity_level,
            };
            self.replace_current(i, x);
        }
    }

    /// Notes `weight` (thousandths of a kilogram) on the current date; returns the previous note.
    pub fn update_weight(&mut self, weight: u32) -> (r: Option<u32>)
        requires
            old(self).wf(),
        ensures
            final(self).wf(),
            final(self).current_date == old(self).current_date,
            r == old(self).current_log().weight,
            final(self).logs_view() == old(self).logs_view().insert(
                old(self).current_date,
                DailyLogView { weight: Some(weight), ..old(self).current_log() },
            ),
    {
        let i = self.current_index();
        let old_log = &self.logs[i];
        let previous = old_log.weight;
        let x = DailyLog {
            date: self.current_date,
            food_entries: copy_entries(&old_log.food_entries),
            weight: Some(weight),
            activity_level: old_log.activity_level,
        };
        self.replace_current(i, x);
        previous
    }

    /// Notes `activity` on the current date; returns the previous note.
    pub fn update_activity_level(&mut self, activity: ActivityLevel) -> (r: Option<ActivityLevel>)
        requires
            old(self).wf(),
        ensures
            final(self).wf(),
            final(self).current_date == old(self).current_date,
            r == old(self).current_log().activity_level,
            final(self).logs_view() == old(self).logs_view().insert(
                old(self).current_date,
                DailyLogView { activity_level: Some(activity), ..old(self).current_log() },
            ),
    {
        let i = self.current_index();
        let old_log = &self.logs[i];
        let previous = old_log.activity_level;
        let x = DailyLog {
            date: self.current_date,
            food_entries: copy_entries(&old_log.food_entries),
            weight: old_log.weight,
            activity_level: Some(activity),
        };
        self.replace_current(i, x);
        previous
    }

    /// Calories eaten on the current date, in thousandths of a kilocalorie.
    pub fn calculate_calories_consumed(&self, catalog: &FoodCatalog) -> (r: Result<u64, ResolveError>)
        requires
            self.wf(),
            catalog.wf(),
        ensures
            match r {
                Ok(v) => entries_total(catalog@, self.current_log().entries) == Ok::<nat, ResolveError>(v as nat),
                Err(e) => entries_total(catalog@, self.current_log().entries) == Err::<nat, ResolveError>(e),
            },
    {
        total_calories(self.get_current_log(), catalog)
    }

    /// Calories eaten on the current date, the daily goal, and what remains of
    /// it. The goal is the profile's, with the weight and activity level noted
    /// on the current date in place of the profile's own where noted.
    pub fn calorie_summary(&self, catalog: &FoodCatalog, profile: &UserProfile) -> (r: Result<
        CalorieSummary,
        ResolveError,
    >)
        requires
            self.wf(),
            catalog.wf(),
        ensures
            match r {
                Ok(s) => {
                    &&& s.consumed % 1_000_000 == 0
                    &&& entries_total(catalog@, self.current_log().entries) == Ok::<nat, ResolveError>(
                        (s.consumed / 1_000_000) as nat,
                    )
                    &&& s.goal == daily_target(day_profile(*profile, self.current_log()))
                    &&& s.remaining == s.goal - s.consumed
                },
                Err(e) => entries_total(catalog@, self.current_log().entries) == Err::<nat, ResolveError>(e),
            },
    {
        let consumed = match self.calculate_calories_consumed(catalog) {
            Ok(c) => c,
            Err(e) => return Err(e),
        };
        let log = self.get_current_log();
        let weight = match log.weight {
            Some(w) => w,
            None => profile.weight_kg,
        };
        let activity = match log.activity_level {
            Some(a) => a,
            None => profile.activity_level,
        };
        let goal = crate::goals::calculate_daily_goal(profile, weight, activity);
        let eaten: i128 = consumed as i128 * 1_000_000;
        assert(goal >= -190_000_000_000_000_000_000 && goal <= 190_000_000_000_000_000_000);
        Ok(CalorieSummary { consumed: eaten, goal, remaining: goal - eaten })
    }
}

} // verus!
