//! Logging bookkeeping: CSV file naming and the column sets of each log.
use crate::text::{decimal, two_digit_decimal, two_digits, u64_to_decimal};
use vstd::prelude::*;
use vstd::string::*;

verus! {

/// `std::io::Error`, carried by [`LoggerError::IoError`].
#[verifier::external_type_specification]
#[verifier::external_body]
pub struct ExIoError(std::io::Error);

pub enum LoggerError {
    SessionNotActive,
    IoError(std::io::Error),
    ChannelError,
    RegistryError(String),
}

/// The text `std::io::Error`'s `Display` gives for `e`; nothing is stated of
/// it, since it comes from the operating system's error description.
#[verifier::external_body]
fn io_error_text(e: &std::io::Error) -> String {
    e.to_string()
}

impl LoggerError {
    /// The message shown for the error.
    pub fn message(&self) -> (m: String)
        ensures
            match self {
                LoggerError::SessionNotActive => m@ == "No active logging session"@,
                LoggerError::ChannelError => m@ == "Communication channel error"@,
                LoggerError::RegistryError(s) => m@ == "Registry error: "@ + s@,
                LoggerError::IoError(_) => m@.len() >= 10 && m@.take(10) == "IO error: "@,
            },
    {
        match self {
            LoggerError::SessionNotActive => "No active logging session".to_owned(),
            LoggerError::ChannelError => "Communication channel error".to_owned(),
            LoggerError::RegistryError(s) => {
                let mut m = "Registry error: ".to_owned();
                m.append(s.as_str());
                m
            },
            LoggerError::IoError(e) => {
                let mut m = "IO error: ".to_owned();
                let text = io_error_text(e);
                m.append(text.as_str());
                proof {
                    reveal_strlit("IO error: ");
                }
                assert(m@.take(10) =~= "IO error: "@);
                m
            },
        }
    }
}

/// Header line of a frame-log CSV file.
pub const FRAME_LOG_HEADER: &'static str =
    "ElapsedTime,RobotID,Team,Vx_Command,Vy_Command,Angular_Command,Pos_X,Pos_Y,Orientation,Vx_Actual,Vy_Actual";

/// Whether `year` is a leap year of the Gregorian calendar.
pub open spec fn is_leap_year(year: int) -> bool {
    (year % 4 == 0 && year % 100 != 0) || year % 400 == 0
}

pub open spec fn days_in_year(year: int) -> int {
    if is_leap_year(year) { 366 } else { 365 }
}

/// Days in `month` (1 to 12) of `year`.
pub open spec fn days_in_month(year: int, month: int) -> int {
    if month == 2 {
        if is_leap_year(year) { 29 } else { 28 }
    } else if month == 4 || month == 6 || month == 9 || month == 11 {
        30
    } else {
        31
    }
}

/// The (month, day) that lies `day_of_year` days (counted from 0) after the
/// start of `month` in `year`.
pub open spec fn month_and_day(year: int, month: int, day_of_year: int) -> (int, int)
    decreases 12 - month,
{
    if month >= 12 || day_of_year < days_in_month(year, month) {
        (month, day_of_year + 1)
    } else {
        month_and_day(year, month + 1, day_of_year - days_in_month(year, month))
    }
}

/// The (year, month, day) that lies `days` days after 1 January of `year`.
pub open spec fn civil_date(year: int, days: nat) -> (int, int, int)
    decreases days,
{
    if days < days_in_year(year) {
        let (m, d) = month_and_day(year, 1, days as int);
        (year, m, d)
    } else {
        civil_date(year + 1, (days - days_in_year(year)) as nat)
    }
}

/// The UTC date and time `secs` seconds after the Unix epoch, written
/// `YYYYMMDD_HHMMSS`.
pub open spec fn utc_stamp(secs: nat) -> Seq<char> {
    let (y, m, d) = civil_date(1970, secs / 86400);
    let t = secs % 86400;
    decimal(y as nat) + two_digits(m as nat) + two_digits(d as nat) + seq!['_'] + two_digits(
        t / 3600,
    ) + two_digits((t / 60) % 60) + two_digits(t % 60)
}

/// Days of the months of `year` before `month`.
pub open spec fn days_before_month(year: int, month: int) -> int
    decreases month,
{
    if month <= 1 {
        0
    } else {
        days_before_month(year, month - 1) + days_in_month(year, month - 1)
    }
}

proof fn lemma_month_and_day(year: int, month: int, left: int)
    requires
        1 <= month <= 12,
        0 <= left,
        left + days_before_month(year, month) < days_in_year(year),
    ensures
        1 <= month_and_day(year, month, left).0 <= 12,
        1 <= month_and_day(year, month, left).1 <= 31,
    decreases 12 - month,
{
    reveal_with_fuel(days_before_month, 13);
    if month < 12 && left >= days_in_month(year, month) {
        lemma_month_and_day(year, month + 1, left - days_in_month(year, month));
    }
}

fn is_leap(year: u64) -> (b: bool)
    ensures
        b == is_leap_year(year as int),
{
    (year % 4 == 0 && year % 100 != 0) || year % 400 == 0
}

fn year_length(year: u64) -> (n: u64)
    ensures
        n == days_in_year(year as int),
{
    if is_leap(year) {
        366
    } else {
        365
    }
}

fn month_length(year: u64, month: u64) -> (n: u64)
    ensures
        n == days_in_month(year as int, month as int),
{
    if month == 2 {
        if is_leap(year) { 29 } else { 28 }
    } else if month == 4 || month == 6 || month == 9 || month == 11 {
        30
    } else {
        31
    }
}

/// Four-digit years are written with four digits.
proof fn lemma_four_digits(n: nat)
    requires
        1000 <= n <= 9999,
    ensures
        decimal(n).len() == 4,
{
    reveal_with_fuel(decimal, 4);
    assert(100 <= n / 10 <= 999);
    assert(10 <= n / 100 <= 99);
    assert(1 <= n / 1000 <= 9);
    assert((n / 10) / 10 == n / 100);
    assert((n / 100) / 10 == n / 1000);
}

/// The timestamp used in default log file names: the UTC date and time
/// `secs_since_epoch` seconds after the Unix epoch, `YYYYMMDD_HHMMSS`: 15
/// characters with the underscore ninth for any time before 247000000000
/// seconds (in the year 9797).
pub fn chrono_like_timestamp(secs_since_epoch: u64) -> (s: String)
    ensures
        s@ == utc_stamp(secs_since_epoch as nat),
        secs_since_epoch < 247_000_000_000 ==> s@.len() == 15 && s@[8] == '_',
{
    let mut days = secs_since_epoch / 86400;
    let t = secs_since_epoch % 86400;
    let mut year: u64 = 1970;
    let ghost total = days as nat;
    while days >= year_length(year)
        invariant
            1970 <= year <= 1970 + total - days,
            (year - 1970) * 365 <= total - days,
            days <= total,
            total == secs_since_epoch / 86400,
            civil_date(year as int, days as nat) == civil_date(1970, total),
        decreases days,
    {
        days = days - year_length(year);
        year = year + 1;
    }
    let mut month: u64 = 1;
    let mut left = days;
    proof {
        reveal_with_fuel(days_before_month, 13);
        assert(days_before_month(year as int, 1) == 0);
    }
    while month < 12 && left >= month_length(year, month)
        invariant
            1 <= month <= 12,
            left <= days,
            days < days_in_year(year as int),
            left + days_before_month(year as int, month as int) == days,
            month_and_day(year as int, month as int, left as int) == month_and_day(
                year as int,
                1,
                days as int,
            ),
        decreases 12 - month,
    {
        left = left - month_length(year, month);
        month = month + 1;
    }
    proof {
        lemma_month_and_day(year as int, month as int, left as int);
    }
    let day = left + 1;
    assert(civil_date(1970, total) == (year as int, month as int, day as int));
    proof {
        if secs_since_epoch < 247_000_000_000 {
            assert(total <= 2_858_797);
            assert((year - 1970) * 365 <= 2_858_797);
            assert(year <= 9802);
            lemma_four_digits(year as nat);
        }
    }
    let mut s = u64_to_decimal(year);
    s.append(two_digit_decimal(month).as_str());
    s.append(two_digit_decimal(day).as_str());
    s.append("_");
    s.append(two_digit_decimal(t / 3600).as_str());
    s.append(two_digit_decimal((t / 60) % 60).as_str());
    s.append(two_digit_decimal(t % 60).as_str());
    proof {
        reveal_strlit("_");
    }
    assert(s@ =~= utc_stamp(secs_since_epoch as nat));
    s
}

/// The file a recording is written to: the requested name when one is given
/// and not empty, otherwise `logs/log_<timestamp>.csv`.
pub fn log_file_path(filename: Option<&str>, timestamp: &str) -> (path: String)
    ensures
        path@ == (match filename {
            Some(f) if f@.len() > 0 => f@,
            _ => "logs/log_"@ + timestamp@ + ".csv"@,
        }),
{
    match filename {
        Some(f) if f.unicode_len() > 0 => f.to_owned(),
        _ => {
            let mut p = "logs/log_".to_owned();
            p.append(timestamp);
            p.append(".csv");
            p
        },
    }
}

/// Views of a list of strings.
pub open spec fn string_views(v: Seq<String>) -> Seq<Seq<char>> {
    v.map_values(|s: String| s@)
}

/// `acc` extended with each of `new`, in order, that it does not hold yet.
pub open spec fn merge_columns(acc: Seq<Seq<char>>, new: Seq<Seq<char>>) -> Seq<Seq<char>>
    decreases new.len(),
{
    if new.len() == 0 {
        acc
    } else {
        merge_columns(
            if acc.contains(new[0]) { acc } else { acc.push(new[0]) },
            new.drop_first(),
        )
    }
}

/// Merging keeps the existing columns, in order, in front.
pub proof fn lemma_merge_extends(acc: Seq<Seq<char>>, new: Seq<Seq<char>>)
    ensures
        merge_columns(acc, new).len() >= acc.len(),
        merge_columns(acc, new).take(acc.len() as int) == acc,
    decreases new.len(),
{
    if new.len() > 0 {
        let next = if acc.contains(new[0]) { acc } else { acc.push(new[0]) };
        lemma_merge_extends(next, new.drop_first());
        assert(next.take(acc.len() as int) =~= acc);
        assert(merge_columns(acc, new).take(acc.len() as int) =~= merge_columns(
            acc,
            new,
        ).take(next.len() as int).take(acc.len() as int));
    }
}

/// After merging, every requested column is present.
pub proof fn lemma_merge_contains(acc: Seq<Seq<char>>, new: Seq<Seq<char>>)
    ensures
        forall|c: Seq<char>| #[trigger] new.contains(c) ==> merge_columns(acc, new).contains(c),
        forall|c: Seq<char>| #[trigger] acc.contains(c) ==> merge_columns(acc, new).contains(c),
    decreases new.len(),
{
    if new.len() > 0 {
        let next = if acc.contains(new[0]) { acc } else { acc.push(new[0]) };
        lemma_merge_contains(next, new.drop_first());
        assert forall|c: Seq<char>| #[trigger] new.contains(c) implies merge_columns(
            acc,
            new,
        ).contains(c) by {
            let k = choose|k: int| 0 <= k < new.len() && new[k] == c;
            if k > 0 {
                assert(new.drop_first()[k - 1] == c);
                assert(new.drop_first().contains(c));
            } else {
                assert(next.contains(c)) by {
                    if !acc.contains(new[0]) {
                        assert(next[acc.len() as int] == c);
                    }
                }
            }
        }
        assert forall|c: Seq<char>| #[trigger] acc.contains(c) implies merge_columns(
            acc,
            new,
        ).contains(c) by {
            let k = choose|k: int| 0 <= k < acc.len() && acc[k] == c;
            assert(next[k] == c);
            assert(next.contains(c));
        }
    }
}

proof fn lemma_merge_present(acc: Seq<Seq<char>>, new: Seq<Seq<char>>)
    requires
        forall|c: Seq<char>| #[trigger] new.contains(c) ==> acc.contains(c),
    ensures
        merge_columns(acc, new) == acc,
    decreases new.len(),
{
    if new.len() > 0 {
        assert(new.contains(new[0]));
        assert forall|c: Seq<char>| #[trigger] new.drop_first().contains(c) implies acc.contains(
            c,
        ) by {
            let k = choose|k: int| 0 <= k < new.drop_first().len() && new.drop_first()[k] == c;
            assert(new[k + 1] == c);
            assert(new.contains(c));
        }
        lemma_merge_present(acc, new.drop_first());
    }
}

/// Registering the same columns a second time changes nothing.
pub proof fn lemma_merge_idempotent(acc: Seq<Seq<char>>, new: Seq<Seq<char>>)
    ensures
        merge_columns(merge_columns(acc, new), new) == merge_columns(acc, new),
{
    lemma_merge_contains(acc, new);
    lemma_merge_present(merge_columns(acc, new), new);
}

fn contains_string(v: &Vec<String>, s: &String) -> (b: bool)
    ensures
        b == string_views(v@).contains(s@),
{
    let mut i: usize = 0;
    while i < v.len()
        invariant
            i <= v@.len(),
            forall|k: int| 0 <= k < i ==> v@[k]@ != s@,
        decreases v@.len() - i,
    {
        if v[i] == *s {
            assert(string_views(v@)[i as int] == s@);
            return true;
        }
        i += 1;
    }
    assert forall|k: int| 0 <= k < string_views(v@).len() implies string_views(v@)[k] != s@ by {
        assert(string_views(v@)[k] == v@[k]@);
    }
    false
}

/// Appends to `existing` each of `columns`, in order, that it does not hold
/// yet; returns whether any was added.
pub fn merge_into(existing: &mut Vec<String>, columns: Vec<String>) -> (changed: bool)
    ensures
        string_views(final(existing)@) == merge_columns(
            string_views(old(existing)@),
            string_views(columns@),
        ),
        changed == (final(existing)@.len() > old(existing)@.len()),
        final(existing)@.len() >= old(existing)@.len(),
{
    let mut i: usize = 0;
    let initial_len = existing.len();
    let ghost start = string_views(existing@);
    let ghost cols = string_views(columns@);
    proof {
        assert(cols.skip(0) =~= cols);
    }
    while i < columns.len()
        invariant
            i <= columns@.len(),
            cols == string_views(columns@),
            merge_columns(string_views(existing@), cols.skip(i as int)) == merge_columns(
                start,
                cols,
            ),
            existing@.len() >= start.len(),
        decreases columns@.len() - i,
    {
        let col = &columns[i];
        assert(cols.skip(i as int).drop_first() =~= cols.skip(i + 1));
        assert(cols.skip(i as int)[0] == col@);
        let ghost before = existing@;
        if !contains_string(existing, col) {
            existing.push(col.clone());
            assert(string_views(existing@) =~= string_views(before).push(col@));
        }
        i += 1;
    }
    assert(cols.skip(columns@.len() as int) =~= Seq::<Seq<char>>::empty());
    existing.len() > initial_len
}

/// Column lists by log name, first entry for a name first.
pub open spec fn lookup(
    entries: Seq<(Seq<char>, Seq<Seq<char>>)>,
    name: Seq<char>,
) -> Option<Seq<Seq<char>>>
    decreases entries.len(),
{
    if entries.len() == 0 {
        None
    } else if entries[0].0 == name {
        Some(entries[0].1)
    } else {
        lookup(entries.drop_first(), name)
    }
}

proof fn lemma_lookup_update(
    entries: Seq<(Seq<char>, Seq<Seq<char>>)>,
    i: int,
    name: Seq<char>,
    cols: Seq<Seq<char>>,
)
    requires
        0 <= i < entries.len(),
        entries[i].0 == name,
        forall|k: int| 0 <= k < i ==> entries[k].0 != name,
    ensures
        lookup(entries, name) == Some(entries[i].1),
        forall|n: Seq<char>|
            #![trigger lookup(entries.update(i, (name, cols)), n)]
            lookup(entries.update(i, (name, cols)), n) == if n == name {
                Some(cols)
            } else {
                lookup(entries, n)
            },
    decreases i,
{
    let u = entries.update(i, (name, cols));
    if i > 0 {
        lemma_lookup_update(entries.drop_first(), i - 1, name, cols);
        assert(u.drop_first() =~= entries.drop_first().update(i - 1, (name, cols)));
        assert forall|n: Seq<char>| #![trigger lookup(u, n)] lookup(u, n) == if n == name {
            Some(cols)
        } else {
            lookup(entries, n)
        } by {
            if u[0].0 != n {
                assert(lookup(u, n) == lookup(u.drop_first(), n));
            }
        }
    } else {
        assert forall|n: Seq<char>| #![trigger lookup(u, n)] lookup(u, n) == if n == name {
            Some(cols)
        } else {
            lookup(entries, n)
        } by {
            if n != name {
                assert(u.drop_first() =~= entries.drop_first());
            }
        }
    }
}

proof fn lemma_lookup_push(
    entries: Seq<(Seq<char>, Seq<Seq<char>>)>,
    name: Seq<char>,
    cols: Seq<Seq<char>>,
)
    requires
        forall|k: int| 0 <= k < entries.len() ==> entries[k].0 != name,
    ensures
        lookup(entries, name) is None,
        forall|n: Seq<char>|
            #![trigger lookup(entries.push((name, cols)), n)]
            lookup(entries.push((name, cols)), n) == if n == name {
                Some(cols)
            } else {
                lookup(entries, n)
            },
    decreases entries.len(),
{
    let p = entries.push((name, cols));
    if entries.len() > 0 {
        lemma_lookup_push(entries.drop_first(), name, cols);
        assert(p.drop_first() =~= entries.drop_first().push((name, cols)));
        assert forall|n: Seq<char>| #![trigger lookup(p, n)] lookup(p, n) == if n == name {
            Some(cols)
        } else {
            lookup(entries, n)
        } by {
            if p[0].0 != n {
                assert(lookup(p, n) == lookup(p.drop_first(), n));
            }
        }
    } else {
        assert forall|n: Seq<char>| #![trigger lookup(p, n)] lookup(p, n) == if n == name {
            Some(cols)
        } else {
            lookup(entries, n)
        } by {
            if n != name {
                assert(p.drop_first() =~= entries);
            }
        }
    }
}

/// The column set of each log, by log name.
pub struct ColumnRegistry {
    entries: Vec<(String, Vec<String>)>,
}

pub open spec fn entry_views(e: Seq<(String, Vec<String>)>) -> Seq<(Seq<char>, Seq<Seq<char>>)> {
    e.map_values(|p: (String, Vec<String>)| (p.0@, string_views(p.1@)))
}

impl ColumnRegistry {
    pub closed spec fn view_entries(&self) -> Seq<(Seq<char>, Seq<Seq<char>>)> {
        entry_views(self.entries@)
    }

    /// The columns registered for `name`, if any.
    pub open spec fn columns_for(&self, name: Seq<char>) -> Option<Seq<Seq<char>>> {
        lookup(self.view_entries(), name)
    }

    /// No log has columns.
    pub fn new() -> (r: Self)
        ensures
            forall|n: Seq<char>| #[trigger] r.columns_for(n) is None,
    {
        ColumnRegistry { entries: Vec::new() }
    }

    fn find(&self, name: &str) -> (i: Option<usize>)
        ensures
            match i {
                Some(k) => k < self.entries@.len() && self.view_entries()[k as int].0 == name@
                    && forall|j: int| 0 <= j < k ==> self.view_entries()[j].0 != name@,
                None => forall|j: int|
                    0 <= j < self.entries@.len() ==> self.view_entries()[j].0 != name@,
            },
    {
        let target = name.to_owned();
        let mut k: usize = 0;
        while k < self.entries.len()
            invariant
                k <= self.entries@.len(),
                target@ == name@,
                forall|j: int| 0 <= j < k ==> self.view_entries()[j].0 != name@,
            decreases self.entries@.len() - k,
        {
            if self.entries[k].0 == target {
                return Some(k);
            }
            k += 1;
        }
        None
    }

    /// The columns registered for `name`.
    pub fn columns_of(&self, name: &str) -> (c: Option<&Vec<String>>)
        ensures
            match c {
                Some(v) => self.columns_for(name@) == Some(string_views(v@)),
                None => self.columns_for(name@) is None,
            },
    {
        match self.find(name) {
            Some(k) => {
                proof {
                    lemma_lookup_update(self.view_entries(), k as int, name@, self.view_entries()[k as int].1);
                }
                Some(&self.entries[k].1)
            },
            None => {
                proof {
                    lemma_lookup_push(self.view_entries(), name@, Seq::empty());
                }
                None
            },
        }
    }

    /// Adds to the columns of `log_name` those of `columns` it does not have
    /// yet, in order. When any was added, returns the whole new column list
    /// (for the file writer); otherwise `None`.
    pub fn register_columns(&mut self, log_name: &str, columns: Vec<String>) -> (sent: Option<
        Vec<String>,
    >)
        ensures
            ({
                let before = match old(self).columns_for(log_name@) {
                    Some(c) => c,
                    None => Seq::empty(),
                };
                let after = merge_columns(before, string_views(columns@));
                &&& final(self).columns_for(log_name@) == Some(after)
                &&& forall|n: Seq<char>|
                    n != log_name@ ==> #[trigger] final(self).columns_for(n) == old(
                        self,
                    ).columns_for(n)
                &&& match sent {
                    Some(all) => string_views(all@) == after && after.len() > before.len(),
                    None => after.len() == before.len(),
                }
            }),
    {
        let ghost old_entries = self.view_entries();
        let idx = match self.find(log_name) {
            Some(k) => k,
            None => {
                proof {
                    lemma_lookup_push(old_entries, log_name@, Seq::empty());
                }
                let entry: (String, Vec<String>) = (log_name.to_owned(), Vec::new());
                assert(string_views(entry.1@) =~= Seq::<Seq<char>>::empty());
                self.entries.push(entry);
                assert(self.view_entries() =~= old_entries.push((log_name@, Seq::empty())));
                self.entries.len() - 1
            },
        };
        let ghost mid = self.view_entries();
        assert(lookup(mid, log_name@) == old(self).columns_for(log_name@) || (old(self).columns_for(
            log_name@,
        ) is None && lookup(mid, log_name@) == Some(Seq::<Seq<char>>::empty())));
        assert(forall|n: Seq<char>| n != log_name@ ==> #[trigger] lookup(mid, n) == lookup(old_entries, n));
        proof {
            assert forall|j: int| 0 <= j < idx implies mid[j].0 != log_name@ by {
                if j < old_entries.len() {
                    assert(mid[j] == old_entries[j]);
                }
            }
        }
        let (name, mut cols) = self.entries.remove(idx);
        assert(mid[idx as int] == (name@, string_views(cols@)));
        let changed = merge_into(&mut cols, columns);
        let sent = if changed {
            Some(cols.clone())
        } else {
            None
        };
        self.entries.insert(idx, (name, cols));
        proof {
            let new_cols = self.view_entries()[idx as int].1;
            assert(self.view_entries() =~= mid.update(idx as int, (log_name@, new_cols)));
            lemma_lookup_update(mid, idx as int, log_name@, new_cols);
        }
        sent
    }

    /// Appends `columns` to those of `log_name` as they are, without removing
    /// duplicates (columns declared before a session starts are kept this way).
    pub fn extend_columns(&mut self, log_name: &str, columns: Vec<String>)
        ensures
            final(self).columns_for(log_name@) == Some(
                match old(self).columns_for(log_name@) {
                    Some(c) => c,
                    None => Seq::empty(),
                } + string_views(columns@),
            ),
            forall|n: Seq<char>|
                n != log_name@ ==> #[trigger] final(self).columns_for(n) == old(self).columns_for(n),
    {
        let ghost old_entries = self.view_entries();
        let idx = match self.find(log_name) {
            Some(k) => k,
            None => {
                proof {
                    lemma_lookup_push(old_entries, log_name@, Seq::empty());
                }
                let entry: (String, Vec<String>) = (log_name.to_owned(), Vec::new());
                assert(string_views(entry.1@) =~= Seq::<Seq<char>>::empty());
                self.entries.push(entry);
                assert(self.view_entries() =~= old_entries.push((log_name@, Seq::empty())));
                self.entries.len() - 1
            },
        };
        let ghost mid = self.view_entries();
        assert(forall|n: Seq<char>| n != log_name@ ==> #[trigger] lookup(mid, n) == lookup(old_entries, n));
        proof {
            assert forall|j: int| 0 <= j < idx implies mid[j].0 != log_name@ by {
                if j < old_entries.len() {
                    assert(mid[j] == old_entries[j]);
                }
            }
        }
        let (name, mut cols) = self.entries.remove(idx);
        assert(mid[idx as int] == (name@, string_views(cols@)));
        let ghost cols_before = cols@;
        let mut more = columns;
        cols.append(&mut more);
        assert(string_views(cols@) =~= string_views(cols_before) + string_views(columns@));
        self.entries.insert(idx, (name, cols));
        proof {
            let new_cols = self.view_entries()[idx as int].1;
            assert(self.view_entries() =~= mid.update(idx as int, (log_name@, new_cols)));
            lemma_lookup_update(mid, idx as int, log_name@, new_cols);
        }
    }

    /// Empties the registry and hands back its entries (log name and columns),
    /// in the order the logs were first registered.
    pub fn take_entries(&mut self) -> (entries: Vec<(String, Vec<String>)>)
        ensures
            entry_views(entries@) == old(self).view_entries(),
            forall|n: Seq<char>| #[trigger] final(self).columns_for(n) is None,
    {
        let mut taken = Vec::new();
        std::mem::swap(&mut taken, &mut self.entries);
        taken
    }
}

} // verus!
