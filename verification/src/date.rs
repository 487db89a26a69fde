//! Calendar dates as day numbers, with the calls into `chrono` that read,
//! write and fetch them.
use chrono::Datelike;
use vstd::prelude::*;

use crate::text::{all_ascii, ascii_lower, chars_of, is_ws, lower, str_eq, to_lowercase, trim, trim_range, string_of_range};

verus! {

/// The day number (days since the common era, January 1 of year 1 being day 1)
/// of the earliest date that `chrono::NaiveDate` holds, January 1 of year -262143.
pub const MIN_DAY: i32 = -95746129i32;

/// The day number of the latest date that `chrono::NaiveDate` holds,
/// December 31 of year 262142.
pub const MAX_DAY: i32 = 95745399i32;

/// Whether `d` is the day number of a date `chrono` can hold.
pub open spec fn valid_day(d: int) -> bool {
    MIN_DAY <= d <= MAX_DAY
}

/// A calendar date of the proleptic Gregorian calendar, held as its day number.
#[derive(Clone, Copy, Debug, PartialEq, Eq, Structural, PartialOrd, Ord, Hash)]
pub struct Date {
    days: i32,
}

impl Date {
    #[verifier::type_invariant]
    spec fn in_range(self) -> bool {
        valid_day(self.days as int)
    }

    /// The day number of the date.
    pub closed spec fn day(self) -> int {
        self.days as int
    }

    /// The day number of the date (January 1 of year 1 is day 1).
    pub fn days(&self) -> (r: i32)
        ensures
            r as int == self.day(),
            valid_day(r as int),
    {
        proof {
            use_type_invariant(self);
        }
        self.days
    }

    /// The date with the given day number, where `chrono` can hold it.
    pub fn from_days(days: i32) -> (r: Option<Date>)
        ensures
            match r {
                Some(d) => valid_day(days as int) && d.day() == days,
                None => !valid_day(days as int),
            },
    {
        if MIN_DAY <= days && days <= MAX_DAY {
            Some(Date { days })
        } else {
            None
        }
    }

    /// The date `n` days after this one.
    pub fn add_days(&self, n: i32) -> (r: Date)
        requires
            0 <= n,
            valid_day(self.day() + n),
        ensures
            r.day() == self.day() + n,
    {
        proof {
            use_type_invariant(self);
        }
        Date { days: self.days + n }
    }

    /// The day of the week, counted from Monday.
    pub fn weekday(&self) -> (r: Weekday)
        ensures
            r.num_from_monday() == weekday_of(self.day()),
    {
        proof {
            use_type_invariant(self);
        }
        let shifted: i64 = self.days as i64 - 1 + 98000000i64;
        let k = (shifted % 7) as u32;
        assert(weekday_of(self.day()) == k) by {
            assert(shifted == self.day() - 1 + 7 * 14000000);
        }
        Weekday::from_num_from_monday(k)
    }

    /// The date written as `YYYY-MM-DD`, as `chrono` formats it.
    pub fn format_ymd(&self) -> (r: String)
        ensures
            r@ == chrono_format_ymd(self.day()),
            chrono_parse_ymd(r@) == Some(self.day()),
            r@.len() > 0,
            forall|i: int| 0 <= i < r@.len() ==> is_date_char(#[trigger] r@[i]),
    {
        proof {
            use_type_invariant(self);
        }
        chrono_format(self.days)
    }

    /// Reads a date written as `YYYY-MM-DD`, as `chrono` reads it.
    pub fn parse_ymd(s: &str) -> (r: Option<Date>)
        ensures
            match r {
                Some(d) => chrono_parse_ymd(s@) == Some(d.day()),
                None => chrono_parse_ymd(s@) is None,
            },
    {
        match chrono_parse(s) {
            Some(n) => Some(Date { days: n }),
            None => None,
        }
    }
}

/// The day of the week of day number `d`, Monday being 0: January 1 of year 1
/// (day 1) was a Monday.
pub open spec fn weekday_of(d: int) -> int {
    (d - 1) % 7
}

/// A character that `chrono` writes in a `%Y-%m-%d` date.
pub open spec fn is_date_char(c: char) -> bool {
    ('0' <= c && c <= '9') || c == '-' || c == '+'
}

/// A day of the week.
#[derive(Clone, Copy, Debug, PartialEq, Eq, Structural)]
pub enum Weekday {
    Mon,
    Tue,
    Wed,
    Thu,
    Fri,
    Sat,
    Sun,
}

impl Weekday {
    /// The number of days from Monday (Monday is 0).
    pub open spec fn num_from_monday(self) -> int {
        match self {
            Weekday::Mon => 0,
            Weekday::Tue => 1,
            Weekday::Wed => 2,
            Weekday::Thu => 3,
            Weekday::Fri => 4,
            Weekday::Sat => 5,
            Weekday::Sun => 6,
        }
    }

    /// The number of days from Monday (Monday is 0).
    pub fn num_days_from_monday(&self) -> (r: u32)
        ensures
            r == self.num_from_monday(),
    {
        match self {
            Weekday::Mon => 0,
            Weekday::Tue => 1,
            Weekday::Wed => 2,
            Weekday::Thu => 3,
            Weekday::Fri => 4,
            Weekday::Sat => 5,
            Weekday::Sun => 6,
        }
    }

    /// The weekday `k` days after Monday.
    pub fn from_num_from_monday(k: u32) -> (r: Weekday)
        requires
            k < 7,
        ensures
            r.num_from_monday() == k,
    {
        if k == 0 {
            Weekday::Mon
        } else if k == 1 {
            Weekday::Tue
        } else if k == 2 {
            Weekday::Wed
        } else if k == 3 {
            Weekday::Thu
        } else if k == 4 {
            Weekday::Fri
        } else if k == 5 {
            Weekday::Sat
        } else {
            Weekday::Sun
        }
    }
}

/// The days from `current` forward to the next `target`, a full week when they are the same day.
pub open spec fn days_to_next(current: int, target: int) -> int {
    let diff = (target + 7 - current) % 7;
    if diff == 0 {
        7
    } else {
        diff
    }
}

/// The first date after `from` that falls on `target`: one to seven days later.
pub fn next_weekday(from: Date, target: Weekday) -> (r: Date)
    requires
        valid_day(from.day() + 7),
    ensures
        r.day() == from.day() + days_to_next(weekday_of(from.day()), target.num_from_monday()),
        from.day() < r.day() <= from.day() + 7,
        weekday_of(r.day()) == target.num_from_monday(),
{
    proof {
        use_type_invariant(&from);
    }
    let current = from.weekday();
    let diff = (target.num_days_from_monday() + 7 - current.num_days_from_monday()) % 7;
    let r = if diff == 0 {
        from.add_days(7)
    } else {
        from.add_days(diff as i32)
    };
    proof {
        let c = weekday_of(from.day());
        let t = target.num_from_monday();
        assert(0 <= c < 7);
        assert((from.day() + 7 - 1) % 7 == c) by {
            assert(from.day() + 7 - 1 == (from.day() - 1) + 7);
        }
        assert(r.day() - 1 == (from.day() - 1) + days_to_next(c, t));
        assert(weekday_of(r.day()) == t) by {
            let q = (from.day() - 1) / 7;
            assert(from.day() - 1 == 7 * q + c);
            if diff == 0 {
                assert(t == c);
                assert(r.day() - 1 == 7 * (q + 1) + c);
            } else {
                assert(r.day() - 1 == 7 * q + c + diff);
                if c + diff < 7 {
                    assert(t == c + diff);
                } else {
                    assert(t == c + diff - 7);
                    assert(r.day() - 1 == 7 * (q + 1) + t);
                }
            }
        }
    }
    r
}

/// What `chrono` reads from `s` with the format `%Y-%m-%d`: the day number of
/// the date, or nothing where `s` holds none.
pub uninterp spec fn chrono_parse_ymd(s: Seq<char>) -> Option<int>;

/// What `chrono` writes for day number `d` with the format `%Y-%m-%d`.
pub uninterp spec fn chrono_format_ymd(d: int) -> Seq<char>;

/// `chrono::NaiveDate::parse_from_str(s, "%Y-%m-%d")`, the date taken to its day
/// number (`Datelike::num_days_from_ce`). The contract names the result and
/// adds only that a date `chrono` returns lies in its range.
#[verifier::external_body]
fn chrono_parse(s: &str) -> (r: Option<i32>)
    ensures
        match r {
            Some(n) => chrono_parse_ymd(s@) == Some(n as int) && valid_day(n as int),
            None => chrono_parse_ymd(s@) is None,
        },
{
    match chrono::NaiveDate::parse_from_str(s, "%Y-%m-%d") {
        Ok(d) => Some(d.num_days_from_ce()),
        Err(_) => None,
    }
}

/// `chrono::NaiveDate::format(.., "%Y-%m-%d")` of the date with day number `d`
/// (`NaiveDate::from_num_days_from_ce_opt`, which gives a date for every day in
/// range). Besides naming the result, the contract states three facts that
/// chrono's formatter and parser show: the text is not empty, each of its
/// characters is a digit, `-` or `+`, and `parse_from_str` with the same
/// format reads it back as the same day. The layout of year, month and day
/// within the text is left to the name.
#[verifier::external_body]
fn chrono_format(d: i32) -> (r: String)
    requires
        valid_day(d as int),
    ensures
        r@ == chrono_format_ymd(d as int),
        chrono_parse_ymd(r@) == Some(d as int),
        r@.len() > 0,
        forall|i: int| 0 <= i < r@.len() ==> is_date_char(#[trigger] r@[i]),
{
    chrono::NaiveDate::from_num_days_from_ce_opt(d).unwrap().format("%Y-%m-%d").to_string()
}

/// `chrono::Local::now().date_naive()`, as a day number: the local date of the
/// moment of the call. Nothing is promised of it beyond that it is a date
/// `chrono` holds.
#[verifier::external_body]
fn chrono_today() -> (r: i32)
    ensures
        valid_day(r as int),
{
    chrono::Local::now().date_naive().num_days_from_ce()
}

/// Today's local date, as the clock reads it.
pub fn today() -> (r: Date)
    ensures
        valid_day(r.day()),
{
    Date { days: chrono_today() }
}


/// The text a date shortcut is matched against: trimmed, then lower-cased.
pub open spec fn cleaned(input: Seq<char>) -> Seq<char> {
    lower(trim(input))
}

/// The days from today that a shortcut for today, tomorrow or next week names.
pub open spec fn keyword_offset(c: Seq<char>) -> Option<int> {
    if c == "today"@ || c == "tod"@ || c == "t"@ {
        Some(0)
    } else if c == "tomorrow"@ || c == "tmr"@ || c == "tmw"@ || c == "tom"@ {
        Some(1)
    } else if c == "next week"@ || c == "nw"@ || c == "nextweek"@ {
        Some(7)
    } else {
        None
    }
}

/// The weekday (counted from Monday) that a weekday shortcut names.
pub open spec fn weekday_keyword(c: Seq<char>) -> Option<int> {
    if c == "sun"@ || c == "sunday"@ {
        Some(6)
    } else if c == "mon"@ || c == "monday"@ {
        Some(0)
    } else if c == "tue"@ || c == "tuesday"@ {
        Some(1)
    } else if c == "wed"@ || c == "wednesday"@ {
        Some(2)
    } else if c == "thu"@ || c == "thursday"@ {
        Some(3)
    } else if c == "fri"@ || c == "friday"@ {
        Some(4)
    } else if c == "sat"@ || c == "saturday"@ {
        Some(5)
    } else {
        None
    }
}

/// Whether the input is a shortcut whose date depends on today's.
pub open spec fn is_relative(input: Seq<char>) -> bool {
    let c = cleaned(input);
    c.len() > 0 && (keyword_offset(c) is Some || weekday_keyword(c) is Some)
}

/// The date (a day number) that a due-date input names when today is day `today`.
pub open spec fn resolve_on(input: Seq<char>, today: int) -> Option<int> {
    let c = cleaned(input);
    if c.len() == 0 {
        None
    } else if let Some(k) = keyword_offset(c) {
        Some(today + k)
    } else if let Some(w) = weekday_keyword(c) {
        Some(today + days_to_next(weekday_of(today), w))
    } else {
        chrono_parse_ymd(c)
    }
}

/// The input trimmed and lower-cased.
pub(crate) fn cleaned_exec(input: &str) -> (r: String)
    ensures
        r@ == cleaned(input@),
{
    let v = chars_of(input);
    let (a, b) = trim_range(&v, 0, v.len());
    assert(v@.subrange(0, v@.len() as int) =~= v@);
    let t = string_of_range(&v, a, b);
    to_lowercase(t.as_str())
}

/// The weekday a shortcut names, if it names one.
pub(crate) fn weekday_keyword_exec(c: &str) -> (r: Option<Weekday>)
    ensures
        match r {
            Some(w) => weekday_keyword(c@) == Some(w.num_from_monday()),
            None => weekday_keyword(c@) is None,
        },
{
    if str_eq(c, "sun") || str_eq(c, "sunday") {
        Some(Weekday::Sun)
    } else if str_eq(c, "mon") || str_eq(c, "monday") {
        Some(Weekday::Mon)
    } else if str_eq(c, "tue") || str_eq(c, "tuesday") {
        Some(Weekday::Tue)
    } else if str_eq(c, "wed") || str_eq(c, "wednesday") {
        Some(Weekday::Wed)
    } else if str_eq(c, "thu") || str_eq(c, "thursday") {
        Some(Weekday::Thu)
    } else if str_eq(c, "fri") || str_eq(c, "friday") {
        Some(Weekday::Fri)
    } else if str_eq(c, "sat") || str_eq(c, "saturday") {
        Some(Weekday::Sat)
    } else {
        None
    }
}

/// The days a today/tomorrow/next-week shortcut adds, if it is one.
pub(crate) fn keyword_offset_exec(c: &str) -> (r: Option<i32>)
    ensures
        match r {
            Some(k) => keyword_offset(c@) == Some(k as int),
            None => keyword_offset(c@) is None,
        },
{
    if str_eq(c, "today") || str_eq(c, "tod") || str_eq(c, "t") {
        Some(0)
    } else if str_eq(c, "tomorrow") || str_eq(c, "tmr") || str_eq(c, "tmw") || str_eq(c, "tom") {
        Some(1)
    } else if str_eq(c, "next week") || str_eq(c, "nw") || str_eq(c, "nextweek") {
        Some(7)
    } else {
        None
    }
}

/// The date a due-date input names, `today` being today's date: a shortcut
/// (`today`, `tomorrow`, `next week`, a weekday and their short forms, in any
/// case) or a `YYYY-MM-DD` date.
pub fn resolve_relative_date_on(input: &str, today: Date) -> (r: Option<Date>)
    requires
        is_relative(input@) ==> valid_day(today.day() + 7),
    ensures
        match r {
            Some(d) => resolve_on(input@, today.day()) == Some(d.day()),
            None => resolve_on(input@, today.day()) is None,
        },
{
    proof {
        use_type_invariant(&today);
    }
    let c = cleaned_exec(input);
    if c.as_str().is_empty() {
        return None;
    }
    match keyword_offset_exec(c.as_str()) {
        Some(k) => {
            return Some(today.add_days(k));
        },
        None => {},
    }
    match weekday_keyword_exec(c.as_str()) {
        Some(w) => {
            return Some(next_weekday(today, w));
        },
        None => {},
    }
    Date::parse_ymd(c.as_str())
}

/// Whether the input is a shortcut relative to today.
pub fn is_relative_exec(input: &str) -> (r: bool)
    ensures
        r == is_relative(input@),
{
    let c = cleaned_exec(input);
    !c.as_str().is_empty() && (keyword_offset_exec(c.as_str()).is_some() || weekday_keyword_exec(
        c.as_str(),
    ).is_some())
}

/// What holds of the date (a day number) that a due-date input gives on a day
/// the clock may read: an input that is not a shortcut gives the same on every
/// day; a shortcut gives its date for some day `chrono` holds, or nothing.
pub open spec fn resolves_to(input: Seq<char>, r: Option<int>) -> bool {
    &&& !is_relative(input) ==> match r {
        Some(d) => forall|t: int| resolve_on(input, t) == Some(d),
        None => forall|t: int| resolve_on(input, t) is None,
    }
    &&& is_relative(input) ==> match r {
        Some(d) => exists|t: int| valid_day(t) && resolve_on(input, t) == Some(d),
        None => true,
    }
}

/// The date a due-date input names, reading today's local date from the clock.
/// An input that is not a shortcut gives the same as on any day; a shortcut
/// gives its date for the day read, or nothing when that date would pass the
/// last date `chrono` holds.
pub fn resolve_relative_date(input: &str) -> (r: Option<Date>)
    ensures
        resolves_to(
            input@,
            match r {
                Some(d) => Some(d.day()),
                None => None,
            },
        ),
{
    let today = today();
    proof {
        use_type_invariant(&today);
    }
    if is_relative_exec(input) && today.days() > MAX_DAY - 7 {
        return None;
    }
    resolve_relative_date_on(input, today)
}


/// A word names a date on one day exactly when it names one on any other day.
pub proof fn lemma_resolve_names_date(word: Seq<char>, today: int)
    ensures
        (chrono_parse_ymd(word) is Some || resolve_on(word, today) is Some) == (
        chrono_parse_ymd(word) is Some || cleaned(word).len() > 0 && (keyword_offset(
            cleaned(word),
        ) is Some || weekday_keyword(cleaned(word)) is Some || chrono_parse_ymd(cleaned(word)) is Some)),
{
}

/// A weekday shortcut names the next day, after today, that falls on that
/// weekday: one to seven days later.
pub proof fn lemma_weekday_shortcut(input: Seq<char>, today: int)
    requires
        cleaned(input).len() > 0,
        keyword_offset(cleaned(input)) is None,
        weekday_keyword(cleaned(input)) is Some,
    ensures
        resolve_on(input, today) matches Some(d) && today < d <= today + 7 && weekday_of(d)
            == weekday_keyword(cleaned(input))->0,
{
    let t = weekday_keyword(cleaned(input))->0;
    let c = weekday_of(today);
    assert(0 <= t < 7);
    assert(0 <= c < 7);
    let k = days_to_next(c, t);
    let d = today + k;
    assert(resolve_on(input, today) == Some(d));
    let q = (today - 1) / 7;
    assert(today - 1 == 7 * q + c);
    let diff = (t + 7 - c) % 7;
    if diff == 0 {
        assert(t == c);
        assert(d - 1 == 7 * (q + 1) + c);
    } else {
        assert(d - 1 == 7 * q + c + diff);
        if c + diff < 7 {
            assert(t == c + diff);
        } else {
            assert(t == c + diff - 7);
            assert(d - 1 == 7 * (q + 1) + t);
        }
    }
}

/// The day shortcuts, in any ASCII case and with whitespace around them: on
/// day `today`, `today`, `tod` and `t` name today; `tomorrow`, `tmr`, `tmw`
/// and `tom` the next day; `next week`, `nw` and `nextweek` the day a week on.
pub proof fn lemma_day_shortcut_words(input: Seq<char>, today: int)
    requires
        all_ascii(trim(input)),
    ensures
        ({
            let c = ascii_lower(trim(input));
            &&& (c == "today"@ || c == "tod"@ || c == "t"@) ==> resolve_on(input, today) == Some(today)
            &&& (c == "tomorrow"@ || c == "tmr"@ || c == "tmw"@ || c == "tom"@) ==> resolve_on(input, today) == Some(today + 1)
            &&& (c == "next week"@ || c == "nw"@ || c == "nextweek"@) ==> resolve_on(input, today) == Some(today + 7)
        }),
{
    reveal_strlit("today");
    reveal_strlit("tod");
    reveal_strlit("t");
    reveal_strlit("tomorrow");
    reveal_strlit("tmr");
    reveal_strlit("tmw");
    reveal_strlit("tom");
    reveal_strlit("next week");
    reveal_strlit("nw");
    reveal_strlit("nextweek");
    reveal_strlit("mon");
    reveal_strlit("monday");
    reveal_strlit("tue");
    reveal_strlit("tuesday");
    reveal_strlit("wed");
    reveal_strlit("wednesday");
    reveal_strlit("thu");
    reveal_strlit("thursday");
    reveal_strlit("fri");
    reveal_strlit("friday");
    reveal_strlit("sat");
    reveal_strlit("saturday");
    reveal_strlit("sun");
    reveal_strlit("sunday");
    let c = ascii_lower(trim(input));
    assert(cleaned(input) == c);
    if c == "today"@ {
        assert(c =~= seq!['t', 'o', 'd', 'a', 'y']);
        assert(keyword_offset(c) == Some(0int));
    }
    if c == "tod"@ {
        assert(c =~= seq!['t', 'o', 'd']);
        assert(keyword_offset(c) == Some(0int));
    }
    if c == "t"@ {
        assert(c =~= seq!['t']);
        assert(keyword_offset(c) == Some(0int));
    }
    if c == "tomorrow"@ {
        assert(c =~= seq!['t', 'o', 'm', 'o', 'r', 'r', 'o', 'w']);
        assert(keyword_offset(c) == Some(1int));
    }
    if c == "tmr"@ {
        assert(c =~= seq!['t', 'm', 'r']);
        assert(keyword_offset(c) == Some(1int));
    }
    if c == "tmw"@ {
        assert(c =~= seq!['t', 'm', 'w']);
        assert(keyword_offset(c) == Some(1int));
    }
    if c == "tom"@ {
        assert(c =~= seq!['t', 'o', 'm']);
        assert(keyword_offset(c) == Some(1int));
    }
    if c == "next week"@ {
        assert(c =~= seq!['n', 'e', 'x', 't', ' ', 'w', 'e', 'e', 'k']);
        assert(keyword_offset(c) == Some(7int));
    }
    if c == "nw"@ {
        assert(c =~= seq!['n', 'w']);
        assert(keyword_offset(c) == Some(7int));
    }
    if c == "nextweek"@ {
        assert(c =~= seq!['n', 'e', 'x', 't', 'w', 'e', 'e', 'k']);
        assert(keyword_offset(c) == Some(7int));
    }
}

/// The weekday shortcuts, in any ASCII case and with whitespace around them:
/// `mon`/`monday` to `sun`/`sunday` name the next day after today, one to
/// seven days on, that falls on that weekday (Monday counted 0).
pub proof fn lemma_weekday_shortcut_words(input: Seq<char>, today: int)
    requires
        all_ascii(trim(input)),
    ensures
        ({
            let c = ascii_lower(trim(input));
            &&& (c == "mon"@ || c == "monday"@) ==> (resolve_on(input, today) matches Some(d) && today < d
                <= today + 7 && weekday_of(d) == 0)
            &&& (c == "tue"@ || c == "tuesday"@) ==> (resolve_on(input, today) matches Some(d) && today < d
                <= today + 7 && weekday_of(d) == 1)
            &&& (c == "wed"@ || c == "wednesday"@) ==> (resolve_on(input, today) matches Some(d) && today < d
                <= today + 7 && weekday_of(d) == 2)
            &&& (c == "thu"@ || c == "thursday"@) ==> (resolve_on(input, today) matches Some(d) && today < d
                <= today + 7 && weekday_of(d) == 3)
            &&& (c == "fri"@ || c == "friday"@) ==> (resolve_on(input, today) matches Some(d) && today < d
                <= today + 7 && weekday_of(d) == 4)
            &&& (c == "sat"@ || c == "saturday"@) ==> (resolve_on(input, today) matches Some(d) && today < d
                <= today + 7 && weekday_of(d) == 5)
            &&& (c == "sun"@ || c == "sunday"@) ==> (resolve_on(input, today) matches Some(d) && today < d
                <= today + 7 && weekday_of(d) == 6)
        }),
{
    reveal_strlit("today");
    reveal_strlit("tod");
    reveal_strlit("t");
    reveal_strlit("tomorrow");
    reveal_strlit("tmr");
    reveal_strlit("tmw");
    reveal_strlit("tom");
    reveal_strlit("next week");
    reveal_strlit("nw");
    reveal_strlit("nextweek");
    reveal_strlit("mon");
    reveal_strlit("monday");
    reveal_strlit("tue");
    reveal_strlit("tuesday");
    reveal_strlit("wed");
    reveal_strlit("wednesday");
    reveal_strlit("thu");
    reveal_strlit("thursday");
    reveal_strlit("fri");
    reveal_strlit("friday");
    reveal_strlit("sat");
    reveal_strlit("saturday");
    reveal_strlit("sun");
    reveal_strlit("sunday");
    let c = ascii_lower(trim(input));
    assert(cleaned(input) == c);
    if c == "mon"@ {
        assert(c =~= seq!['m', 'o', 'n']);
        assert(keyword_offset(c) is None);
        assert(weekday_keyword(c) == Some(0int));
        lemma_weekday_shortcut(input, today);
    }
    if c == "monday"@ {
        assert(c =~= seq!['m', 'o', 'n', 'd', 'a', 'y']);
        assert(keyword_offset(c) is None);
        assert(weekday_keyword(c) == Some(0int));
        lemma_weekday_shortcut(input, today);
    }
    if c == "tue"@ {
        assert(c =~= seq!['t', 'u', 'e']);
        assert(keyword_offset(c) is None);
        assert(weekday_keyword(c) == Some(1int));
        lemma_weekday_shortcut(input, today);
    }
    if c == "tuesday"@ {
        assert(c =~= seq!['t', 'u', 'e', 's', 'd', 'a', 'y']);
        assert(keyword_offset(c) is None);
        assert(weekday_keyword(c) == Some(1int));
        lemma_weekday_shortcut(input, today);
    }
    if c == "wed"@ {
        assert(c =~= seq!['w', 'e', 'd']);
        assert(keyword_offset(c) is None);
        assert(weekday_keyword(c) == Some(2int));
        lemma_weekday_shortcut(input, today);
    }
    if c == "wednesday"@ {
        assert(c =~= seq!['w', 'e', 'd', 'n', 'e', 's', 'd', 'a', 'y']);
        assert(keyword_offset(c) is None);
        assert(weekday_keyword(c) == Some(2int));
        lemma_weekday_shortcut(input, today);
    }
    if c == "thu"@ {
        assert(c =~= seq!['t', 'h', 'u']);
        assert(keyword_offset(c) is None);
        assert(weekday_keyword(c) == Some(3int));
        lemma_weekday_shortcut(input, today);
    }
    if c == "thursday"@ {
        assert(c =~= seq!['t', 'h', 'u', 'r', 's', 'd', 'a', 'y']);
        assert(keyword_offset(c) is None);
        assert(weekday_keyword(c) == Some(3int));
        lemma_weekday_shortcut(input, today);
    }
    if c == "fri"@ {
        assert(c =~= seq!['f', 'r', 'i']);
        assert(keyword_offset(c) is None);
        assert(weekday_keyword(c) == Some(4int));
        lemma_weekday_shortcut(input, today);
    }
    if c == "friday"@ {
        assert(c =~= seq!['f', 'r', 'i', 'd', 'a', 'y']);
        assert(keyword_offset(c) is None);
        assert(weekday_keyword(c) == Some(4int));
        lemma_weekday_shortcut(input, today);
    }
    if c == "sat"@ {
        assert(c =~= seq!['s', 'a', 't']);
        assert(keyword_offset(c) is None);
        assert(weekday_keyword(c) == Some(5int));
        lemma_weekday_shortcut(input, today);
    }
    if c == "saturday"@ {
        assert(c =~= seq!['s', 'a', 't', 'u', 'r', 'd', 'a', 'y']);
        assert(keyword_offset(c) is None);
        assert(weekday_keyword(c) == Some(5int));
        lemma_weekday_shortcut(input, today);
    }
    if c == "sun"@ {
        assert(c =~= seq!['s', 'u', 'n']);
        assert(keyword_offset(c) is None);
        assert(weekday_keyword(c) == Some(6int));
        lemma_weekday_shortcut(input, today);
    }
    if c == "sunday"@ {
        assert(c =~= seq!['s', 'u', 'n', 'd', 'a', 'y']);
        assert(keyword_offset(c) is None);
        assert(weekday_keyword(c) == Some(6int));
        lemma_weekday_shortcut(input, today);
    }
}

}
