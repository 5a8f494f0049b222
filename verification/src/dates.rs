use vstd::prelude::*;
use vstd::string::StringExecFns;
use chrono::{Datelike, Days, NaiveDate, NaiveDateTime, ParseError, TimeDelta, Timelike};
use calcard::icalendar::{ICalendarComponentType as Kind, ICalendarValue::PartialDateTime};
use calcard::{Entry, Parser};
use crate::ics::RawIcsComponent;
use crate::text::{decimal, push_char, push_signed_decimal, push_zero_padded, signed_decimal, zero_padded};

verus! {

/// The first and last years chrono's `NaiveDate` can hold.
pub const MIN_YEAR: i32 = -262143;
pub const MAX_YEAR: i32 = 262142;

pub open spec fn is_leap_year(y: int) -> bool {
    (y % 4 == 0 && y % 100 != 0) || y % 400 == 0
}

pub open spec fn days_in_month(y: int, m: int) -> int {
    if m == 2 {
        if is_leap_year(y) { 29 } else { 28 }
    } else if m == 4 || m == 6 || m == 9 || m == 11 {
        30
    } else {
        31
    }
}

/// A date of the proleptic Gregorian calendar within chrono's range.
pub open spec fn valid_date(y: int, m: int, d: int) -> bool {
    &&& MIN_YEAR <= y <= MAX_YEAR
    &&& 1 <= m <= 12
    &&& 1 <= d <= days_in_month(y, m)
}

/// The number of days from 1970-01-01 to the given date of the proleptic
/// Gregorian calendar (negative before it).
pub open spec fn days_from_civil(y: int, m: int, d: int) -> int {
    let y1 = if m <= 2 { y - 1 } else { y };
    let era = y1 / 400;
    let yoe = y1 - era * 400;
    let mp = if m > 2 { m - 3 } else { m + 9 };
    let doy = (153 * mp + 2) / 5 + d - 1;
    let doe = yoe * 365 + yoe / 4 - yoe / 100 + doy;
    era * 146097 + doe - 719468
}

/// The day numbers of chrono's first and last dates.
pub open spec fn min_day() -> int {
    days_from_civil(MIN_YEAR as int, 1, 1)
}

pub open spec fn max_day() -> int {
    days_from_civil(MAX_YEAR as int, 12, 31)
}

/// The weekday of a day number, counted from Monday = 0 (1970-01-01 was a Thursday).
pub open spec fn weekday_from_monday(day: int) -> int {
    (day + 3) % 7
}

/// The year of the proleptic Gregorian calendar that holds the day with this
/// day number (the inverse of `days_from_civil` on years).
pub open spec fn year_of_day(day: int) -> int {
    let z = day + 719468;
    let era = z / 146097;
    let doe = z - era * 146097;
    let yoe = (doe - doe / 1460 + doe / 36524 - doe / 146096) / 365;
    let doy = doe - (365 * yoe + yoe / 4 - yoe / 100);
    let mp = (5 * doy + 2) / 153;
    let y = yoe + era * 400;
    if mp >= 10 { y + 1 } else { y }
}

/// The ISO 8601 week number of the date with this day number: a week runs from
/// Monday to Sunday and belongs to the year that holds its Thursday; week 1 is
/// the week with that year's first Thursday.
pub open spec fn iso_week_number(day: int) -> int {
    let thursday = day - weekday_from_monday(day) + 3;
    (thursday - days_from_civil(year_of_day(thursday), 1, 1)) / 7 + 1
}

/// A calendar date (year, month, day) that chrono can represent.
#[derive(Clone, Copy, Debug, PartialEq, Eq, Structural)]
pub struct CalDate {
    year: i32,
    month: u32,
    day: u32,
}

impl View for CalDate {
    type V = int;

    /// A date is seen as its day number: days since 1970-01-01.
    open spec fn view(&self) -> int {
        days_from_civil(self.spec_year() as int, self.spec_month() as int, self.spec_day() as int)
    }
}

impl CalDate {
    pub closed spec fn spec_year(&self) -> i32 {
        self.year
    }

    pub closed spec fn spec_month(&self) -> u32 {
        self.month
    }

    pub closed spec fn spec_day(&self) -> u32 {
        self.day
    }

    pub open spec fn wf(&self) -> bool {
        valid_date(self.spec_year() as int, self.spec_month() as int, self.spec_day() as int)
    }

    /// The date with this year, month and day, if it exists in chrono's range.
    pub fn from_ymd(year: i32, month: u32, day: u32) -> (d: Option<CalDate>)
        ensures
            d is Some <==> valid_date(year as int, month as int, day as int),
            d matches Some(d) ==> d.wf() && d.spec_year() == year && d.spec_month() == month && d.spec_day() == day,
    {
        chrono_from_ymd(year, month, day)
    }

    pub fn year(&self) -> (y: i32)
        ensures
            y == self.spec_year(),
    {
        self.year
    }

    pub fn month(&self) -> (m: u32)
        ensures
            m == self.spec_month(),
    {
        self.month
    }

    pub fn day(&self) -> (d: u32)
        ensures
            d == self.spec_day(),
    {
        self.day
    }

    /// The weekday, counted from Monday = 0.
    pub fn num_days_from_monday(&self) -> (w: u32)
        requires
            self.wf(),
        ensures
            w == weekday_from_monday(self@),
    {
        chrono_weekday(self)
    }

    /// The number of days from `other` to `self`.
    pub fn days_since(&self, other: &CalDate) -> (n: i64)
        requires
            self.wf(),
            other.wf(),
        ensures
            n == self@ - other@,
    {
        chrono_days_since(self, other)
    }

    /// The date `days` days later, if chrono can hold it.
    pub fn checked_add_days(&self, days: u64) -> (d: Option<CalDate>)
        requires
            self.wf(),
        ensures
            d is Some <==> self@ + days <= max_day(),
            d matches Some(d) ==> d.wf() && d@ == self@ + days,
    {
        chrono_add_days(self, days)
    }
}

/// A date with a time of day (seconds precision).
#[derive(Clone, Copy, Debug, PartialEq, Eq, Structural)]
pub struct CalDateTime {
    pub date: CalDate,
    pub hour: u32,
    pub minute: u32,
    pub second: u32,
}

impl CalDateTime {
    pub open spec fn wf(&self) -> bool {
        &&& self.date.wf()
        &&& self.hour < 24
        &&& self.minute < 60
        &&& self.second < 60
    }

    /// Day number, hour, minute and second.
    pub open spec fn parts(&self) -> (int, u32, u32, u32) {
        (self.date@, self.hour, self.minute, self.second)
    }
}

#[verifier::external_type_specification]
#[verifier::external_body]
pub struct ExParseError(ParseError);

/// What `NaiveDateTime::parse_from_str(text, format)` reads from `text`: the day
/// number, hour, minute and second of the date-time, or `None` when the text does
/// not match the format.
pub uninterp spec fn parsed_datetime(text: Seq<char>, format: Seq<char>) -> Option<(int, u32, u32, u32)>;

/// `NaiveDateTime::parse_from_str`, keeping the date and the time to the second.
#[verifier::external_body]
pub(crate) fn chrono_parse_datetime(text: &str, format: &str) -> (r: Result<CalDateTime, ParseError>)
    ensures
        r is Ok <==> parsed_datetime(text@, format@) is Some,
        r matches Ok(dt) ==> dt.wf() && dt.parts() == parsed_datetime(text@, format@)->0,
{
    NaiveDateTime::parse_from_str(text, format).map(
        |n| CalDateTime {
            date: CalDate { year: n.year(), month: n.month(), day: n.day() },
            hour: n.hour(),
            minute: n.minute(),
            second: n.second(),
        },
    )
}

/// What calcard's parser reads from the text of a calendar file: the components
/// of every calendar in it, in file order (see `ics_raw_components`).
pub uninterp spec fn parsed_ics(input: Seq<char>) -> Seq<RawIcsComponent>;

/// `calcard::Parser::entry`, called until the end of the text: the components of
/// every calendar the text holds, in file order. Each comes as whether it is an
/// event and its entries; an entry as its property name (`as_str`) and values; a
/// date-time value as the local date-time it stands for (`to_date_time`, in
/// seconds since 1970-01-01 00:00 of the same clock), `has_time` and
/// `to_rfc3339`; any other value as `as_text`. What the parser reads is named, not stated.
#[verifier::external_body]
pub fn ics_raw_components(input: &str) -> (components: Vec<RawIcsComponent>)
    ensures
        components@ == parsed_ics(input@),
{
    let (mut parser, mut out) = (Parser::new(input), vec![]);
    loop {
        match parser.entry() {
            Entry::ICalendar(cal) => out.extend(cal.components.iter().map(|c| (c.component_type == Kind::VEvent, c.entries.iter().map(|e| (e.name.as_str().into(), e.values.iter().map(|v| match v { PartialDateTime(d) => Ok((d.to_date_time().map(|t| t.date_time.and_utc().timestamp()), d.has_time(), d.to_rfc3339())), v => Err(v.as_text().map(Into::into)) }).collect())).collect()))),
            Entry::Eof => return out,
            _ => {}
        }
    }
}

/// `NaiveDate::from_ymd_opt`: the date exists iff the month is 1 to 12, the day
/// exists in that month (Gregorian leap years) and the year is within chrono's range.
#[verifier::external_body]
fn chrono_from_ymd(year: i32, month: u32, day: u32) -> (d: Option<CalDate>)
    ensures
        d is Some <==> valid_date(year as int, month as int, day as int),
        d matches Some(d) ==> d.wf() && d.spec_year() == year && d.spec_month() == month && d.spec_day() == day,
{
    NaiveDate::from_ymd_opt(year, month, day).map(|n| CalDate { year: n.year(), month: n.month(), day: n.day() })
}

/// `NaiveDate::checked_add_days`: the date `days` later; `None` past chrono's last date.
#[verifier::external_body]
fn chrono_add_days(d: &CalDate, days: u64) -> (r: Option<CalDate>)
    requires
        d.wf(),
    ensures
        r is Some <==> d@ + days <= max_day(),
        r matches Some(r) ==> r.wf() && r@ == d@ + days,
{
    NaiveDate::from_ymd_opt(d.year, d.month, d.day).unwrap().checked_add_days(Days::new(days)).map(
        |n| CalDate { year: n.year(), month: n.month(), day: n.day() },
    )
}

/// `NaiveDate::checked_add_signed` with `TimeDelta::days(days)`: the date `days`
/// later (earlier when negative); `None` outside chrono's range. `TimeDelta::days`
/// panics beyond about 106751991167 days, so those are not accepted.
#[verifier::external_body]
fn chrono_add_signed_days(d: &CalDate, days: i64) -> (r: Option<CalDate>)
    requires
        d.wf(),
        -106751991167 <= days <= 106751991167,
    ensures
        r is Some <==> min_day() <= d@ + days <= max_day(),
        r matches Some(r) ==> r.wf() && r@ == d@ + days,
{
    NaiveDate::from_ymd_opt(d.year, d.month, d.day).unwrap().checked_add_signed(TimeDelta::days(days)).map(
        |n| CalDate { year: n.year(), month: n.month(), day: n.day() },
    )
}

/// `Weekday::num_days_from_monday` of `Datelike::weekday`.
#[verifier::external_body]
fn chrono_weekday(d: &CalDate) -> (w: u32)
    requires
        d.wf(),
    ensures
        w == weekday_from_monday(d@),
{
    NaiveDate::from_ymd_opt(d.year, d.month, d.day).unwrap().weekday().num_days_from_monday()
}

/// `NaiveDate::signed_duration_since(..).num_days()`: the days between two dates.
#[verifier::external_body]
fn chrono_days_since(a: &CalDate, b: &CalDate) -> (n: i64)
    requires
        a.wf(),
        b.wf(),
    ensures
        n == a@ - b@,
{
    let a = NaiveDate::from_ymd_opt(a.year, a.month, a.day).unwrap();
    let b = NaiveDate::from_ymd_opt(b.year, b.month, b.day).unwrap();
    a.signed_duration_since(b).num_days()
}

/// `IsoWeek::week` of `Datelike::iso_week`: the ISO 8601 week number of the
/// date (1 to 53), counted in the year that holds the Thursday of its week.
#[verifier::external_body]
fn chrono_iso_week(d: &CalDate) -> (w: u32)
    requires
        d.wf(),
    ensures
        w == iso_week_number(d@),
        1 <= w <= 53,
{
    NaiveDate::from_ymd_opt(d.year, d.month, d.day).unwrap().iso_week().week()
}


/// The ISO week numbers of `begin` and of the dates 7, 14, ... days after it,
/// `num_of_weeks` weeks in all, leaving out weeks past chrono's range.
pub open spec fn spec_weeknumbers(begin: int, num_of_weeks: nat) -> Seq<u32>
    decreases num_of_weeks,
{
    if num_of_weeks == 0 {
        Seq::empty()
    } else {
        let prev = spec_weeknumbers(begin, (num_of_weeks - 1) as nat);
        let day = begin + 7 * (num_of_weeks - 1);
        if day <= max_day() { prev.push(iso_week_number(day) as u32) } else { prev }
    }
}

/// Week numbers for `num_of_weeks` consecutive weeks starting at `begin`: one
/// per week, as far as chrono's range reaches.
pub fn get_weeknumbers(begin: CalDate, num_of_weeks: usize) -> (weeks: Vec<u32>)
    requires
        begin.wf(),
        num_of_weeks * 7 <= usize::MAX,
    ensures
        weeks@ == spec_weeknumbers(begin@, num_of_weeks as nat),
{
    let mut weeks: Vec<u32> = Vec::with_capacity(num_of_weeks);
    let mut i: usize = 0;
    while i < num_of_weeks
        invariant
            begin.wf(),
            i <= num_of_weeks,
            num_of_weeks * 7 <= usize::MAX,
            weeks@ == spec_weeknumbers(begin@, i as nat),
        decreases num_of_weeks - i,
    {
        if let Some(d) = begin.checked_add_days((i * 7) as u64) {
            weeks.push(chrono_iso_week(&d));
        }
        i += 1;
    }
    weeks
}

/// `how_many` consecutive dates starting at `begin` (at least `begin` itself).
pub fn get_dates(begin: CalDate, how_many: u32) -> (dates: Vec<CalDate>)
    requires
        begin.wf(),
        begin@ + how_many - 1 <= max_day(),
    ensures
        dates@.len() == if how_many == 0 { 1 } else { how_many as int },
        forall|i: int| 0 <= i < dates@.len() ==> (#[trigger] dates@[i]).wf() && dates@[i]@ == begin@ + i,
{
    let mut dates: Vec<CalDate> = Vec::with_capacity(how_many as usize);
    dates.push(begin);
    let mut i: u32 = 1;
    while i < how_many
        invariant
            begin.wf(),
            begin@ + how_many - 1 <= max_day(),
            1 <= i <= how_many || (how_many == 0 && i == 1),
            dates@.len() == i,
            forall|k: int| 0 <= k < dates@.len() ==> (#[trigger] dates@[k]).wf() && dates@[k]@ == begin@ + k,
        decreases how_many - i,
    {
        let next = begin.checked_add_days(i as u64).unwrap();
        dates.push(next);
        i += 1;
    }
    dates
}

/// The Monday of the week `week_offset` weeks away from the week of `today`.
pub open spec fn spec_visible_start(today: int, week_offset: int) -> int {
    today - weekday_from_monday(today) + 7 * week_offset
}

/// The first day shown on the calendar: the Monday of the week that lies
/// `week_offset` weeks from the week holding `today`.
pub fn visible_start_for_offset(today: CalDate, week_offset: i64) -> (start: CalDate)
    requires
        today.wf(),
        -15250284452 <= week_offset <= 15250284452,
        min_day() <= today@ - weekday_from_monday(today@),
        min_day() <= spec_visible_start(today@, week_offset as int) <= max_day(),
    ensures
        start.wf(),
        start@ == spec_visible_start(today@, week_offset as int),
{
    let back = chrono_weekday(&today) as i64;
    let monday = chrono_add_signed_days(&today, -back).unwrap();
    chrono_add_signed_days(&monday, week_offset * 7).unwrap()
}

/// The date-time `seconds` seconds after 1970-01-01 00:00:00 of a clock without
/// time zone, as day number, hour, minute and second; `None` past chrono's dates.
pub open spec fn spec_datetime_of_seconds(seconds: int) -> Option<(int, u32, u32, u32)> {
    let day = seconds / 86400;
    let rest = seconds % 86400;
    if min_day() <= day <= max_day() {
        Some((day, (rest / 3600) as u32, ((rest % 3600) / 60) as u32, (rest % 60) as u32))
    } else {
        None
    }
}

/// The date-time `seconds` seconds after 1970-01-01 00:00:00 (see
/// `spec_datetime_of_seconds`).
proof fn lemma_floor_parts(x: int, q: int, r: int)
    requires
        q * 86400 + r == x,
        0 <= r < 86400,
    ensures
        q == x / 86400,
        r == x % 86400,
{
    vstd::arithmetic::div_mod::lemma_fundamental_div_mod_converse(x, 86400, q, r);
}

pub fn datetime_of_seconds(seconds: i64) -> (r: Option<CalDateTime>)
    ensures
        r is Some <==> spec_datetime_of_seconds(seconds as int) is Some,
        r matches Some(t) ==> t.wf() && t.parts() == spec_datetime_of_seconds(seconds as int)->0,
{
    let (day, rest): (i64, i64) = if seconds >= 0 {
        let u = seconds as u64;
        proof {
            lemma_floor_parts(seconds as int, (u / 86400) as int, (u % 86400) as int);
        }
        ((u / 86400) as i64, (u % 86400) as i64)
    } else {
        let u = (-(seconds + 1)) as u64;
        let d = -((u / 86400) as i64) - 1;
        let r = 86399 - (u % 86400) as i64;
        proof {
            assert(d * 86400 + r == seconds) by (nonlinear_arith)
                requires
                    u == -(seconds + 1),
                    d == -(u / 86400) - 1,
                    r == 86399 - u % 86400,
                    u == 86400 * (u / 86400) + u % 86400,
            ;
            lemma_floor_parts(seconds as int, d as int, r as int);
        }
        (d, r)
    };
    if day < -106751991167 || day > 106751991167 {
        return None;
    }
    let epoch = CalDate { year: 1970, month: 1, day: 1 };
    assert(epoch@ == 0);
    match chrono_add_signed_days(&epoch, day) {
        Some(date) => {
            let t = CalDateTime { date, hour: (rest / 3600) as u32, minute: ((rest % 3600) / 60) as u32, second: (rest % 60) as u32 };
            Some(t)
        },
        None => None,
    }
}

/// The calendar always starts on a Monday, and moving the offset by one week moves
/// the start by exactly seven days; with no offset the start is not after today
/// and less than a week before it.
pub proof fn lemma_visible_start_whole_weeks(today: int, a: int, b: int)
    ensures
        weekday_from_monday(spec_visible_start(today, a)) == 0,
        spec_visible_start(today, b) - spec_visible_start(today, a) == 7 * (b - a),
        today - 7 < spec_visible_start(today, 0) <= today,
{
    let w = weekday_from_monday(today);
    assert(0 <= w < 7);
    assert((today + 3) == 7 * ((today + 3) / 7) + w);
    let m = today - w;
    assert((m + 3) % 7 == 0) by {
        assert(m + 3 == 7 * ((today + 3) / 7));
    }
    assert((m + 7 * a + 3) % 7 == 0) by {
        assert(m + 7 * a + 3 == 7 * ((today + 3) / 7 + a));
    }
}

/// The Dutch name of a month (1 to 12), in lower case.
pub open spec fn spec_dutch_month_name(month: u32) -> Seq<char> {
    if month == 1 {
        "januari"@
    } else if month == 2 {
        "februari"@
    } else if month == 3 {
        "maart"@
    } else if month == 4 {
        "april"@
    } else if month == 5 {
        "mei"@
    } else if month == 6 {
        "juni"@
    } else if month == 7 {
        "juli"@
    } else if month == 8 {
        "augustus"@
    } else if month == 9 {
        "september"@
    } else if month == 10 {
        "oktober"@
    } else if month == 11 {
        "november"@
    } else {
        "december"@
    }
}

/// The Dutch name of a month, 1 (januari) to 12 (december).
pub fn dutch_month_name(month: u32) -> (name: &'static str)
    requires
        1 <= month <= 12,
    ensures
        name@ == spec_dutch_month_name(month),
{
    match month {
        1 => "januari",
        2 => "februari",
        3 => "maart",
        4 => "april",
        5 => "mei",
        6 => "juni",
        7 => "juli",
        8 => "augustus",
        9 => "september",
        10 => "oktober",
        11 => "november",
        _ => "december",
    }
}

/// The upper-case form of a lower-case ASCII letter; other characters are kept.
pub open spec fn ascii_upper(c: char) -> char {
    if 'a' <= c && c <= 'z' { ((c as u32) - 32) as char } else { c }
}

/// `s` with its first character in upper case.
pub open spec fn capitalized(s: Seq<char>) -> Seq<char> {
    if s.len() == 0 { s } else { seq![ascii_upper(s[0])] + s.drop_first() }
}

/// The calendar header: the capitalized Dutch month name, a space and the year.
pub open spec fn spec_header_month_label(d: CalDate) -> Seq<char> {
    capitalized(spec_dutch_month_name(d.spec_month())) + seq![' '] + signed_decimal(d.spec_year() as int)
}

fn to_ascii_upper(c: char) -> (u: char)
    ensures
        u == ascii_upper(c),
{
    if 'a' <= c && c <= 'z' {
        ((c as u8) - 32) as char
    } else {
        c
    }
}

/// The label above the calendar, such as `Juli 2026`.
pub fn header_month_label(visible_start: CalDate) -> (label: String)
    requires
        visible_start.wf(),
    ensures
        label@ == spec_header_month_label(visible_start),
{
    let month = dutch_month_name(visible_start.month());
    proof {
        reveal_strlit("januari");
        reveal_strlit("februari");
        reveal_strlit("maart");
        reveal_strlit("april");
        reveal_strlit("mei");
        reveal_strlit("juni");
        reveal_strlit("juli");
        reveal_strlit("augustus");
        reveal_strlit("september");
        reveal_strlit("oktober");
        reveal_strlit("november");
        reveal_strlit("december");
    }
    let mut label = String::new();
    push_char(&mut label, to_ascii_upper(month.get_char(0)));
    let rest = month.substring_char(1, month.unicode_len());
    label.append(rest);
    push_char(&mut label, ' ');
    push_signed_decimal(&mut label, visible_start.year() as i64);
    assert(label@ =~= spec_header_month_label(visible_start));
    label
}


/// The column headers of the calendar: an empty corner above the week numbers,
/// then the Dutch weekday abbreviations from Monday to Sunday.
pub open spec fn spec_weekdays() -> Seq<Seq<char>> {
    seq![""@, "Ma"@, "Di"@, "Wo"@, "Do"@, "Vr"@, "Za"@, "Zo"@]
}

pub fn get_weekdays() -> (days: Vec<String>)
    ensures
        days@.map_values(|d: String| d@) == spec_weekdays(),
{
    let days = vec![
        String::from_str(""),
        String::from_str("Ma"),
        String::from_str("Di"),
        String::from_str("Wo"),
        String::from_str("Do"),
        String::from_str("Vr"),
        String::from_str("Za"),
        String::from_str("Zo"),
    ];
    assert(days@.map_values(|d: String| d@) =~= spec_weekdays());
    days
}


/// A date as `%Y-%m-%d` writes it: the year in four digits (with its sign and at
/// least four digits when it lies outside 0 to 9999), then month and day in two.
pub open spec fn spec_date_text(year: int, month: nat, day: nat) -> Seq<char> {
    let y = if 0 <= year <= 9999 {
        zero_padded(decimal(year as nat), 4)
    } else if year < 0 {
        seq!['-'] + zero_padded(decimal((-year) as nat), 4)
    } else {
        seq!['+'] + zero_padded(decimal(year as nat), 4)
    };
    y + seq!['-'] + zero_padded(decimal(month), 2) + seq!['-'] + zero_padded(decimal(day), 2)
}

/// The date as text, `%Y-%m-%d`.
pub fn date_text(date: &CalDate) -> (t: String)
    ensures
        t@ == spec_date_text(date.spec_year() as int, date.spec_month() as nat, date.spec_day() as nat),
{
    let y = date.year();
    let mut t = String::new();
    if 0 <= y && y <= 9999 {
        push_zero_padded(&mut t, y as u64, 4);
    } else if y < 0 {
        push_char(&mut t, '-');
        let a: i64 = -(y as i64);
        push_zero_padded(&mut t, a as u64, 4);
    } else {
        push_char(&mut t, '+');
        push_zero_padded(&mut t, y as u64, 4);
    }
    push_char(&mut t, '-');
    push_zero_padded(&mut t, date.month() as u64, 2);
    push_char(&mut t, '-');
    push_zero_padded(&mut t, date.day() as u64, 2);
    proof {
        let year = date.spec_year() as int;
        let ys = if 0 <= year <= 9999 {
            zero_padded(decimal(year as nat), 4)
        } else if year < 0 {
            seq!['-'] + zero_padded(decimal((-year) as nat), 4)
        } else {
            seq!['+'] + zero_padded(decimal(year as nat), 4)
        };
        assert(t@ =~= ys + seq!['-'] + zero_padded(decimal(date.spec_month() as nat), 2) + seq!['-']
            + zero_padded(decimal(date.spec_day() as nat), 2));
    }
    t
}

/// The time of day as `%H:%M`: hour and minute in two digits.
pub open spec fn spec_time_text(hour: nat, minute: nat) -> Seq<char> {
    zero_padded(decimal(hour), 2) + seq![':'] + zero_padded(decimal(minute), 2)
}

/// The time of day of `t` as text, `%H:%M`.
pub fn time_text(t: &CalDateTime) -> (s: String)
    ensures
        s@ == spec_time_text(t.hour as nat, t.minute as nat),
{
    let mut s = String::new();
    push_zero_padded(&mut s, t.hour as u64, 2);
    push_char(&mut s, ':');
    push_zero_padded(&mut s, t.minute as u64, 2);
    assert(s@ =~= spec_time_text(t.hour as nat, t.minute as nat));
    s
}

} // verus!
