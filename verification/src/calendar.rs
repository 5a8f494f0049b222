use vstd::prelude::*;
use vstd::string::StringExecFns;
use chrono::ParseError;
use uuid::Uuid;
use crate::app::{CalendarChange, ClockTime, SyncStatus};
use crate::dates::{chrono_parse_datetime, parsed_datetime, CalDate, CalDateTime};
use crate::text::{decimal, push_char, push_decimal, same_text};
use crate::theme::{light_theme, parse_hex_color, spec_light_base16, spec_parse_hex_color, Color, Theme};

verus! {

/// Where a calendar is fetched from.
#[derive(Clone, Copy, Debug, PartialEq, Eq, Structural)]
pub enum CalendarType {
    ICS,
    Gmail,
}

/// A calendar of a profile, as the configuration file lists it.
#[derive(Clone, Debug)]
pub struct ConfigCalendar {
    pub label: String,
    pub account: String,
    pub cal_type: CalendarType,
    pub url: String,
    /// `#RRGGBB`; overrides the profile's color.
    pub color: Option<String>,
    /// Overrides the profile's pill setting.
    pub pill: Option<bool>,
}

/// A profile: a named group of calendars with a shared color.
#[derive(Clone, Debug)]
pub struct ConfigProfile {
    pub name: String,
    /// `#RRGGBB`; the theme's primary color when missing or malformed.
    pub color: Option<String>,
    /// Show this profile's events as pills.
    pub pill: bool,
    pub calendar: Vec<ConfigCalendar>,
}

/// The configuration file.
#[derive(Clone, Debug)]
pub struct Config {
    pub profile: Vec<ConfigProfile>,
}

/// How the items of one calendar are drawn.
#[derive(Clone, Copy, Debug, PartialEq, Eq, Structural)]
pub struct CalendarItemStyle {
    pub color: Color,
    pub pill: bool,
}

/// The hyphenated, lower-case text of the version 5 UUID (SHA-1, URL namespace)
/// of the UTF-8 bytes of `name`, as `Uuid::new_v5(&Uuid::NAMESPACE_URL, ..)` makes it.
pub uninterp spec fn uuid_v5_url(name: Seq<char>) -> Seq<char>;

/// `Uuid::new_v5` in the URL namespace, then its `Display` text.
#[verifier::external_body]
fn uuid_v5_url_text(name: &str) -> (id: String)
    ensures
        id@ == uuid_v5_url(name@),
{
    Uuid::new_v5(&Uuid::NAMESPACE_URL, name.as_bytes()).to_string()
}

/// The stable identifier of a profile's calendar: the URL-namespace v5 UUID of
/// `profile:url`.
pub open spec fn spec_calendar_id(profile_name: Seq<char>, url: Seq<char>) -> Seq<char> {
    uuid_v5_url(profile_name + seq![':'] + url)
}

/// The identifier under which a profile's calendar and its items are stored.
pub fn remote_calendar_id(profile_name: &str, url: &str) -> (id: String)
    ensures
        id@ == spec_calendar_id(profile_name@, url@),
{
    let mut name = String::from_str(profile_name);
    push_char(&mut name, ':');
    name.append(url);
    assert(name@ =~= profile_name@ + seq![':'] + url@);
    uuid_v5_url_text(name.as_str())
}

/// A configured color, or `fallback` when it is missing or not `#RRGGBB`.
pub open spec fn configured_color(text: Option<String>, fallback: Color) -> Color {
    match text {
        Some(t) => match spec_parse_hex_color(t@) {
            Some(c) => c,
            None => fallback,
        },
        None => fallback,
    }
}

/// The theme's primary color.
pub open spec fn primary() -> Color {
    Theme::spec_from_base16(spec_light_base16()).primary
}

/// The style of a calendar: its own color, else its profile's, else the primary
/// color; its own pill setting, else its profile's.
pub open spec fn spec_calendar_style(p: ConfigProfile, c: ConfigCalendar) -> CalendarItemStyle {
    CalendarItemStyle {
        color: configured_color(c.color, configured_color(p.color, primary())),
        pill: match c.pill {
            Some(b) => b,
            None => p.pill,
        },
    }
}

/// The (calendar id, style) entries of one profile, in the order of its calendars.
pub open spec fn profile_styles(p: ConfigProfile) -> Seq<(Seq<char>, CalendarItemStyle)> {
    p.calendar@.map_values(|c: ConfigCalendar| (spec_calendar_id(p.name@, c.url@), spec_calendar_style(p, c)))
}

/// The entries of the first `n` profiles, in configuration order.
pub open spec fn styles_of_profiles(profiles: Seq<ConfigProfile>, n: nat) -> Seq<(Seq<char>, CalendarItemStyle)>
    decreases n,
{
    if n == 0 {
        Seq::empty()
    } else {
        styles_of_profiles(profiles, (n - 1) as nat) + profile_styles(profiles[n - 1])
    }
}

pub open spec fn spec_calendar_styles(config: Config) -> Seq<(Seq<char>, CalendarItemStyle)> {
    styles_of_profiles(config.profile@, config.profile@.len())
}

/// The entries of profiles before `i` are kept, and the block of profile `i`
/// follows them, in every longer prefix of the profiles' styles.
proof fn lemma_styles_block(profiles: Seq<ConfigProfile>, i: int, j: int, n: nat)
    requires
        0 <= i < n <= profiles.len(),
        0 <= j < profiles[i].calendar@.len(),
    ensures
        styles_of_profiles(profiles, i as nat).len() + j < styles_of_profiles(profiles, n).len(),
        styles_of_profiles(profiles, n)[styles_of_profiles(profiles, i as nat).len() + j] == profile_styles(profiles[i])[j],
    decreases n,
{
    let off = styles_of_profiles(profiles, i as nat).len();
    if n == i + 1 {
        assert(styles_of_profiles(profiles, n) == styles_of_profiles(profiles, i as nat) + profile_styles(profiles[i]));
    } else {
        lemma_styles_block(profiles, i, j, (n - 1) as nat);
        let prev = styles_of_profiles(profiles, (n - 1) as nat);
        assert(styles_of_profiles(profiles, n) == prev + profile_styles(profiles[n - 1]));
        assert((prev + profile_styles(profiles[n - 1]))[off + j] == prev[off + j]);
    }
}

/// A calendar's own pill setting decides whether its items are pills, whatever
/// its profile says; only a calendar without one follows its profile. Likewise
/// its own valid color wins over the profile's valid color, which wins over the
/// theme's primary color. Every configured calendar has
/// such an entry, under its calendar id, among the styles of the configuration.
pub proof fn lemma_calendar_style_overrides_profile(config: Config, i: int, j: int)
    requires
        0 <= i < config.profile@.len(),
        0 <= j < config.profile@[i].calendar@.len(),
    ensures
        exists|k: int| {
            let p = config.profile@[i];
            let c = p.calendar@[j];
            let e = #[trigger] spec_calendar_styles(config)[k];
            &&& 0 <= k < spec_calendar_styles(config).len()
            &&& e.0 == spec_calendar_id(p.name@, c.url@)
            &&& (c.pill == Some(true) ==> e.1.pill)
            &&& (c.pill == Some(false) ==> !e.1.pill)
            &&& (c.pill is None ==> e.1.pill == p.pill)
            &&& (c.color is Some && spec_parse_hex_color(c.color->0@) is Some ==> e.1.color == spec_parse_hex_color(c.color->0@)->0)
            &&& ((c.color is None || spec_parse_hex_color(c.color->0@) is None) && p.color is Some
                && spec_parse_hex_color(p.color->0@) is Some ==> e.1.color == spec_parse_hex_color(p.color->0@)->0)
            &&& ((c.color is None || spec_parse_hex_color(c.color->0@) is None)
                && (p.color is None || spec_parse_hex_color(p.color->0@) is None) ==> e.1.color == primary())
        },
{
    let profiles = config.profile@;
    let k = styles_of_profiles(profiles, i as nat).len() + j;
    lemma_styles_block(profiles, i, j, profiles.len());
    assert(profile_styles(profiles[i])[j] == (
        spec_calendar_id(profiles[i].name@, profiles[i].calendar@[j].url@),
        spec_calendar_style(profiles[i], profiles[i].calendar@[j]),
    ));
    assert(spec_calendar_styles(config)[k] == profile_styles(profiles[i])[j]);
}

/// The texts and styles of a list of entries.
pub open spec fn style_entries(styles: Seq<(String, CalendarItemStyle)>) -> Seq<(Seq<char>, CalendarItemStyle)> {
    styles.map_values(|e: (String, CalendarItemStyle)| (e.0@, e.1))
}

fn configured_color_of(text: &Option<String>, fallback: Color) -> (c: Color)
    ensures
        c == configured_color(*text, fallback),
{
    match text {
        Some(t) => match parse_hex_color(t.as_str()) {
            Some(c) => c,
            None => fallback,
        },
        None => fallback,
    }
}

/// The style of every configured calendar, keyed by its calendar id.
pub fn calendar_styles(config: &Config) -> (styles: Vec<(String, CalendarItemStyle)>)
    ensures
        style_entries(styles@) == spec_calendar_styles(*config),
{
    let primary_color = light_theme().primary;
    let mut styles: Vec<(String, CalendarItemStyle)> = Vec::new();
    let mut p: usize = 0;
    while p < config.profile.len()
        invariant
            p <= config.profile@.len(),
            primary_color == primary(),
            style_entries(styles@) == styles_of_profiles(config.profile@, p as nat),
        decreases config.profile@.len() - p,
    {
        let profile = &config.profile[p];
        let profile_color = configured_color_of(&profile.color, primary_color);
        let ghost before = style_entries(styles@);
        let mut c: usize = 0;
        while c < profile.calendar.len()
            invariant
                p < config.profile@.len(),
                *profile == config.profile@[p as int],
                profile_color == configured_color(profile.color, primary()),
                c <= profile.calendar@.len(),
                style_entries(styles@) == before + profile_styles(*profile).take(c as int),
            decreases profile.calendar@.len() - c,
        {
            let calendar = &profile.calendar[c];
            let color = configured_color_of(&calendar.color, profile_color);
            let pill = match calendar.pill {
                Some(b) => b,
                None => profile.pill,
            };
            let id = remote_calendar_id(profile.name.as_str(), calendar.url.as_str());
            let ghost prev = styles@;
            styles.push((id, CalendarItemStyle { color, pill }));
            assert(style_entries(styles@) =~= style_entries(prev).push(
                (spec_calendar_id(profile.name@, calendar.url@), spec_calendar_style(*profile, *calendar)),
            ));
            assert(profile_styles(*profile).take(c as int + 1) =~= profile_styles(*profile).take(c as int).push(
                profile_styles(*profile)[c as int],
            ));
            c += 1;
        }
        assert(profile_styles(*profile).take(profile.calendar@.len() as int) =~= profile_styles(*profile));
        p += 1;
    }
    styles
}

/// The style stored for a calendar id: the last entry with that id (later
/// configuration wins), or the primary color without pills when there is none.
pub open spec fn spec_style_for(styles: Seq<(Seq<char>, CalendarItemStyle)>, id: Seq<char>) -> CalendarItemStyle
    decreases styles.len(),
{
    if styles.len() == 0 {
        CalendarItemStyle { color: primary(), pill: false }
    } else if styles.last().0 == id {
        styles.last().1
    } else {
        spec_style_for(styles.drop_last(), id)
    }
}

/// Looks up the style of a calendar by its id.
pub fn style_for(styles: &[(String, CalendarItemStyle)], calendar_id: &str) -> (style: CalendarItemStyle)
    ensures
        style == spec_style_for(style_entries(styles@), calendar_id@),
{
    let mut i = styles.len();
    while i > 0
        invariant
            i <= styles@.len(),
            forall|k: int| i <= k < styles@.len() ==> (#[trigger] styles@[k]).0@ != calendar_id@,
        decreases i,
    {
        i -= 1;
        if same_text(styles[i].0.as_str(), calendar_id) {
            proof {
                lemma_style_for_last_match(style_entries(styles@), calendar_id@, i as int);
            }
            return styles[i].1;
        }
    }
    proof {
        lemma_style_for_no_match(style_entries(styles@), calendar_id@);
    }
    CalendarItemStyle { color: light_theme().primary, pill: false }
}

proof fn lemma_style_for_last_match(styles: Seq<(Seq<char>, CalendarItemStyle)>, id: Seq<char>, i: int)
    requires
        0 <= i < styles.len(),
        styles[i].0 == id,
        forall|k: int| i < k < styles.len() ==> (#[trigger] styles[k]).0 != id,
    ensures
        spec_style_for(styles, id) == styles[i].1,
    decreases styles.len(),
{
    if i < styles.len() - 1 {
        assert(styles[styles.len() - 1].0 != id);
        let shorter = styles.drop_last();
        assert forall|k: int| i < k < shorter.len() implies (#[trigger] shorter[k]).0 != id by {
            assert(shorter[k] == styles[k]);
        }
        lemma_style_for_last_match(shorter, id, i);
    }
}

proof fn lemma_style_for_no_match(styles: Seq<(Seq<char>, CalendarItemStyle)>, id: Seq<char>)
    requires
        forall|k: int| 0 <= k < styles.len() ==> (#[trigger] styles[k]).0 != id,
    ensures
        spec_style_for(styles, id) == (CalendarItemStyle { color: primary(), pill: false }),
    decreases styles.len(),
{
    if styles.len() > 0 {
        let shorter = styles.drop_last();
        assert(styles[styles.len() - 1].0 != id);
        assert forall|k: int| 0 <= k < shorter.len() implies (#[trigger] shorter[k]).0 != id by {
            assert(shorter[k] == styles[k]);
        }
        lemma_style_for_no_match(shorter, id);
    }
}


/// The stored form of item start times, with or without fractional seconds.
pub open spec fn datetime_format_fraction() -> Seq<char> {
    "%Y-%m-%d %H:%M:%S%.f"@
}

pub open spec fn datetime_format_seconds() -> Seq<char> {
    "%Y-%m-%d %H:%M:%S"@
}

/// A stored start time read with fractional seconds, else without.
pub open spec fn spec_parse_calendar_datetime(text: Seq<char>) -> Option<(int, u32, u32, u32)> {
    match parsed_datetime(text, datetime_format_fraction()) {
        Some(p) => Some(p),
        None => parsed_datetime(text, datetime_format_seconds()),
    }
}

/// Reads a stored start time such as `2026-07-01 09:30:00` or `2026-07-01 09:30:00.250`.
pub fn parse_calendar_datetime(value: &str) -> (r: Result<CalDateTime, ParseError>)
    ensures
        r is Ok <==> spec_parse_calendar_datetime(value@) is Some,
        r matches Ok(dt) ==> dt.wf() && dt.parts() == spec_parse_calendar_datetime(value@)->0,
{
    match chrono_parse_datetime(value, "%Y-%m-%d %H:%M:%S%.f") {
        Ok(dt) => Ok(dt),
        Err(_) => chrono_parse_datetime(value, "%Y-%m-%d %H:%M:%S"),
    }
}

/// An event as the calendar grid shows it.
#[derive(Clone, Debug)]
pub struct CalendarItem {
    pub title: String,
    pub start_at: CalDateTime,
    pub accent: Color,
    pub pill: bool,
}

/// A stored item as the database returns it, sorted by start time.
#[derive(Clone, Debug)]
pub struct StoredItemRow {
    pub calendar_id: String,
    pub title: String,
    pub start_at: String,
}

/// The items that start on one date, in stored order.
#[derive(Clone, Debug)]
pub struct DayItems {
    pub date: CalDate,
    pub items: Vec<CalendarItem>,
}

/// What an item shows: title, start (day number, hour, minute, second), color, pill.
pub type ItemView = (Seq<char>, (int, u32, u32, u32), Color, bool);

pub open spec fn item_view(item: CalendarItem) -> ItemView {
    (item.title@, item.start_at.parts(), item.accent, item.pill)
}

pub open spec fn items_view(items: Seq<CalendarItem>) -> Seq<ItemView> {
    items.map_values(|i: CalendarItem| item_view(i))
}

/// The start of a stored row (its text parses).
pub open spec fn row_start(row: StoredItemRow) -> (int, u32, u32, u32) {
    spec_parse_calendar_datetime(row.start_at@)->0
}

/// The item a stored row becomes: colored and shaped as its calendar's style says.
pub open spec fn row_item(row: StoredItemRow, styles: Seq<(Seq<char>, CalendarItemStyle)>) -> ItemView {
    let style = spec_style_for(styles, row.calendar_id@);
    (row.title@, row_start(row), style.color, style.pill)
}

/// The items among the first `n` rows that start on day `day`, in row order.
pub open spec fn items_on_day(
    rows: Seq<StoredItemRow>,
    styles: Seq<(Seq<char>, CalendarItemStyle)>,
    day: int,
    n: nat,
) -> Seq<ItemView>
    decreases n,
{
    if n == 0 {
        Seq::empty()
    } else {
        let prev = items_on_day(rows, styles, day, (n - 1) as nat);
        if row_start(rows[n - 1]).0 == day { prev.push(row_item(rows[n - 1], styles)) } else { prev }
    }
}

/// Every row's start time parses.
pub open spec fn all_rows_parse(rows: Seq<StoredItemRow>) -> bool {
    forall|k: int| 0 <= k < rows.len() ==> (#[trigger] spec_parse_calendar_datetime(rows[k].start_at@)) is Some
}

/// `days` groups the items of the first `n` rows by start date: dates ascending,
/// each group holding that date's items in row order, and no group empty.
pub open spec fn groups_prefix(
    days: Seq<DayItems>,
    rows: Seq<StoredItemRow>,
    styles: Seq<(Seq<char>, CalendarItemStyle)>,
    n: nat,
) -> bool {
    &&& forall|g: int| 0 <= g < days.len() ==> (#[trigger] days[g]).date.wf()
    &&& forall|g: int, h: int| 0 <= g < h < days.len() ==> (#[trigger] days[g]).date@ < (#[trigger] days[h]).date@
    &&& forall|g: int| 0 <= g < days.len() ==>
        items_view((#[trigger] days[g]).items@) == items_on_day(rows, styles, days[g].date@, n)
    &&& forall|g: int| 0 <= g < days.len() ==> (#[trigger] days[g]).items@.len() > 0
}

/// `days` groups the items of `rows` by start date: one group per date that some
/// row starts on, dates ascending, each group holding that date's items in row order.
pub open spec fn groups_items(
    days: Seq<DayItems>,
    rows: Seq<StoredItemRow>,
    styles: Seq<(Seq<char>, CalendarItemStyle)>,
) -> bool {
    &&& groups_prefix(days, rows, styles, rows.len())
    &&& forall|k: int| 0 <= k < rows.len() ==> exists|g: int| 0 <= g < days.len() && (#[trigger] days[g]).date@ == row_start(#[trigger] rows[k]).0
}

proof fn lemma_no_items_on_other_days(
    rows: Seq<StoredItemRow>,
    styles: Seq<(Seq<char>, CalendarItemStyle)>,
    day: int,
    n: nat,
)
    requires
        n <= rows.len(),
        forall|k: int| 0 <= k < n ==> row_start(#[trigger] rows[k]).0 != day,
    ensures
        items_on_day(rows, styles, day, n) == Seq::<ItemView>::empty(),
    decreases n,
{
    if n > 0 {
        lemma_no_items_on_other_days(rows, styles, day, (n - 1) as nat);
    }
}

/// Groups stored items by the date they start on; fails on the first start time
/// that does not parse.
#[verifier::spinoff_prover]
pub fn group_items_by_date(rows: &[StoredItemRow], styles: &[(String, CalendarItemStyle)]) -> (r: Result<Vec<DayItems>, ParseError>)
    ensures
        r is Ok <==> all_rows_parse(rows@),
        r matches Ok(days) ==> groups_items(days@, rows@, style_entries(styles@)),
{
    let ghost st = style_entries(styles@);
    let mut days: Vec<DayItems> = Vec::new();
    // For every row already placed, the index of its group.
    let ghost mut placed: Seq<int> = Seq::empty();
    let mut k: usize = 0;
    while k < rows.len()
        invariant
            k <= rows@.len(),
            st == style_entries(styles@),
            forall|j: int| 0 <= j < k ==> (#[trigger] spec_parse_calendar_datetime(rows@[j].start_at@)) is Some,
            groups_prefix(days@, rows@, st, k as nat),
            placed.len() == k,
            forall|j: int| 0 <= j < k ==> 0 <= #[trigger] placed[j] < days@.len() && days@[placed[j]].date@ == row_start(rows@[j]).0,
        decreases rows@.len() - k,
    {
        let row = &rows[k];
        let start = match parse_calendar_datetime(row.start_at.as_str()) {
            Ok(dt) => dt,
            Err(e) => {
                return Err(e);
            },
        };
        let style = style_for(styles, row.calendar_id.as_str());
        let item = CalendarItem { title: row.title.clone(), start_at: start, accent: style.color, pill: style.pill };
        assert(item_view(item) == row_item(rows@[k as int], st));
        let day = start.date;
        let mut pos: usize = 0;
        while pos < days.len() && days[pos].date.days_since(&day) < 0
            invariant
                pos <= days@.len(),
                day.wf(),
                forall|g: int| 0 <= g < days@.len() ==> (#[trigger] days@[g]).date.wf(),
                forall|g: int| 0 <= g < pos ==> (#[trigger] days@[g]).date@ < day@,
            decreases days@.len() - pos,
        {
            pos += 1;
        }
        let ghost before = days@;
        if pos < days.len() && days[pos].date.days_since(&day) == 0 {
            let mut group = days.remove(pos);
            group.items.push(item);
            days.insert(pos, group);
            proof {
                assert(days@ =~= before.update(pos as int, group));
                assert forall|g: int| 0 <= g < days@.len() implies items_view((#[trigger] days@[g]).items@)
                    == items_on_day(rows@, st, days@[g].date@, (k + 1) as nat) by {
                    if g == pos {
                        assert(items_view(group.items@) =~= items_view(before[g].items@).push(item_view(item)));
                    } else {
                        assert(days@[g] == before[g]);
                        if g < pos {
                            assert(before[g].date@ < day@);
                        } else {
                            assert(before[pos as int].date@ < before[g].date@);
                        }
                    }
                }
                placed = placed.push(pos as int);
                assert forall|j: int| 0 <= j < k + 1 implies 0 <= #[trigger] placed[j] < days@.len() && days@[placed[j]].date@ == row_start(rows@[j]).0 by {
                    if j < k {
                        assert(days@[placed[j]].date@ == before[placed[j]].date@);
                    }
                }
            }
        } else {
            let mut items: Vec<CalendarItem> = Vec::new();
            items.push(item);
            let group = DayItems { date: day, items };
            days.insert(pos, group);
            proof {
                assert forall|j: int| 0 <= j < k implies row_start(#[trigger] rows@[j]).0 != day@ by {
                    let g = placed[j];
                    if g < pos {
                        assert(before[g].date@ < day@);
                    } else if g > pos {
                        assert(before[pos as int].date@ < before[g].date@);
                    }
                }
                lemma_no_items_on_other_days(rows@, st, day@, k as nat);
                assert(items_view(days@[pos as int].items@) =~= seq![item_view(item)]);
                assert forall|g: int| 0 <= g < days@.len() implies items_view((#[trigger] days@[g]).items@)
                    == items_on_day(rows@, st, days@[g].date@, (k + 1) as nat) by {
                    if g < pos {
                        assert(days@[g] == before[g]);
                        assert(before[g].date@ < day@);
                    } else if g > pos {
                        assert(days@[g] == before[g - 1]);
                        if g - 1 > pos {
                            assert(before[pos as int].date@ < before[g - 1].date@);
                        }
                    }
                }
                assert forall|g: int, h: int| 0 <= g < h < days@.len() implies (#[trigger] days@[g]).date@ < (#[trigger] days@[h]).date@ by {
                    if h == pos {
                        assert(days@[g] == before[g]);
                    } else if g == pos {
                        assert(days@[h] == before[h - 1]);
                        assert(h - 1 >= pos);
                        if h - 1 > pos {
                            assert(before[pos as int].date@ < before[h - 1].date@);
                        }
                    } else if h < pos {
                    } else if g > pos {
                        assert(days@[g] == before[g - 1]);
                        assert(days@[h] == before[h - 1]);
                    } else {
                        assert(days@[g] == before[g]);
                        assert(days@[h] == before[h - 1]);
                        assert(before[g].date@ < day@);
                        if h - 1 > pos {
                            assert(before[pos as int].date@ < before[h - 1].date@);
                        }
                    }
                }
                let ghost old_placed = placed;
                placed = Seq::new((k + 1) as nat, |j: int| if j == k { pos as int } else if old_placed[j] >= pos { old_placed[j] + 1 } else { old_placed[j] });
                assert forall|j: int| 0 <= j < k + 1 implies 0 <= #[trigger] placed[j] < days@.len() && days@[placed[j]].date@ == row_start(rows@[j]).0 by {
                    if j < k {
                        if old_placed[j] >= pos {
                            assert(days@[old_placed[j] + 1] == before[old_placed[j]]);
                        } else {
                            assert(days@[old_placed[j]] == before[old_placed[j]]);
                        }
                    }
                }
            }
        }
        k += 1;
    }
    proof {
        assert forall|j: int| 0 <= j < rows@.len() implies exists|g: int| 0 <= g < days@.len() && (#[trigger] days@[g]).date@ == row_start(#[trigger] rows@[j]).0 by {
            let g = placed[j];
            assert(days@[g].date@ == row_start(rows@[j]).0);
        }
    }
    Ok(days)
}


/// The stored items grouped by start date, each colored and shaped as its
/// calendar is configured; fails on the first start time that does not parse.
pub fn load_calendar_items(config: &Config, rows: &[StoredItemRow]) -> (r: Result<Vec<DayItems>, ParseError>)
    ensures
        r is Ok <==> all_rows_parse(rows@),
        r matches Ok(days) ==> groups_items(days@, rows@, spec_calendar_styles(*config)),
{
    let styles = calendar_styles(config);
    group_items_by_date(rows, styles.as_slice())
}

/// Where the group of `date` stands among `days`, if there is one.
pub fn find_day(days: &[DayItems], date: &CalDate) -> (found: Option<usize>)
    requires
        date.wf(),
        forall|g: int| 0 <= g < days@.len() ==> (#[trigger] days@[g]).date.wf(),
    ensures
        found matches Some(g) ==> g < days@.len() && days@[g as int].date@ == date@,
        found is None ==> forall|g: int| 0 <= g < days@.len() ==> (#[trigger] days@[g]).date@ != date@,
{
    let mut g: usize = 0;
    while g < days.len()
        invariant
            g <= days@.len(),
            date.wf(),
            forall|h: int| 0 <= h < days@.len() ==> (#[trigger] days@[h]).date.wf(),
            forall|h: int| 0 <= h < g ==> (#[trigger] days@[h]).date@ != date@,
        decreases days@.len() - g,
    {
        if days[g].date.days_since(date) == 0 {
            return Some(g);
        }
        g += 1;
    }
    None
}


/// A calendar to sync: its profile, label and URL, and the id its items are
/// stored under.
#[derive(Clone, Debug)]
pub struct SyncTarget {
    pub profile: String,
    pub label: String,
    pub url: String,
    pub calendar_id: String,
}

/// Profile, label, URL and id of a sync target, as texts.
pub type TargetView = (Seq<char>, Seq<char>, Seq<char>, Seq<char>);

pub open spec fn target_view(t: SyncTarget) -> TargetView {
    (t.profile@, t.label@, t.url@, t.calendar_id@)
}

/// Whether a name passes a filter: any name when there is none, else only that name.
pub open spec fn wanted(filter: Option<&str>, name: Seq<char>) -> bool {
    match filter {
        None => true,
        Some(w) => name == w@,
    }
}

/// The targets among the first `n` calendars of profile `p` whose label passes `cal`.
pub open spec fn calendar_targets(p: ConfigProfile, cal: Option<&str>, n: nat) -> Seq<TargetView>
    decreases n,
{
    if n == 0 || n > p.calendar@.len() {
        Seq::empty()
    } else {
        let prev = calendar_targets(p, cal, (n - 1) as nat);
        let c = p.calendar@[n - 1];
        if wanted(cal, c.label@) {
            prev.push((p.name@, c.label@, c.url@, spec_calendar_id(p.name@, c.url@)))
        } else {
            prev
        }
    }
}

/// The targets of the first `n` profiles whose name passes `prof`, each with its
/// calendars whose label passes `cal`, in configuration order.
pub open spec fn profile_targets(profiles: Seq<ConfigProfile>, prof: Option<&str>, cal: Option<&str>, n: nat) -> Seq<TargetView>
    decreases n,
{
    if n == 0 || n > profiles.len() {
        Seq::empty()
    } else {
        let prev = profile_targets(profiles, prof, cal, (n - 1) as nat);
        let p = profiles[n - 1];
        if wanted(prof, p.name@) {
            prev + calendar_targets(p, cal, p.calendar@.len())
        } else {
            prev
        }
    }
}

fn passes(filter: Option<&str>, name: &str) -> (r: bool)
    ensures
        r == wanted(filter, name@),
{
    match filter {
        None => true,
        Some(w) => same_text(name, w),
    }
}

/// The calendars a sync covers: those of the profile named `profile_name` (all
/// profiles when `None`) whose label is `calendar_name` (all when `None`), in
/// Every target of a calendar list passes the calendar filter.
proof fn lemma_calendar_targets_pass(p: ConfigProfile, cal: Option<&str>, n: nat)
    ensures
        forall|k: int| 0 <= k < calendar_targets(p, cal, n).len() ==> {
            &&& (cal matches Some(w) ==> (#[trigger] calendar_targets(p, cal, n)[k]).1 == w@)
            &&& calendar_targets(p, cal, n)[k].0 == p.name@
        },
    decreases n,
{
    if n > 0 && n <= p.calendar@.len() {
        lemma_calendar_targets_pass(p, cal, (n - 1) as nat);
        let prev = calendar_targets(p, cal, (n - 1) as nat);
        let c = p.calendar@[n - 1];
        if wanted(cal, c.label@) {
            let t = (p.name@, c.label@, c.url@, spec_calendar_id(p.name@, c.url@));
            assert(calendar_targets(p, cal, n) == prev.push(t));
            assert forall|k: int| 0 <= k < prev.push(t).len() implies {
                &&& (cal matches Some(w) ==> (#[trigger] prev.push(t)[k]).1 == w@)
                &&& prev.push(t)[k].0 == p.name@
            } by {
                if k < prev.len() {
                    assert(prev.push(t)[k] == prev[k]);
                }
            }
        }
    }
}

/// Every target passes both filters: with a calendar filter, only calendars of
/// that label are synced, from every profile the profile filter lets through;
/// with a profile filter, only that profile's calendars.
pub proof fn lemma_sync_targets_pass_filters(profiles: Seq<ConfigProfile>, prof: Option<&str>, cal: Option<&str>, n: nat)
    ensures
        forall|k: int| 0 <= k < profile_targets(profiles, prof, cal, n).len() ==> {
            &&& (cal matches Some(w) ==> (#[trigger] profile_targets(profiles, prof, cal, n)[k]).1 == w@)
            &&& (prof matches Some(w) ==> profile_targets(profiles, prof, cal, n)[k].0 == w@)
        },
    decreases n,
{
    if n > 0 && n <= profiles.len() {
        lemma_sync_targets_pass_filters(profiles, prof, cal, (n - 1) as nat);
        let p = profiles[n - 1];
        lemma_calendar_targets_pass(p, cal, p.calendar@.len());
        let prev = profile_targets(profiles, prof, cal, (n - 1) as nat);
        if wanted(prof, p.name@) {
            let blk = calendar_targets(p, cal, p.calendar@.len());
            assert forall|k: int| 0 <= k < (prev + blk).len() implies {
                &&& (cal matches Some(w) ==> (#[trigger] (prev + blk)[k]).1 == w@)
                &&& (prof matches Some(w) ==> (prev + blk)[k].0 == w@)
            } by {
                if k >= prev.len() {
                    assert((prev + blk)[k] == blk[k - prev.len()]);
                } else {
                    assert((prev + blk)[k] == prev[k]);
                }
            }
        }
    }
}

/// Every calendar that passes both filters is synced: with a calendar filter
/// and no profile filter, every calendar of that label, from every profile;
/// with no filters, every calendar.
pub proof fn lemma_sync_targets_find_label(profiles: Seq<ConfigProfile>, prof: Option<&str>, cal: Option<&str>, i: int, j: int)
    requires
        0 <= i < profiles.len(),
        0 <= j < profiles[i].calendar@.len(),
        wanted(prof, profiles[i].name@),
        wanted(cal, profiles[i].calendar@[j].label@),
    ensures
        profile_targets(profiles, prof, cal, profiles.len()).contains(
            (profiles[i].name@, profiles[i].calendar@[j].label@, profiles[i].calendar@[j].url@,
             spec_calendar_id(profiles[i].name@, profiles[i].calendar@[j].url@)),
        ),
{
    let t = (profiles[i].name@, profiles[i].calendar@[j].label@, profiles[i].calendar@[j].url@,
             spec_calendar_id(profiles[i].name@, profiles[i].calendar@[j].url@));
    lemma_calendar_targets_contain(profiles[i], cal, j, profiles[i].calendar@.len());
    lemma_profile_targets_contain(profiles, prof, cal, i, t, profiles.len());
}

proof fn lemma_calendar_targets_contain(p: ConfigProfile, cal: Option<&str>, j: int, n: nat)
    requires
        0 <= j < n <= p.calendar@.len(),
        wanted(cal, p.calendar@[j].label@),
    ensures
        calendar_targets(p, cal, n).contains((p.name@, p.calendar@[j].label@, p.calendar@[j].url@, spec_calendar_id(p.name@, p.calendar@[j].url@))),
    decreases n,
{
    let t = (p.name@, p.calendar@[j].label@, p.calendar@[j].url@, spec_calendar_id(p.name@, p.calendar@[j].url@));
    let prev = calendar_targets(p, cal, (n - 1) as nat);
    if j == n - 1 {
        assert(calendar_targets(p, cal, n) == prev.push(t));
        assert(prev.push(t)[prev.len() as int] == t);
    } else {
        lemma_calendar_targets_contain(p, cal, j, (n - 1) as nat);
        let k = choose|k: int| 0 <= k < prev.len() && prev[k] == t;
        if wanted(cal, p.calendar@[n - 1].label@) {
            let c = p.calendar@[n - 1];
            assert(prev.push((p.name@, c.label@, c.url@, spec_calendar_id(p.name@, c.url@)))[k] == t);
        }
    }
}

proof fn lemma_profile_targets_contain(profiles: Seq<ConfigProfile>, prof: Option<&str>, cal: Option<&str>, i: int, t: TargetView, n: nat)
    requires
        0 <= i < n <= profiles.len(),
        wanted(prof, profiles[i].name@),
        calendar_targets(profiles[i], cal, profiles[i].calendar@.len()).contains(t),
    ensures
        profile_targets(profiles, prof, cal, n).contains(t),
    decreases n,
{
    let prev = profile_targets(profiles, prof, cal, (n - 1) as nat);
    let blk = calendar_targets(profiles[n - 1], cal, profiles[n - 1].calendar@.len());
    if i == n - 1 {
        assert(profile_targets(profiles, prof, cal, n) == prev + blk);
        let k = choose|k: int| 0 <= k < blk.len() && blk[k] == t;
        assert((prev + blk)[prev.len() + k] == t);
    } else {
        lemma_profile_targets_contain(profiles, prof, cal, i, t, (n - 1) as nat);
        let k = choose|k: int| 0 <= k < prev.len() && prev[k] == t;
        if wanted(prof, profiles[n - 1].name@) {
            assert(profile_targets(profiles, prof, cal, n) == prev + blk);
            assert((prev + blk)[k] == t);
        }
    }
}

/// configuration order.
pub fn sync_targets(config: &Config, profile_name: Option<&str>, calendar_name: Option<&str>) -> (targets: Vec<SyncTarget>)
    ensures
        targets@.map_values(|t: SyncTarget| target_view(t))
            == profile_targets(config.profile@, profile_name, calendar_name, config.profile@.len()),
{
    let mut targets: Vec<SyncTarget> = Vec::new();
    let mut p: usize = 0;
    while p < config.profile.len()
        invariant
            p <= config.profile@.len(),
            targets@.map_values(|t: SyncTarget| target_view(t)) == profile_targets(config.profile@, profile_name, calendar_name, p as nat),
        decreases config.profile@.len() - p,
    {
        let profile = &config.profile[p];
        let ghost before = targets@.map_values(|t: SyncTarget| target_view(t));
        if passes(profile_name, profile.name.as_str()) {
            let mut c: usize = 0;
            while c < profile.calendar.len()
                invariant
                    p < config.profile@.len(),
                    *profile == config.profile@[p as int],
                    c <= profile.calendar@.len(),
                    targets@.map_values(|t: SyncTarget| target_view(t)) == before + calendar_targets(*profile, calendar_name, c as nat),
                decreases profile.calendar@.len() - c,
            {
                let calendar = &profile.calendar[c];
                if passes(calendar_name, calendar.label.as_str()) {
                    let id = remote_calendar_id(profile.name.as_str(), calendar.url.as_str());
                    let t = SyncTarget {
                        profile: profile.name.clone(),
                        label: calendar.label.clone(),
                        url: calendar.url.clone(),
                        calendar_id: id,
                    };
                    let ghost prev = targets@;
                    targets.push(t);
                    assert(targets@.map_values(|t: SyncTarget| target_view(t)) =~= prev.map_values(|t: SyncTarget| target_view(t)).push(target_view(t)));
                }
                c += 1;
            }
        }
        p += 1;
    }
    targets
}


/// Whether a profile of this name is configured.
pub fn profile_exists(config: &Config, name: &str) -> (found: bool)
    ensures
        found == exists|p: int| 0 <= p < config.profile@.len() && (#[trigger] config.profile@[p]).name@ == name@,
{
    let mut p: usize = 0;
    while p < config.profile.len()
        invariant
            p <= config.profile@.len(),
            forall|q: int| 0 <= q < p ==> (#[trigger] config.profile@[q]).name@ != name@,
        decreases config.profile@.len() - p,
    {
        if same_text(config.profile[p].name.as_str(), name) {
            return true;
        }
        p += 1;
    }
    false
}

/// Adds an empty profile of this name, without color or pills, after the others.
pub fn add_profile(config: &mut Config, name: &str)
    ensures
        final(config).profile@.len() == old(config).profile@.len() + 1,
        final(config).profile@.subrange(0, old(config).profile@.len() as int) == old(config).profile@,
        final(config).profile@.last().name@ == name@,
        final(config).profile@.last().color is None,
        !final(config).profile@.last().pill,
        final(config).profile@.last().calendar@.len() == 0,
{
    config.profile.push(ConfigProfile { name: String::from_str(name), color: None, pill: false, calendar: Vec::new() });
    assert(config.profile@.subrange(0, old(config).profile@.len() as int) =~= old(config).profile@);
}

/// The rows of the profile list: number (from one), name and number of calendars.
pub fn profile_rows(config: &Config) -> (rows: Vec<Vec<String>>)
    requires
        config.profile@.len() < u64::MAX,
    ensures
        rows@.len() == config.profile@.len(),
        forall|p: int| 0 <= p < rows@.len() ==> {
            &&& (#[trigger] rows@[p])@.len() == 3
            &&& rows@[p]@[0]@ == decimal((p + 1) as nat)
            &&& rows@[p]@[1]@ == config.profile@[p].name@
            &&& rows@[p]@[2]@ == decimal(config.profile@[p].calendar@.len())
        },
{
    let mut rows: Vec<Vec<String>> = Vec::new();
    let mut p: usize = 0;
    while p < config.profile.len()
        invariant
            p <= config.profile@.len(),
            config.profile@.len() < u64::MAX,
            rows@.len() == p,
            forall|q: int| 0 <= q < p ==> {
                &&& (#[trigger] rows@[q])@.len() == 3
                &&& rows@[q]@[0]@ == decimal((q + 1) as nat)
                &&& rows@[q]@[1]@ == config.profile@[q].name@
                &&& rows@[q]@[2]@ == decimal(config.profile@[q].calendar@.len())
            },
        decreases config.profile@.len() - p,
    {
        let profile = &config.profile[p];
        let mut number = String::new();
        push_decimal(&mut number, (p + 1) as u64);
        let mut count = String::new();
        push_decimal(&mut count, profile.calendar.len() as u64);
        let mut row: Vec<String> = Vec::new();
        row.push(number);
        row.push(profile.name.clone());
        row.push(count);
        rows.push(row);
        p += 1;
    }
    rows
}


/// The rows of the calendar list of the first `n` profiles: profile name, label
/// and URL of each calendar, in configuration order.
pub open spec fn calendar_rows_of(profiles: Seq<ConfigProfile>, n: nat) -> Seq<Seq<Seq<char>>>
    decreases n,
{
    if n == 0 || n > profiles.len() {
        Seq::empty()
    } else {
        let p = profiles[n - 1];
        calendar_rows_of(profiles, (n - 1) as nat) + p.calendar@.map_values(|c: ConfigCalendar| seq![p.name@, c.label@, c.url@])
    }
}

/// The rows of the calendar list (see `calendar_rows_of`).
pub fn calendar_rows(config: &Config) -> (rows: Vec<Vec<String>>)
    ensures
        rows@.map_values(|r: Vec<String>| r@.map_values(|t: String| t@)) == calendar_rows_of(config.profile@, config.profile@.len()),
{
    let mut rows: Vec<Vec<String>> = Vec::new();
    let mut p: usize = 0;
    while p < config.profile.len()
        invariant
            p <= config.profile@.len(),
            rows@.map_values(|r: Vec<String>| r@.map_values(|t: String| t@)) == calendar_rows_of(config.profile@, p as nat),
        decreases config.profile@.len() - p,
    {
        let profile = &config.profile[p];
        let ghost before = rows@.map_values(|r: Vec<String>| r@.map_values(|t: String| t@));
        let ghost own = profile.calendar@.map_values(|c: ConfigCalendar| seq![profile.name@, c.label@, c.url@]);
        let mut c: usize = 0;
        while c < profile.calendar.len()
            invariant
                p < config.profile@.len(),
                *profile == config.profile@[p as int],
                c <= profile.calendar@.len(),
                own == profile.calendar@.map_values(|c: ConfigCalendar| seq![profile.name@, c.label@, c.url@]),
                rows@.map_values(|r: Vec<String>| r@.map_values(|t: String| t@)) == before + own.take(c as int),
            decreases profile.calendar@.len() - c,
        {
            let calendar = &profile.calendar[c];
            let mut row: Vec<String> = Vec::new();
            row.push(profile.name.clone());
            row.push(calendar.label.clone());
            row.push(calendar.url.clone());
            let ghost prev = rows@;
            rows.push(row);
            proof {
                assert(row@.map_values(|t: String| t@) =~= seq![profile.name@, calendar.label@, calendar.url@]);
                assert(rows@.map_values(|r: Vec<String>| r@.map_values(|t: String| t@)) =~= prev.map_values(
                    |r: Vec<String>| r@.map_values(|t: String| t@),
                ).push(row@.map_values(|t: String| t@)));
                assert(own.take(c + 1) =~= own.take(c as int).push(own[c as int]));
            }
            c += 1;
        }
        assert(own.take(profile.calendar@.len() as int) =~= own);
        p += 1;
    }
    rows
}


/// A sync round in progress: the calendars to sync, the next one, and the
/// changes found so far.
pub struct SyncRound {
    pub targets: Vec<SyncTarget>,
    pub next_sync_at: i64,
    pub current: usize,
    pub changes: Vec<CalendarChange>,
}

/// What the worker does next in a round: report that it syncs calendar `index`
/// and fetch it, or send the round's final report.
pub enum RoundAction {
    Fetch { index: usize, report: SyncStatus },
    Finish(SyncStatus),
}

/// The report that calendar `index` of the round is being synced.
pub open spec fn syncing_report(round: SyncRound, index: int, a: RoundAction) -> bool {
    a matches RoundAction::Fetch { index: i, report: SyncStatus::Syncing { calendar } }
        && i == index && calendar == round.targets@[index].label
}

impl SyncRound {
    /// A round over these calendars; the next round is due at `next_sync_at`.
    pub fn new(targets: Vec<SyncTarget>, next_sync_at: i64) -> (r: Self)
        ensures
            r.targets == targets,
            r.next_sync_at == next_sync_at,
            r.current == 0,
            r.changes@.len() == 0,
    {
        SyncRound { targets, next_sync_at, current: 0, changes: Vec::new() }
    }

    /// Starts the round: a failure when there is nothing to sync, else the
    /// first calendar.
    pub fn start(&self) -> (a: RoundAction)
        ensures
            self.targets@.len() == 0 ==> (a matches RoundAction::Finish(SyncStatus::Failed { calendar, error, next_sync_at })
                && calendar@ == "config"@ && error@ == "no calendars configured"@ && next_sync_at == self.next_sync_at),
            self.targets@.len() > 0 ==> syncing_report(*self, 0, a),
    {
        if self.targets.len() == 0 {
            RoundAction::Finish(SyncStatus::Failed {
                calendar: String::from_str("config"),
                error: String::from_str("no calendars configured"),
                next_sync_at: self.next_sync_at,
            })
        } else {
            RoundAction::Fetch { index: 0, report: SyncStatus::Syncing { calendar: self.targets[0].label.clone() } }
        }
    }

    /// Takes the outcome of fetching the current calendar: on failure the round
    /// ends with a failure naming it; otherwise its changes are kept and the
    /// next calendar follows, or, after the last, the round ends with all the
    /// changes, synced at `synced_at`.
    pub fn fetched(&mut self, outcome: Result<Vec<CalendarChange>, String>, synced_at: ClockTime) -> (a: RoundAction)
        requires
            old(self).current < old(self).targets@.len(),
        ensures
            final(self).targets == old(self).targets,
            final(self).next_sync_at == old(self).next_sync_at,
            match outcome {
                Err(error) => {
                    &&& a matches RoundAction::Finish(SyncStatus::Failed { calendar, error: e, next_sync_at })
                        && calendar == old(self).targets@[old(self).current as int].label && e == error
                        && next_sync_at == old(self).next_sync_at
                    &&& final(self).current == old(self).current
                    &&& final(self).changes == old(self).changes
                },
                Ok(found) => if old(self).current + 1 < old(self).targets@.len() {
                    &&& final(self).changes@ == old(self).changes@ + found@
                    &&& final(self).current == old(self).current + 1
                    &&& syncing_report(*final(self), final(self).current as int, a)
                } else {
                    &&& final(self).changes@.len() == 0
                    &&& final(self).current == old(self).current
                    &&& a matches RoundAction::Finish(SyncStatus::Synced { synced_at: s, next_sync_at, changes })
                        && s == synced_at && next_sync_at == old(self).next_sync_at
                        && changes@ == old(self).changes@ + found@
                },
            },
    {
        match outcome {
            Err(error) => RoundAction::Finish(SyncStatus::Failed {
                calendar: self.targets[self.current].label.clone(),
                error,
                next_sync_at: self.next_sync_at,
            }),
            Ok(found) => {
                let ghost start = self.changes@;
                let ghost all_found = found@;
                let mut rest = found;
                let total = rest.len();
                let mut k: usize = 0;
                assert(all_found.skip(0) =~= all_found);
                while rest.len() > 0
                    invariant
                        k <= all_found.len(),
                        all_found.len() == total,
                        rest@ == all_found.skip(k as int),
                        self.targets == old(self).targets,
                        self.next_sync_at == old(self).next_sync_at,
                        self.current == old(self).current,
                        self.current < self.targets@.len(),
                        start == old(self).changes@,
                        self.changes@ == start + all_found.take(k as int),
                    decreases rest@.len(),
                {
                    assert(rest@.len() == all_found.len() - k);
                    let c = rest.remove(0);
                    self.changes.push(c);
                    proof {
                        assert(all_found.take(k + 1) =~= all_found.take(k as int).push(all_found[k as int]));
                        assert(rest@ =~= all_found.skip(k + 1));
                    }
                    k += 1;
                }
                proof {
                    assert(all_found.take(k as int) =~= all_found);
                }
                let n = self.targets.len();
                if self.current < n - 1 {
                    self.current = self.current + 1;
                    RoundAction::Fetch {
                        index: self.current,
                        report: SyncStatus::Syncing { calendar: self.targets[self.current].label.clone() },
                    }
                } else {
                    let mut all: Vec<CalendarChange> = Vec::new();
                    std::mem::swap(&mut all, &mut self.changes);
                    RoundAction::Finish(SyncStatus::Synced { synced_at, next_sync_at: self.next_sync_at, changes: all })
                }
            },
        }
    }
}

} // verus!
