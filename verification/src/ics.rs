use vstd::prelude::*;
use vstd::string::StringExecFns;
use crate::app::CalendarChange;
use crate::dates::{
    date_text, datetime_of_seconds, ics_raw_components, parsed_ics, spec_date_text, spec_datetime_of_seconds, spec_time_text,
    CalDateTime,
};
use crate::text::{decimal, push_char, push_zero_padded, same_text, zero_padded};

verus! {

/// The properties of a calendar component that the sync reads.
#[derive(Clone, Debug, PartialEq, Eq)]
pub enum IcsProperty {
    Uid,
    Summary,
    Description,
    Dtstart,
    Dtend,
    Created,
    LastModified,
    Other(String),
}

/// A property value: a date-time (with the local date-time it stands for, if
/// it has one, whether it carries a time, and its RFC 3339 text when it can be
/// written so), or any other value with its text, if it has one.
#[derive(Clone, Debug)]
pub enum IcsValue {
    DateTime { date_time: Option<CalDateTime>, has_time: bool, rfc3339: Option<String> },
    Text(Option<String>),
}

/// One property line of a component: its name and values.
#[derive(Clone, Debug)]
pub struct IcsEntry {
    pub name: IcsProperty,
    pub values: Vec<IcsValue>,
}

/// A component of a calendar file: whether it is an event, and its properties.
#[derive(Clone, Debug)]
pub struct IcsComponent {
    pub is_event: bool,
    pub entries: Vec<IcsEntry>,
}

/// An event as the sync keeps it.
#[derive(Clone, Debug)]
pub struct SyncedItem {
    pub uid: String,
    pub label: String,
    pub description: String,
    pub start_at: CalDateTime,
    pub end_at: Option<CalDateTime>,
    pub created_at: Option<CalDateTime>,
    pub last_modified: Option<CalDateTime>,
}

/// A value as the calendar parser hands it over: a date-time as the seconds of
/// the local date-time it stands for (if it has one), whether it carries a time
/// and its RFC 3339 text (if it can be written so); any other value as its text,
/// if it has one.
pub type RawIcsValue = Result<(Option<i64>, bool, Option<String>), Option<String>>;

/// An entry as the parser hands it over: the property's name and its values.
pub type RawIcsEntry = (String, Vec<RawIcsValue>);

/// A component as the parser hands it over: whether it is an event, and its entries.
pub type RawIcsComponent = (bool, Vec<RawIcsEntry>);

/// Whether two property names are the same.
pub open spec fn same_property(a: IcsProperty, b: IcsProperty) -> bool {
    match (a, b) {
        (IcsProperty::Uid, IcsProperty::Uid) => true,
        (IcsProperty::Summary, IcsProperty::Summary) => true,
        (IcsProperty::Description, IcsProperty::Description) => true,
        (IcsProperty::Dtstart, IcsProperty::Dtstart) => true,
        (IcsProperty::Dtend, IcsProperty::Dtend) => true,
        (IcsProperty::Created, IcsProperty::Created) => true,
        (IcsProperty::LastModified, IcsProperty::LastModified) => true,
        (IcsProperty::Other(x), IcsProperty::Other(y)) => x@ == y@,
        _ => false,
    }
}

fn property_matches(a: &IcsProperty, b: &IcsProperty) -> (r: bool)
    ensures
        r == same_property(*a, *b),
{
    match (a, b) {
        (IcsProperty::Uid, IcsProperty::Uid) => true,
        (IcsProperty::Summary, IcsProperty::Summary) => true,
        (IcsProperty::Description, IcsProperty::Description) => true,
        (IcsProperty::Dtstart, IcsProperty::Dtstart) => true,
        (IcsProperty::Dtend, IcsProperty::Dtend) => true,
        (IcsProperty::Created, IcsProperty::Created) => true,
        (IcsProperty::LastModified, IcsProperty::LastModified) => true,
        (IcsProperty::Other(x), IcsProperty::Other(y)) => same_text(x.as_str(), y.as_str()),
        _ => false,
    }
}

/// Whether some entry has this name.
pub open spec fn has_entry(entries: Seq<IcsEntry>, name: IcsProperty) -> bool {
    exists|i: int| 0 <= i < entries.len() && same_property(#[trigger] entries[i].name, name)
}

/// The position of the first entry with this name.
pub open spec fn first_entry(entries: Seq<IcsEntry>, name: IcsProperty) -> int {
    choose|i: int|
        0 <= i < entries.len() && same_property(entries[i].name, name) && forall|j: int|
            0 <= j < i ==> !same_property(#[trigger] entries[j].name, name)
}

/// The first value of the first entry with this name.
pub open spec fn first_value(entries: Seq<IcsEntry>, name: IcsProperty) -> IcsValue {
    entries[first_entry(entries, name)].values@[0]
}

/// Where the first entry with this name is, if any.
fn find_entry(entries: &Vec<IcsEntry>, name: &IcsProperty) -> (found: Option<usize>)
    ensures
        found is None <==> !has_entry(entries@, *name),
        found matches Some(i) ==> i == first_entry(entries@, *name) && i < entries@.len(),
{
    let mut i: usize = 0;
    while i < entries.len()
        invariant
            i <= entries@.len(),
            forall|j: int| 0 <= j < i ==> !same_property(#[trigger] entries@[j].name, *name),
        decreases entries@.len() - i,
    {
        if property_matches(&entries[i].name, name) {
            proof {
                let k = first_entry(entries@, *name);
                assert(k == i as int) by {
                    if k < i as int {
                        assert(!same_property(entries@[k].name, *name));
                    } else if k > i as int {
                        assert(!same_property(entries@[i as int].name, *name));
                    }
                }
            }
            return Some(i);
        }
        i += 1;
    }
    None
}

/// A date-time as chrono writes it, seconds included: `%Y-%m-%d %H:%M:%S`.
pub open spec fn spec_datetime_text(t: CalDateTime) -> Seq<char> {
    spec_date_text(t.date.spec_year() as int, t.date.spec_month() as nat, t.date.spec_day() as nat) + seq![' ']
        + spec_time_text(t.hour as nat, t.minute as nat) + seq![':'] + zero_padded(decimal(t.second as nat), 2)
}

/// The text that a property's value stands for, as the sync reads it: a
/// date-time as its RFC 3339 text, or else written out (in full when it carries
/// no time, its date alone when it does); another value as its text, or empty;
/// an absent description, summary or `X-WR-TIMEZONE` as empty.
pub open spec fn spec_property_text(entries: Seq<IcsEntry>, name: IcsProperty) -> Seq<char> {
    if has_entry(entries, name) {
        match first_value(entries, name) {
            IcsValue::DateTime { date_time, has_time, rfc3339 } => match rfc3339 {
                Some(x) => x@,
                None => if !has_time {
                    spec_datetime_text(date_time->0)
                } else {
                    let d = date_time->0.date;
                    spec_date_text(d.spec_year() as int, d.spec_month() as nat, d.spec_day() as nat)
                },
            },
            IcsValue::Text(t) => match t {
                Some(x) => x@,
                None => Seq::empty(),
            },
        }
    } else {
        Seq::empty()
    }
}

/// The properties the sync may find absent without failing.
pub open spec fn may_be_absent(name: IcsProperty) -> bool {
    ||| name == IcsProperty::Description
    ||| name == IcsProperty::Summary
    ||| (name matches IcsProperty::Other(s) && s@ == "X-WR-TIMEZONE"@)
}

/// What reading a property's text needs: the entry, unless it may be absent;
/// a value in it; and a date-time behind a date-time value that has no RFC 3339
/// text.
pub open spec fn property_text_readable(entries: Seq<IcsEntry>, name: IcsProperty) -> bool {
    if has_entry(entries, name) {
        let e = entries[first_entry(entries, name)];
        &&& e.values@.len() > 0
        &&& (e.values@[0] matches IcsValue::DateTime { date_time, rfc3339, .. } ==> rfc3339 is Some || date_time is Some)
    } else {
        may_be_absent(name)
    }
}

/// The text of a property (see `spec_property_text`).
pub fn get_property_value_by_name(item: &IcsComponent, name: &IcsProperty) -> (text: String)
    requires
        property_text_readable(item.entries@, *name),
    ensures
        text@ == spec_property_text(item.entries@, *name),
{
    match find_entry(&item.entries, name) {
        Some(i) => {
            let value = &item.entries[i].values[0];
            match value {
                IcsValue::DateTime { date_time, has_time, rfc3339 } => match rfc3339 {
                    Some(x) => x.clone(),
                    None => {
                        let native = date_time.unwrap();
                        if !*has_time {
                            datetime_text(&native)
                        } else {
                            date_text(&native.date)
                        }
                    },
                },
                IcsValue::Text(t) => match t {
                    Some(x) => x.clone(),
                    None => String::new(),
                },
            }
        },
        None => String::new(),
    }
}

/// A date-time as text, `%Y-%m-%d %H:%M:%S`.
pub fn datetime_text(t: &CalDateTime) -> (s: String)
    ensures
        s@ == spec_datetime_text(*t),
{
    let mut s = date_text(&t.date);
    push_char(&mut s, ' ');
    push_zero_padded(&mut s, t.hour as u64, 2);
    push_char(&mut s, ':');
    push_zero_padded(&mut s, t.minute as u64, 2);
    push_char(&mut s, ':');
    push_zero_padded(&mut s, t.second as u64, 2);
    assert(s@ =~= spec_datetime_text(*t));
    s
}

/// The date-time of a property: the one behind its first value, none when the
/// component lacks the property.
pub open spec fn spec_property_datetime(entries: Seq<IcsEntry>, name: IcsProperty) -> Option<CalDateTime> {
    if has_entry(entries, name) {
        first_value(entries, name)->date_time
    } else {
        None
    }
}

/// What reading a property's date-time needs: when present, a first value that
/// is a date-time with a local date-time behind it.
pub open spec fn property_datetime_readable(entries: Seq<IcsEntry>, name: IcsProperty) -> bool {
    has_entry(entries, name) ==> {
        let e = entries[first_entry(entries, name)];
        &&& e.values@.len() > 0
        &&& e.values@[0] matches IcsValue::DateTime { date_time, .. } && date_time is Some
    }
}

/// The date-time of a property (see `spec_property_datetime`).
pub fn get_datetime_by_name(item: &IcsComponent, name: &IcsProperty) -> (dt: Option<CalDateTime>)
    requires
        property_datetime_readable(item.entries@, *name),
    ensures
        dt == spec_property_datetime(item.entries@, *name),
        dt is Some <==> has_entry(item.entries@, *name),
{
    match find_entry(&item.entries, name) {
        Some(i) => match &item.entries[i].values[0] {
            IcsValue::DateTime { date_time, .. } => Some(date_time.unwrap()),
            IcsValue::Text(_) => None,
        },
        None => None,
    }
}

/// What reading an event needs: its start readable, and when it has a start,
/// its uid, summary and description text and its end, creation and modification
/// date-times readable.
pub open spec fn item_readable(entries: Seq<IcsEntry>) -> bool {
    &&& property_datetime_readable(entries, IcsProperty::Dtstart)
    &&& has_entry(entries, IcsProperty::Dtstart) ==> {
        &&& property_text_readable(entries, IcsProperty::Uid)
        &&& property_text_readable(entries, IcsProperty::Summary)
        &&& property_text_readable(entries, IcsProperty::Description)
        &&& property_datetime_readable(entries, IcsProperty::Dtend)
        &&& property_datetime_readable(entries, IcsProperty::Created)
        &&& property_datetime_readable(entries, IcsProperty::LastModified)
    }
}

/// The item a component holds: none without a start; otherwise its uid,
/// summary as label, description, start, and end, creation and modification
/// when present.
pub open spec fn item_of(entries: Seq<IcsEntry>, item: SyncedItem) -> bool {
    &&& item.uid@ == spec_property_text(entries, IcsProperty::Uid)
    &&& item.label@ == spec_property_text(entries, IcsProperty::Summary)
    &&& item.description@ == spec_property_text(entries, IcsProperty::Description)
    &&& Some(item.start_at) == spec_property_datetime(entries, IcsProperty::Dtstart)
    &&& item.end_at == spec_property_datetime(entries, IcsProperty::Dtend)
    &&& item.created_at == spec_property_datetime(entries, IcsProperty::Created)
    &&& item.last_modified == spec_property_datetime(entries, IcsProperty::LastModified)
}

/// A missing summary or description never makes an event unreadable: it reads
/// as empty text. So an event with a readable uid and start and no summary is
/// readable (its other date-times being readable), and its item's label is empty.
pub proof fn lemma_missing_summary_reads_empty(entries: Seq<IcsEntry>, item: SyncedItem)
    requires
        !has_entry(entries, IcsProperty::Summary),
        property_datetime_readable(entries, IcsProperty::Dtstart),
        property_text_readable(entries, IcsProperty::Uid),
        property_text_readable(entries, IcsProperty::Description),
        property_datetime_readable(entries, IcsProperty::Dtend),
        property_datetime_readable(entries, IcsProperty::Created),
        property_datetime_readable(entries, IcsProperty::LastModified),
    ensures
        property_text_readable(entries, IcsProperty::Summary),
        spec_property_text(entries, IcsProperty::Summary) == Seq::<char>::empty(),
        item_readable(entries),
        item_of(entries, item) ==> item.label@ == Seq::<char>::empty(),
{
}

/// Likewise a missing description reads as empty text.
pub proof fn lemma_missing_description_reads_empty(entries: Seq<IcsEntry>)
    requires
        !has_entry(entries, IcsProperty::Description),
    ensures
        property_text_readable(entries, IcsProperty::Description),
        spec_property_text(entries, IcsProperty::Description) == Seq::<char>::empty(),
{
}

/// The event a component describes, when it has a start (see `item_of`).
pub fn parse_item(item: &IcsComponent) -> (r: Option<SyncedItem>)
    requires
        item_readable(item.entries@),
    ensures
        r is Some <==> has_entry(item.entries@, IcsProperty::Dtstart),
        r matches Some(it) ==> item_of(item.entries@, it),
{
    let start_at = match get_datetime_by_name(item, &IcsProperty::Dtstart) {
        Some(s) => s,
        None => {
            return None;
        },
    };
    Some(SyncedItem {
        uid: get_property_value_by_name(item, &IcsProperty::Uid),
        label: get_property_value_by_name(item, &IcsProperty::Summary),
        description: get_property_value_by_name(item, &IcsProperty::Description),
        start_at,
        end_at: get_datetime_by_name(item, &IcsProperty::Dtend),
        created_at: get_datetime_by_name(item, &IcsProperty::Created),
        last_modified: get_datetime_by_name(item, &IcsProperty::LastModified),
    })
}

/// The year of the common era a year falls in, counted from one either way
/// (year 0 is 1 BCE).
pub open spec fn year_ce(year: int) -> int {
    if year >= 1 { year } else { 1 - year }
}

/// Whether a component is an event that the sync keeps: one with a start in
/// `previous_year` or later.
pub open spec fn kept(c: IcsComponent, previous_year: u32) -> bool {
    &&& c.is_event
    &&& has_entry(c.entries@, IcsProperty::Dtstart)
    &&& year_ce(spec_property_datetime(c.entries@, IcsProperty::Dtstart)->0.date.spec_year() as int) >= previous_year
}

/// The events the sync keeps from the components of a calendar file, in file
/// order: those with a start whose year is `previous_year` or later.
pub fn select_items(components: &Vec<IcsComponent>, previous_year: u32) -> (items: Vec<SyncedItem>)
    requires
        forall|k: int| 0 <= k < components@.len() && (#[trigger] components@[k]).is_event ==> item_readable(components@[k].entries@),
    ensures
        items@.len() == components@.filter(|c: IcsComponent| kept(c, previous_year)).len(),
        forall|j: int| 0 <= j < items@.len() ==> item_of(
            components@.filter(|c: IcsComponent| kept(c, previous_year))[j].entries@,
            #[trigger] items@[j],
        ),
{
    let ghost keep = |c: IcsComponent| kept(c, previous_year);
    let mut items: Vec<SyncedItem> = Vec::new();
    let mut k: usize = 0;
    while k < components.len()
        invariant
            k <= components@.len(),
            keep == (|c: IcsComponent| kept(c, previous_year)),
            forall|m: int| 0 <= m < components@.len() && (#[trigger] components@[m]).is_event ==> item_readable(components@[m].entries@),
            items@.len() == components@.take(k as int).filter(keep).len(),
            forall|j: int| 0 <= j < items@.len() ==> item_of(components@.take(k as int).filter(keep)[j].entries@, #[trigger] items@[j]),
        decreases components@.len() - k,
    {
        let c = &components[k];
        proof {
            let s1 = components@.take(k + 1);
            assert(s1.drop_last() =~= components@.take(k as int));
            assert(s1.last() == *c);
            assert(s1.filter(keep) == if keep(*c) {
                components@.take(k as int).filter(keep).push(*c)
            } else {
                components@.take(k as int).filter(keep)
            }) by {
                reveal(Seq::filter);
            }
        }
        if c.is_event {
            match parse_item(c) {
                Some(item) => {
                    let year = item.start_at.date.year() as i64;
                    let ce: i64 = if year >= 1 { year } else { 1 - year };
                    if ce >= previous_year as i64 {
                        let ghost prev = items@;
                        items.push(item);
                        proof {
                            assert(keep(*c));
                            assert forall|j: int| 0 <= j < items@.len() implies item_of(
                                components@.take(k + 1).filter(keep)[j].entries@,
                                #[trigger] items@[j],
                            ) by {
                                if j < prev.len() {
                                    assert(items@[j] == prev[j]);
                                }
                            }
                        }
                    } else {
                        proof {
                            assert(!keep(*c));
                        }
                    }
                },
                None => {
                    proof {
                        assert(!keep(*c));
                    }
                },
            }
        } else {
            proof {
                assert(!keep(*c));
            }
        }
        k += 1;
    }
    proof {
        assert(components@.take(components@.len() as int) =~= components@);
    }
    items
}


/// Whether a property may be absent (see `may_be_absent`).
fn absent_allowed(name: &IcsProperty) -> (b: bool)
    ensures
        b == may_be_absent(*name),
{
    proof {
        reveal_strlit("X-WR-TIMEZONE");
    }
    match name {
        IcsProperty::Description => true,
        IcsProperty::Summary => true,
        IcsProperty::Other(s) => same_text(s.as_str(), "X-WR-TIMEZONE"),
        _ => false,
    }
}

/// Whether a property's text can be read (see `property_text_readable`).
fn text_readable(item: &IcsComponent, name: &IcsProperty) -> (b: bool)
    ensures
        b == property_text_readable(item.entries@, *name),
{
    match find_entry(&item.entries, name) {
        Some(i) => {
            let e = &item.entries[i];
            if e.values.len() == 0 {
                return false;
            }
            match &e.values[0] {
                IcsValue::DateTime { date_time, rfc3339, .. } => rfc3339.is_some() || date_time.is_some(),
                IcsValue::Text(_) => true,
            }
        },
        None => absent_allowed(name),
    }
}

/// Whether a property's date-time can be read (see `property_datetime_readable`).
fn datetime_readable(item: &IcsComponent, name: &IcsProperty) -> (b: bool)
    ensures
        b == property_datetime_readable(item.entries@, *name),
{
    match find_entry(&item.entries, name) {
        Some(i) => {
            let e = &item.entries[i];
            if e.values.len() == 0 {
                return false;
            }
            match &e.values[0] {
                IcsValue::DateTime { date_time, .. } => date_time.is_some(),
                IcsValue::Text(_) => false,
            }
        },
        None => true,
    }
}

/// Whether an event can be read (see `item_readable`).
pub fn is_item_readable(item: &IcsComponent) -> (b: bool)
    ensures
        b == item_readable(item.entries@),
{
    if !datetime_readable(item, &IcsProperty::Dtstart) {
        return false;
    }
    match find_entry(&item.entries, &IcsProperty::Dtstart) {
        None => true,
        Some(_) => {
            text_readable(item, &IcsProperty::Uid) && text_readable(item, &IcsProperty::Summary)
                && text_readable(item, &IcsProperty::Description) && datetime_readable(item, &IcsProperty::Dtend)
                && datetime_readable(item, &IcsProperty::Created) && datetime_readable(item, &IcsProperty::LastModified)
        },
    }
}

/// Whether every event among the components can be read.
pub open spec fn events_readable(components: Seq<IcsComponent>) -> bool {
    forall|k: int| 0 <= k < components.len() && (#[trigger] components[k]).is_event ==> item_readable(components[k].entries@)
}

/// The property a name stands for: one of the properties the sync reads when
/// the name is written as iCalendar writes it, any other under its own name.
pub open spec fn property_named(p: IcsProperty, name: Seq<char>) -> bool {
    if name == "UID"@ {
        p == IcsProperty::Uid
    } else if name == "SUMMARY"@ {
        p == IcsProperty::Summary
    } else if name == "DESCRIPTION"@ {
        p == IcsProperty::Description
    } else if name == "DTSTART"@ {
        p == IcsProperty::Dtstart
    } else if name == "DTEND"@ {
        p == IcsProperty::Dtend
    } else if name == "CREATED"@ {
        p == IcsProperty::Created
    } else if name == "LAST-MODIFIED"@ {
        p == IcsProperty::LastModified
    } else {
        p matches IcsProperty::Other(s) && s@ == name
    }
}

/// The value a raw value stands for: a date-time whose local date-time is the
/// one its seconds give, or a text.
pub open spec fn value_of_raw(v: IcsValue, raw: RawIcsValue) -> bool {
    match raw {
        Ok((seconds, has_time, rfc3339)) => v matches IcsValue::DateTime { date_time, has_time: h, rfc3339: r } && {
            &&& h == has_time
            &&& (r is Some <==> rfc3339 is Some)
            &&& (r is Some ==> r->0@ == rfc3339->0@)
            &&& match seconds {
                Some(x) => match spec_datetime_of_seconds(x as int) {
                    Some(parts) => date_time is Some && date_time->0.wf() && date_time->0.parts() == parts,
                    None => date_time is None,
                },
                None => date_time is None,
            }
        },
        Err(text) => v matches IcsValue::Text(t) && (t is Some <==> text is Some) && (t is Some ==> t->0@ == text->0@),
    }
}

/// The entry a raw entry stands for.
pub open spec fn entry_of_raw(e: IcsEntry, raw: RawIcsEntry) -> bool {
    &&& property_named(e.name, raw.0@)
    &&& e.values@.len() == raw.1@.len()
    &&& forall|i: int| 0 <= i < e.values@.len() ==> value_of_raw(#[trigger] e.values@[i], raw.1@[i])
}

/// The component a raw component stands for.
pub open spec fn component_of_raw(c: IcsComponent, raw: RawIcsComponent) -> bool {
    &&& c.is_event == raw.0
    &&& c.entries@.len() == raw.1@.len()
    &&& forall|i: int| 0 <= i < c.entries@.len() ==> entry_of_raw(#[trigger] c.entries@[i], raw.1@[i])
}

/// The components that raw components stand for, one for one.
pub open spec fn components_of_raw(cs: Seq<IcsComponent>, raws: Seq<RawIcsComponent>) -> bool {
    &&& cs.len() == raws.len()
    &&& forall|k: int| 0 <= k < cs.len() ==> component_of_raw(#[trigger] cs[k], raws[k])
}

fn copy_text(t: &Option<String>) -> (r: Option<String>)
    ensures
        r is Some <==> t is Some,
        r is Some ==> r->0@ == t->0@,
{
    match t {
        Some(s) => Some(s.clone()),
        None => None,
    }
}

/// The property a name stands for (see `property_named`).
fn property_of_name(name: &String) -> (p: IcsProperty)
    ensures
        property_named(p, name@),
{
    proof {
        reveal_strlit("UID");
        reveal_strlit("SUMMARY");
        reveal_strlit("DESCRIPTION");
        reveal_strlit("DTSTART");
        reveal_strlit("DTEND");
        reveal_strlit("CREATED");
        reveal_strlit("LAST-MODIFIED");
    }
    let n = name.as_str();
    if same_text(n, "UID") {
        IcsProperty::Uid
    } else if same_text(n, "SUMMARY") {
        IcsProperty::Summary
    } else if same_text(n, "DESCRIPTION") {
        IcsProperty::Description
    } else if same_text(n, "DTSTART") {
        IcsProperty::Dtstart
    } else if same_text(n, "DTEND") {
        IcsProperty::Dtend
    } else if same_text(n, "CREATED") {
        IcsProperty::Created
    } else if same_text(n, "LAST-MODIFIED") {
        IcsProperty::LastModified
    } else {
        IcsProperty::Other(name.clone())
    }
}

/// The value a raw value stands for (see `value_of_raw`).
fn value_of(raw: &RawIcsValue) -> (v: IcsValue)
    ensures
        value_of_raw(v, *raw),
{
    match raw {
        Ok((seconds, has_time, rfc3339)) => {
            let date_time = match seconds {
                Some(x) => datetime_of_seconds(*x),
                None => None,
            };
            IcsValue::DateTime { date_time, has_time: *has_time, rfc3339: copy_text(rfc3339) }
        },
        Err(text) => IcsValue::Text(copy_text(text)),
    }
}

/// The entry a raw entry stands for (see `entry_of_raw`).
fn entry_of(raw: &RawIcsEntry) -> (e: IcsEntry)
    ensures
        entry_of_raw(e, *raw),
{
    let mut values: Vec<IcsValue> = Vec::new();
    let mut i: usize = 0;
    while i < raw.1.len()
        invariant
            i <= raw.1@.len(),
            values@.len() == i,
            forall|j: int| 0 <= j < i ==> value_of_raw(#[trigger] values@[j], raw.1@[j]),
        decreases raw.1@.len() - i,
    {
        values.push(value_of(&raw.1[i]));
        i += 1;
    }
    IcsEntry { name: property_of_name(&raw.0), values }
}

/// The component a raw component stands for (see `component_of_raw`).
fn component_of(raw: &RawIcsComponent) -> (c: IcsComponent)
    ensures
        component_of_raw(c, *raw),
{
    let mut entries: Vec<IcsEntry> = Vec::new();
    let mut i: usize = 0;
    while i < raw.1.len()
        invariant
            i <= raw.1@.len(),
            entries@.len() == i,
            forall|j: int| 0 <= j < i ==> entry_of_raw(#[trigger] entries@[j], raw.1@[j]),
        decreases raw.1@.len() - i,
    {
        entries.push(entry_of(&raw.1[i]));
        i += 1;
    }
    IcsComponent { is_event: raw.0, entries }
}

/// The components of a calendar file, in file order, as the parser reads them
/// (see `parsed_ics`): property names become the properties the sync reads,
/// and date-times their local date and time.
pub fn ics_components(input: &str) -> (components: Vec<IcsComponent>)
    ensures
        components_of_raw(components@, parsed_ics(input@)),
{
    let raw = ics_raw_components(input);
    let mut out: Vec<IcsComponent> = Vec::new();
    let mut k: usize = 0;
    while k < raw.len()
        invariant
            k <= raw@.len(),
            raw@ == parsed_ics(input@),
            out@.len() == k,
            forall|j: int| 0 <= j < k ==> component_of_raw(#[trigger] out@[j], raw@[j]),
        decreases raw@.len() - k,
    {
        out.push(component_of(&raw[k]));
        k += 1;
    }
    out
}

/// Reads the events the sync keeps from the text of a calendar file: the
/// components the parser finds (see `ics_components`), then those events with a
/// start in `previous_year` or later, in file order (see `select_items`).
/// `None` when an event of the file cannot be read (see `item_readable`).
pub fn read_calendar_items(input: &str, previous_year: u32) -> (r: Option<Vec<SyncedItem>>)
    ensures
        exists|cs: Seq<IcsComponent>| {
            &&& #[trigger] components_of_raw(cs, parsed_ics(input@))
            &&& (r is Some <==> events_readable(cs))
            &&& r matches Some(items) ==> {
                let kept_components = cs.filter(|c: IcsComponent| kept(c, previous_year));
                &&& items@.len() == kept_components.len()
                &&& forall|j: int| 0 <= j < items@.len() ==> item_of(kept_components[j].entries@, #[trigger] items@[j])
            }
        },
{
    let components = ics_components(input);
    if !all_events_readable(&components) {
        return None;
    }
    Some(select_items(&components, previous_year))
}

/// Whether every event among the components can be read (see `events_readable`).
fn all_events_readable(components: &Vec<IcsComponent>) -> (b: bool)
    ensures
        b == events_readable(components@),
{
    let mut k: usize = 0;
    while k < components.len()
        invariant
            k <= components@.len(),
            forall|m: int| 0 <= m < k && (#[trigger] components@[m]).is_event ==> item_readable(components@[m].entries@),
        decreases components@.len() - k,
    {
        if components[k].is_event && !is_item_readable(&components[k]) {
            return false;
        }
        k += 1;
    }
    true
}

/// An item as the store held it before a sync: uid, title and start text.
#[derive(Clone, Debug)]
pub struct StoredItem {
    pub uid: String,
    pub title: String,
    pub start_at: String,
}

/// Whether some item of `items` has this uid.
pub open spec fn stored_has(items: Seq<StoredItem>, uid: Seq<char>) -> bool {
    exists|i: int| 0 <= i < items.len() && (#[trigger] items[i]).uid@ == uid
}

/// Whether some synced item has this uid.
pub open spec fn synced_has(items: Seq<SyncedItem>, uid: Seq<char>) -> bool {
    exists|i: int| 0 <= i < items.len() && (#[trigger] items[i]).uid@ == uid
}

/// A change as its kind (0 created, 1 updated, 2 removed) and the item's title.
pub open spec fn change_view(c: CalendarChange) -> (int, Seq<char>) {
    match c {
        CalendarChange::Created { title } => (0, title@),
        CalendarChange::Updated { title } => (1, title@),
        CalendarChange::Removed { title } => (2, title@),
    }
}

/// The change a synced item makes: created when no stored item has its uid,
/// updated when the first stored item with its uid had another title or start,
/// none otherwise.
pub open spec fn change_of(stored: Seq<StoredItem>, item: SyncedItem) -> Option<(int, Seq<char>)> {
    if !stored_has(stored, item.uid@) {
        Some((0, item.label@))
    } else {
        let s = stored[choose|i: int| 0 <= i < stored.len() && stored[i].uid@ == item.uid@
            && forall|j: int| 0 <= j < i ==> (#[trigger] stored[j]).uid@ != item.uid@];
        if s.title@ != item.label@ || s.start_at@ != spec_datetime_text(item.start_at) {
            Some((1, item.label@))
        } else {
            None
        }
    }
}

/// The changes of the first `n` synced items, in their order.
pub open spec fn item_changes(stored: Seq<StoredItem>, synced: Seq<SyncedItem>, n: nat) -> Seq<(int, Seq<char>)>
    decreases n,
{
    if n == 0 || n > synced.len() {
        Seq::empty()
    } else {
        let prev = item_changes(stored, synced, (n - 1) as nat);
        match change_of(stored, synced[n - 1]) {
            Some(c) => prev.push(c),
            None => prev,
        }
    }
}

/// The removals among the first `n` stored items: those whose uid no synced item has.
pub open spec fn removals(stored: Seq<StoredItem>, synced: Seq<SyncedItem>, n: nat) -> Seq<(int, Seq<char>)>
    decreases n,
{
    if n == 0 || n > stored.len() {
        Seq::empty()
    } else {
        let prev = removals(stored, synced, (n - 1) as nat);
        if synced_has(synced, stored[n - 1].uid@) {
            prev
        } else {
            prev.push((2, stored[n - 1].title@))
        }
    }
}

fn first_stored(stored: &[StoredItem], uid: &str) -> (found: Option<usize>)
    ensures
        found is None <==> !stored_has(stored@, uid@),
        found matches Some(i) ==> i < stored@.len() && stored@[i as int].uid@ == uid@
            && forall|j: int| 0 <= j < i ==> (#[trigger] stored@[j]).uid@ != uid@,
{
    let mut i: usize = 0;
    while i < stored.len()
        invariant
            i <= stored@.len(),
            forall|j: int| 0 <= j < i ==> (#[trigger] stored@[j]).uid@ != uid@,
        decreases stored@.len() - i,
    {
        if same_text(stored[i].uid.as_str(), uid) {
            return Some(i);
        }
        i += 1;
    }
    None
}

fn synced_contains(synced: &[SyncedItem], uid: &str) -> (found: bool)
    ensures
        found == synced_has(synced@, uid@),
{
    let mut i: usize = 0;
    while i < synced.len()
        invariant
            i <= synced@.len(),
            forall|j: int| 0 <= j < i ==> (#[trigger] synced@[j]).uid@ != uid@,
        decreases synced@.len() - i,
    {
        if same_text(synced[i].uid.as_str(), uid) {
            return true;
        }
        i += 1;
    }
    false
}

/// The changes the synced items make, in sync order (see `item_changes`).
fn synced_changes(stored: &[StoredItem], synced: &[SyncedItem]) -> (changes: Vec<CalendarChange>)
    ensures
        changes@.map_values(|c: CalendarChange| change_view(c)) == item_changes(stored@, synced@, synced@.len()),
{
    let mut changes: Vec<CalendarChange> = Vec::new();
    let mut k: usize = 0;
    while k < synced.len()
        invariant
            k <= synced@.len(),
            changes@.map_values(|c: CalendarChange| change_view(c)) == item_changes(stored@, synced@, k as nat),
        decreases synced@.len() - k,
    {
        let item = &synced[k];
        let ghost before = changes@;
        match first_stored(stored, item.uid.as_str()) {
            None => {
                changes.push(CalendarChange::Created { title: item.label.clone() });
                assert(changes@.map_values(|c: CalendarChange| change_view(c)) =~= before.map_values(
                    |c: CalendarChange| change_view(c),
                ).push((0, item.label@)));
            },
            Some(i) => {
                let start = datetime_text(&item.start_at);
                let s = &stored[i];
                proof {
                    let c = choose|j: int|
                        0 <= j < stored@.len() && stored@[j].uid@ == item.uid@ && forall|m: int|
                            0 <= m < j ==> (#[trigger] stored@[m]).uid@ != item.uid@;
                    assert(c == i as int) by {
                        if c > i as int {
                            assert(stored@[i as int].uid@ != item.uid@);
                        }
                    }
                }
                if !same_text(s.title.as_str(), item.label.as_str()) || !same_text(s.start_at.as_str(), start.as_str()) {
                    changes.push(CalendarChange::Updated { title: item.label.clone() });
                    assert(changes@.map_values(|c: CalendarChange| change_view(c)) =~= before.map_values(
                        |c: CalendarChange| change_view(c),
                    ).push((1, item.label@)));
                }
            },
        }
        k += 1;
    }
    changes
}

/// Appends a removal for each stored item whose uid the sync no longer has.
fn push_removals(changes: &mut Vec<CalendarChange>, stored: &[StoredItem], synced: &[SyncedItem])
    ensures
        final(changes)@.map_values(|c: CalendarChange| change_view(c))
            == old(changes)@.map_values(|c: CalendarChange| change_view(c)) + removals(stored@, synced@, stored@.len()),
{
    let ghost start = changes@.map_values(|c: CalendarChange| change_view(c));
    let mut r: usize = 0;
    assert(start + removals(stored@, synced@, 0) =~= start);
    while r < stored.len()
        invariant
            r <= stored@.len(),
            start == old(changes)@.map_values(|c: CalendarChange| change_view(c)),
            changes@.map_values(|c: CalendarChange| change_view(c)) == start + removals(stored@, synced@, r as nat),
        decreases stored@.len() - r,
    {
        let ghost before = changes@;
        if !synced_contains(synced, stored[r].uid.as_str()) {
            changes.push(CalendarChange::Removed { title: stored[r].title.clone() });
            assert(changes@.map_values(|c: CalendarChange| change_view(c)) =~= before.map_values(
                |c: CalendarChange| change_view(c),
            ).push((2, stored@[r as int].title@)));
        }
        r += 1;
    }
}

/// What a sync changed: each synced item that is new (created) or differs in
/// title or start from the stored item with its uid (updated), in sync order,
/// then each stored item whose uid the sync no longer has (removed), in stored order.
pub fn diff_items(stored: &[StoredItem], synced: &[SyncedItem]) -> (changes: Vec<CalendarChange>)
    ensures
        changes@.map_values(|c: CalendarChange| change_view(c))
            == item_changes(stored@, synced@, synced@.len()) + removals(stored@, synced@, stored@.len()),
{
    let mut changes = synced_changes(stored, synced);
    push_removals(&mut changes, stored, synced);
    changes
}

} // verus!
