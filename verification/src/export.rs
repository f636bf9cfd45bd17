//! Choosing what of a calendar goes into a minimal single-event export.

use vstd::prelude::*;

use crate::emit::{calendar_emittable, calendar_ics, calendar_text};
use crate::lookup::{event_tzid, find_property, first_named, property_value, timezone_tzid, tzid_from_event, value_of};
use crate::model::{Calendar, CalendarView, Event, EventView, Property, PropertyView, TimeZone, TimeZoneView};
use crate::text::{decimal, decimal_text, text_is, truncate_text, truncated};

verus! {

/// The longest `DESCRIPTION` value, in characters, that an export keeps whole.
pub const DESCRIPTION_LIMIT: usize = 120;

/// The longest `LOCATION` value, in characters, that an export keeps whole.
pub const LOCATION_LIMIT: usize = 80;

/// A property with no parameters and the given value.
pub open spec fn plain_property(name: Seq<char>, value: Seq<char>) -> PropertyView {
    PropertyView { name, params: None, value: Some(value) }
}

/// `p` with its value, if it has one, shortened to `max_len` characters.
pub open spec fn limit_value(p: PropertyView, max_len: nat) -> PropertyView {
    PropertyView {
        name: p.name,
        params: p.params,
        value: match p.value {
            Some(v) => Some(truncated(v, max_len)),
            None => None,
        },
    }
}

/// `p` as an export carries it: `DESCRIPTION` and `LOCATION` values shortened.
pub open spec fn shortened(p: PropertyView) -> PropertyView {
    if p.name == "DESCRIPTION"@ {
        limit_value(p, DESCRIPTION_LIMIT as nat)
    } else if p.name == "LOCATION"@ {
        limit_value(p, LOCATION_LIMIT as nat)
    } else {
        p
    }
}

/// The first property of `src` called `name`, as an export carries it.
pub open spec fn picked(src: Seq<PropertyView>, name: Seq<char>) -> Seq<PropertyView> {
    match first_named(src, name) {
        Some(p) => seq![shortened(p)],
        None => seq![],
    }
}

/// The core event fields, in the order an export lists them.
pub open spec fn event_field_names() -> Seq<Seq<char>> {
    seq!["SUMMARY"@, "DTSTART"@, "DTEND"@, "DURATION"@, "LOCATION"@, "DESCRIPTION"@]
}

/// For each of `names` in turn, the first property of `src` of that name.
pub open spec fn picked_all(src: Seq<PropertyView>, names: Seq<Seq<char>>) -> Seq<PropertyView>
    decreases names.len(),
{
    if names.len() == 0 {
        seq![]
    } else {
        picked_all(src, names.drop_last()) + picked(src, names.last())
    }
}

/// Whether a property of this name carries recurrence.
pub open spec fn is_recurrence_name(name: Seq<char>) -> bool {
    name == "RRULE"@ || name == "RDATE"@ || name == "EXDATE"@ || name == "EXRULE"@
}

/// Every recurrence property of `src`, in order, repeats included.
pub open spec fn recurrence_properties(src: Seq<PropertyView>) -> Seq<PropertyView> {
    src.filter(|p: PropertyView| is_recurrence_name(p.name))
}

/// The `UID` an export gives the event at `index`.
pub open spec fn event_uid(src: Seq<PropertyView>, index: nat) -> Seq<char> {
    match value_of(src, "UID"@) {
        Some(v) => v,
        None => decimal(index) + "@i"@,
    }
}

/// The `DTSTAMP` an export gives an event: its own, else its start, else the epoch.
pub open spec fn event_stamp(src: Seq<PropertyView>) -> Seq<char> {
    match value_of(src, "DTSTAMP"@) {
        Some(v) => v,
        None => match value_of(src, "DTSTART"@) {
            Some(v) => v,
            None => "19700101T000000Z"@,
        },
    }
}

/// The properties of the minimal copy of an event with properties `src` at `index`.
pub open spec fn minimal_properties(src: Seq<PropertyView>, index: nat) -> Seq<PropertyView> {
    picked_all(src, event_field_names()) + recurrence_properties(src) + seq![
        plain_property("UID"@, event_uid(src, index)),
        plain_property("DTSTAMP"@, event_stamp(src)),
    ]
}

/// The minimal copy of `source`, the event at `index`: no alarms.
pub open spec fn minimal_event_view(source: EventView, index: nat) -> EventView {
    EventView { properties: minimal_properties(source.properties, index), alarms: seq![] }
}

/// The timezone definitions of `timezones` whose `TZID` is `tzid`, in order.
pub open spec fn timezones_named(timezones: Seq<TimeZoneView>, tzid: Seq<char>) -> Seq<TimeZoneView> {
    timezones.filter(|tz: TimeZoneView| value_of(tz.properties, "TZID"@) == Some(tzid))
}

/// The timezone definitions of `timezones` named `tzid`, in order; none without a `tzid`.
pub open spec fn referenced_timezone_views(timezones: Seq<TimeZoneView>, tzid: Option<Seq<char>>) -> Seq<TimeZoneView> {
    match tzid {
        Some(t) => timezones_named(timezones, t),
        None => seq![],
    }
}

/// The calendar that holds the minimal copy of event `index` of `calendar`.
pub open spec fn exported_calendar(calendar: CalendarView, index: nat) -> CalendarView {
    let event = minimal_event_view(calendar.events[index as int], index);
    CalendarView {
        properties: seq![plain_property("VERSION"@, "2.0"@), plain_property("PRODID"@, "-//i//EN"@)],
        events: seq![event],
        timezones: referenced_timezone_views(calendar.timezones, event_tzid(event.properties)),
    }
}

/// A property with no parameters.
pub fn property(name: &str, value: &str) -> (r: Property)
    ensures
        r@ == plain_property(name@, value@),
{
    Property { name: String::from_str(name), params: None, value: Some(String::from_str(value)) }
}

/// Shortens the value of `property`, if it has one, to `max_len` characters.
pub fn truncate_value(property: &mut Property, max_len: usize)
    ensures
        final(property)@ == limit_value(old(property)@, max_len as nat),
{
    let shorter = match &property.value {
        Some(v) => Some(truncate_text(v, max_len)),
        None => None,
    };
    property.value = shorter;
}

/// Appends to `props` the first property of `source` called `name`, with
/// `DESCRIPTION` and `LOCATION` values shortened.
fn copy_field(source: &Vec<Property>, props: &mut Vec<Property>, name: &str)
    ensures
        final(props).deep_view() == old(props).deep_view() + picked(source.deep_view(), name@),
{
    proof {
        reveal_strlit("DESCRIPTION");
        reveal_strlit("LOCATION");
    }
    match find_property(source, name) {
        None => {
            assert(old(props).deep_view() + picked(source.deep_view(), name@) =~= old(props).deep_view());
        },
        Some(i) => {
            let mut prop = source[i].duplicate();
            if text_is(&prop.name, "DESCRIPTION") {
                truncate_value(&mut prop, DESCRIPTION_LIMIT);
            } else if text_is(&prop.name, "LOCATION") {
                truncate_value(&mut prop, LOCATION_LIMIT);
            }
            assert(prop@ == shortened(source@[i as int]@));
            props.push(prop);
            assert(props.deep_view() =~= old(props).deep_view() + picked(source.deep_view(), name@));
        },
    }
}

/// Whether a property called `name` carries recurrence.
fn is_recurrence(name: &String) -> (r: bool)
    ensures
        r == is_recurrence_name(name@),
{
    text_is(name, "RRULE") || text_is(name, "RDATE") || text_is(name, "EXDATE") || text_is(name, "EXRULE")
}

/// Appends to `event` every recurrence property of `source`, in order.
pub fn copy_recurrence_properties(source: &Event, event: &mut Event)
    ensures
        final(event)@ == (EventView {
            properties: old(event)@.properties + recurrence_properties(source@.properties),
            alarms: old(event)@.alarms,
        }),
{
    let ghost src = source@.properties;
    let mut i: usize = 0;
    assert(recurrence_properties(src.take(0)) =~= seq![]);
    assert(event.properties.deep_view() =~= old(event)@.properties + recurrence_properties(src.take(0)));
    while i < source.properties.len()
        invariant
            i <= source.properties.len(),
            src == source@.properties,
            src.len() == source.properties.len(),
            event.properties.deep_view() == old(event)@.properties + recurrence_properties(src.take(i as int)),
            event.alarms == old(event).alarms,
        decreases source.properties.len() - i,
    {
        assert(src.take(i + 1).drop_last() =~= src.take(i as int));
        assert(src.take(i + 1).last() == source.properties@[i as int]@);
        proof {
            reveal_with_fuel(Seq::<PropertyView>::filter, 1);
        }
        assert(recurrence_properties(src.take(i + 1)) == if is_recurrence_name(source.properties@[i as int]@.name) {
            recurrence_properties(src.take(i as int)).push(source.properties@[i as int]@)
        } else {
            recurrence_properties(src.take(i as int))
        });
        let ghost before = event.properties.deep_view();
        if is_recurrence(&source.properties[i].name) {
            event.properties.push(source.properties[i].duplicate());
            assert(event.properties.deep_view() =~= before.push(source.properties@[i as int]@));
            assert(event.properties.deep_view() =~= old(event)@.properties + recurrence_properties(src.take(i + 1)));
        } else {
            assert(event.properties.deep_view() =~= old(event)@.properties + recurrence_properties(src.take(i + 1)));
        }
        i = i + 1;
    }
    assert(src.take(i as int) =~= src);
}

/// The minimal copy of `source`, the event at `event_index`: its core fields
/// (descriptions and locations shortened), its recurrence, a `UID` and a `DTSTAMP`.
pub fn minimal_event(source: &Event, event_index: usize) -> (e: Event)
    ensures
        e@ == minimal_event_view(source@, event_index as nat),
{
    let ghost src = source@.properties;
    let mut props: Vec<Property> = Vec::new();
    let names: Vec<&str> = vec!["SUMMARY", "DTSTART", "DTEND", "DURATION", "LOCATION", "DESCRIPTION"];
    let mut k: usize = 0;
    assert(names@.map_values(|s: &str| s@) =~= event_field_names());
    while k < names.len()
        invariant
            k <= names.len(),
            names.len() == 6,
            src == source@.properties,
            names@.map_values(|s: &str| s@) == event_field_names(),
            props.deep_view() == picked_all(src, event_field_names().take(k as int)),
        decreases names.len() - k,
    {
        assert(event_field_names().take(k + 1).drop_last() =~= event_field_names().take(k as int));
        assert(event_field_names()[k as int] == names@[k as int]@);
        copy_field(&source.properties, &mut props, names[k]);
        k = k + 1;
    }
    assert(event_field_names().take(6) =~= event_field_names());
    let mut event = Event { properties: props, alarms: Vec::new() };
    copy_recurrence_properties(source, &mut event);

    let uid = match property_value(source, "UID") {
        Some(v) => v,
        None => {
            let mut t = decimal_text(event_index);
            t.append("@i");
            t
        },
    };
    event.properties.push(property("UID", uid.as_str()));

    let stamp = match property_value(source, "DTSTAMP") {
        Some(v) => v,
        None => match property_value(source, "DTSTART") {
            Some(v) => v,
            None => String::from_str("19700101T000000Z"),
        },
    };
    event.properties.push(property("DTSTAMP", stamp.as_str()));
    assert(event@.alarms =~= seq![]);
    assert(event@.properties =~= minimal_properties(src, event_index as nat));
    event
}

/// The timezone definitions of `calendar` that `event`'s start or end refers to.
pub fn referenced_timezones(calendar: &Calendar, event: &Event) -> (r: Vec<TimeZone>)
    ensures
        r.deep_view() == referenced_timezone_views(calendar@.timezones, event_tzid(event@.properties)),
{
    let tzid = match tzid_from_event(event) {
        Some(t) => t,
        None => {
            return Vec::new();
        },
    };
    let ghost tzs = calendar@.timezones;
    let mut out: Vec<TimeZone> = Vec::new();
    let mut i: usize = 0;
    assert(timezones_named(tzs.take(0), tzid@) =~= seq![]);
    while i < calendar.timezones.len()
        invariant
            i <= calendar.timezones.len(),
            tzs == calendar@.timezones,
            tzs.len() == calendar.timezones.len(),
            out.deep_view() == timezones_named(tzs.take(i as int), tzid@),
        decreases calendar.timezones.len() - i,
    {
        assert(tzs.take(i + 1).drop_last() =~= tzs.take(i as int));
        assert(tzs.take(i + 1).last() == calendar.timezones@[i as int]@);
        proof {
            reveal_with_fuel(Seq::<TimeZoneView>::filter, 1);
        }
        let matches = match timezone_tzid(&calendar.timezones[i]) {
            Some(t) => t == tzid,
            None => false,
        };
        if matches {
            out.push(calendar.timezones[i].duplicate());
        }
        assert(out.deep_view() =~= timezones_named(tzs.take(i + 1), tzid@));
        i = i + 1;
    }
    assert(tzs.take(i as int) =~= tzs);
    out
}

/// The calendar that carries only the minimal copy of event `event_index` of
/// `calendar`, with a `VERSION` and a short `PRODID`, and the timezone
/// definitions that the copy refers to.
pub fn single_event_calendar(calendar: &Calendar, event_index: usize) -> (r: Result<Calendar, String>)
    ensures
        event_index < calendar.events.len() ==> (r matches Ok(c) && c@ == exported_calendar(calendar@, event_index as nat)),
        event_index >= calendar.events.len() ==> (r matches Err(e) && e@ == "Selected event no longer exists"@),
{
    if event_index >= calendar.events.len() {
        return Err(String::from_str("Selected event no longer exists"));
    }
    let event = &calendar.events[event_index];
    let minimal = minimal_event(event, event_index);
    let mut properties: Vec<Property> = Vec::new();
    properties.push(property("VERSION", "2.0"));
    properties.push(property("PRODID", "-//i//EN"));
    let timezones = referenced_timezones(calendar, &minimal);
    let mut events: Vec<Event> = Vec::new();
    events.push(minimal);
    let single = Calendar { properties, events, timezones };
    assert(single@.properties =~= exported_calendar(calendar@, event_index as nat).properties);
    assert(single@.events =~= exported_calendar(calendar@, event_index as nat).events);
    Ok(single)
}

/// The minimal single-event iCalendar text for event `event_index` of
/// `calendar`, as a QR code carries it.
pub fn event_ics(calendar: &Calendar, event_index: usize) -> (r: Result<String, String>)
    requires
        event_index < calendar.events.len() ==> calendar_emittable(exported_calendar(calendar@, event_index as nat)),
    ensures
        event_index < calendar.events.len() ==> (r matches Ok(text) && text@ == calendar_text(
            exported_calendar(calendar@, event_index as nat),
        )),
        event_index >= calendar.events.len() ==> (r matches Err(e) && e@ == "Selected event no longer exists"@),
{
    let single = single_event_calendar(calendar, event_index)?;
    Ok(calendar_ics(&single))
}

} // verus!
