//! Reading a calendar from the bytes of an `.ics` file, through `ical`.

use ical::parser::ical::component::{IcalEvent, IcalTimeZone, IcalTimeZoneTransitionType};
use ical::IcalParser;
use vstd::prelude::*;

use crate::model::{
    Alarm, Calendar, CalendarView, Event, EventView, Property, TimeZone, TimeZoneView, Transition, TransitionKind,
};

verus! {

/// `ical`'s event component, carried from the parser to [`event_from`].
#[verifier::external_type_specification]
#[verifier::external_body]
pub struct ExIcalEvent(IcalEvent);

/// `ical`'s timezone component, carried from the parser to [`timezone_from`].
#[verifier::external_type_specification]
#[verifier::external_body]
pub struct ExIcalTimeZone(IcalTimeZone);

/// What `ical`'s parser makes of the first calendar in `text`: none when the
/// text holds no calendar, the error's `Display` text when it does not parse,
/// else the calendar's properties, events (with their alarms) and timezone
/// definitions (with their transitions).
pub uninterp spec fn first_calendar_of(text: Seq<u8>) -> Option<Result<CalendarView, Seq<char>>>;

/// The properties and alarms that a parsed `ical` event holds.
pub uninterp spec fn event_content(e: IcalEvent) -> EventView;

/// The properties and transitions that a parsed `ical` timezone holds.
pub uninterp spec fn timezone_content(z: IcalTimeZone) -> TimeZoneView;

/// The first item of `ical::IcalParser::new(text)`: its `ParserError` as the
/// error's `Display` text, or its `IcalCalendar` split into the calendar's
/// properties (moved field for field into [`Property`]), its events and its
/// timezones. The contract names the outcome as a function of the bytes alone
/// and relates the events and timezones to it through what they hold.
#[verifier::external_body]
fn parse_first(text: &[u8]) -> (r: Option<Result<(Vec<Property>, Vec<IcalEvent>, Vec<IcalTimeZone>), String>>)
    ensures
        match first_calendar_of(text@) {
            None => r is None,
            Some(Err(m)) => r matches Some(Err(e)) && e@ == m,
            Some(Ok(v)) => r matches Some(Ok((ps, es, zs))) && {
                &&& ps.deep_view() == v.properties
                &&& es.len() == v.events.len()
                &&& forall|i: int| 0 <= i < es.len() ==> event_content(#[trigger] es@[i]) == v.events[i]
                &&& zs.len() == v.timezones.len()
                &&& forall|i: int| 0 <= i < zs.len() ==> timezone_content(#[trigger] zs@[i]) == v.timezones[i]
            },
        },
{
    match IcalParser::new(text).next()? {
        Err(e) => Some(Err(e.to_string())),
        Ok(c) => Some(Ok((
            c.properties.into_iter().map(|p| Property { name: p.name, params: p.params, value: p.value }).collect(),
            c.events,
            c.timezones,
        ))),
    }
}

/// An `ical` event moved field for field into an [`Event`]: its properties and
/// its alarms' properties.
#[verifier::external_body]
fn event_from(e: IcalEvent) -> (r: Event)
    ensures
        r@ == event_content(e),
{
    let ps = |v: Vec<ical::property::Property>| v.into_iter().map(|p| Property { name: p.name, params: p.params, value: p.value }).collect::<Vec<_>>();
    Event { properties: ps(e.properties), alarms: e.alarms.into_iter().map(|a| Alarm { properties: ps(a.properties) }).collect() }
}

/// An `ical` timezone moved field for field into a [`TimeZone`]: its
/// properties and its `STANDARD` and `DAYLIGHT` transitions, in order.
#[verifier::external_body]
fn timezone_from(z: IcalTimeZone) -> (r: TimeZone)
    ensures
        r@ == timezone_content(z),
{
    let ps = |v: Vec<ical::property::Property>| v.into_iter().map(|p| Property { name: p.name, params: p.params, value: p.value }).collect::<Vec<_>>();
    let kind = |t| match t { IcalTimeZoneTransitionType::STANDARD => TransitionKind::Standard, IcalTimeZoneTransitionType::DAYLIGHT => TransitionKind::Daylight };
    TimeZone { properties: ps(z.properties), transitions: z.transitions.into_iter().map(|t| Transition { kind: kind(t.transition), properties: ps(t.properties) }).collect() }
}

/// The first calendar of `text` as `ical` parses it, in the library's types.
pub fn parse_first_calendar(text: &[u8]) -> (r: Option<Result<Calendar, String>>)
    ensures
        match first_calendar_of(text@) {
            None => r is None,
            Some(Err(m)) => r matches Some(Err(e)) && e@ == m,
            Some(Ok(v)) => r matches Some(Ok(c)) && c@ == v,
        },
{
    let (properties, ical_events, ical_timezones) = match parse_first(text) {
        None => {
            return None;
        },
        Some(Err(e)) => {
            return Some(Err(e));
        },
        Some(Ok(parts)) => parts,
    };
    let ghost v = first_calendar_of(text@)->0->Ok_0;
    let mut events: Vec<Event> = Vec::new();
    let mut rest = ical_events;
    let ghost all_events = rest@;
    while rest.len() > 0
        invariant
            events.len() + rest.len() == all_events.len(),
            forall|i: int| 0 <= i < events.len() ==> #[trigger] events@[i]@ == event_content(all_events[i]),
            rest@ == all_events.subrange(events.len() as int, all_events.len() as int),
        decreases rest.len(),
    {
        let e = rest.remove(0);
        events.push(event_from(e));
    }
    let mut timezones: Vec<TimeZone> = Vec::new();
    let mut rest_z = ical_timezones;
    let ghost all_zones = rest_z@;
    while rest_z.len() > 0
        invariant
            timezones.len() + rest_z.len() == all_zones.len(),
            forall|i: int| 0 <= i < timezones.len() ==> #[trigger] timezones@[i]@ == timezone_content(all_zones[i]),
            rest_z@ == all_zones.subrange(timezones.len() as int, all_zones.len() as int),
        decreases rest_z.len(),
    {
        let z = rest_z.remove(0);
        timezones.push(timezone_from(z));
    }
    let c = Calendar { properties, events, timezones };
    assert(c@.events =~= v.events);
    assert(c@.timezones =~= v.timezones);
    Some(Ok(c))
}

} // verus!
