//! What a freshly parsed calendar offers the event picker.

use vstd::prelude::*;

use crate::lookup::{property_value, value_of};
use crate::parse::{first_calendar_of, parse_first_calendar};
use crate::model::{Calendar, CalendarView, Event, PropertyView};
use crate::text::{decimal, decimal_text};

verus! {

/// A parsed calendar plus one human-readable label per event, in order.
#[derive(Debug, Clone, PartialEq, Eq)]
pub struct LoadedCalendar {
    pub calendar: Calendar,
    pub labels: Vec<String>,
}

/// The picker label of the event with properties `props` at position `index`:
/// its 1-based number, its summary (or "(No title)"), and its start in
/// parentheses when it has a non-empty one.
pub open spec fn label_text(props: Seq<PropertyView>, index: nat) -> Seq<char> {
    let summary = match value_of(props, "SUMMARY"@) {
        Some(v) => v,
        None => "(No title)"@,
    };
    let start = match value_of(props, "DTSTART"@) {
        Some(v) => v,
        None => seq![],
    };
    if start.len() == 0 {
        decimal(index + 1) + ". "@ + summary
    } else {
        decimal(index + 1) + ". "@ + summary + " ("@ + start + ")"@
    }
}

/// The labels of all events of `c`, in order.
pub open spec fn event_labels(c: CalendarView) -> Seq<Seq<char>> {
    Seq::new(c.events.len(), |i: int| label_text(c.events[i].properties, i as nat))
}

/// The picker label of `event`, the event at position `index`.
pub fn event_label(event: &Event, index: usize) -> (r: String)
    requires
        index < usize::MAX,
    ensures
        r@ == label_text(event@.properties, index as nat),
{
    let summary = match property_value(event, "SUMMARY") {
        Some(v) => v,
        None => String::from_str("(No title)"),
    };
    let start = match property_value(event, "DTSTART") {
        Some(v) => v,
        None => String::new(),
    };
    let mut label = decimal_text(index + 1);
    label.append(". ");
    label.append(summary.as_str());
    if start.as_str().unicode_len() == 0 {
        label
    } else {
        label.append(" (");
        label.append(start.as_str());
        label.append(")");
        label
    }
}

/// Accepts the outcome of parsing a calendar file: `None` when the file held
/// no calendar, `Some(Err(message))` when parsing failed. A calendar without
/// events is refused; otherwise each event gets its label.
pub fn calendar_from_parse(parsed: Option<Result<Calendar, String>>) -> (r: Result<LoadedCalendar, String>)
    ensures
        match parsed {
            None => r matches Err(e) && e@ == "File does not contain a calendar"@,
            Some(Err(m)) => r matches Err(e) && e@ == "Failed to parse calendar: "@ + m@,
            Some(Ok(c)) => if c.events.len() == 0 {
                r matches Err(e) && e@ == "No events found in this calendar file"@
            } else {
                r matches Ok(loaded) && loaded.calendar == c && loaded.labels.deep_view() == event_labels(c@)
            },
        },
{
    let calendar = match parsed {
        None => {
            return Err(String::from_str("File does not contain a calendar"));
        },
        Some(Err(message)) => {
            let mut e = String::from_str("Failed to parse calendar: ");
            e.append(message.as_str());
            return Err(e);
        },
        Some(Ok(c)) => c,
    };
    if calendar.events.len() == 0 {
        return Err(String::from_str("No events found in this calendar file"));
    }
    let mut labels: Vec<String> = Vec::new();
    let mut i: usize = 0;
    while i < calendar.events.len()
        invariant
            i <= calendar.events.len(),
            labels.len() == i,
            forall|j: int| 0 <= j < i ==> #[trigger] labels@[j]@ == label_text(calendar@.events[j].properties, j as nat),
        decreases calendar.events.len() - i,
    {
        labels.push(event_label(&calendar.events[i], i));
        i = i + 1;
    }
    assert(labels.deep_view() =~= event_labels(calendar@));
    Ok(LoadedCalendar { calendar, labels })
}

/// Parses the first calendar of an iCalendar file's bytes and labels its
/// events; refuses a file without a calendar, one that does not parse, and a
/// calendar without events.
pub fn load_calendar(text: &[u8]) -> (r: Result<LoadedCalendar, String>)
    ensures
        match first_calendar_of(text@) {
            None => r matches Err(e) && e@ == "File does not contain a calendar"@,
            Some(Err(m)) => r matches Err(e) && e@ == "Failed to parse calendar: "@ + m,
            Some(Ok(v)) => if v.events.len() == 0 {
                r matches Err(e) && e@ == "No events found in this calendar file"@
            } else {
                r matches Ok(loaded) && loaded.calendar@ == v && loaded.labels.deep_view() == event_labels(v)
            },
        },
{
    calendar_from_parse(parse_first_calendar(text))
}

} // verus!
