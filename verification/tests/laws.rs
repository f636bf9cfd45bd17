use icsqr::{event_ics, minimal_event, property, single_event_calendar, Alarm, Calendar, Event, Property};

fn sample_event() -> Event {
    Event {
        properties: vec![
            property("ORGANIZER", "mailto:boss@example.com"),
            property("SUMMARY", "Planning"),
            Property {
                name: "DTSTART".to_string(),
                params: Some(vec![("TZID".to_string(), vec!["Europe/Berlin".to_string()])]),
                value: Some("20260615T140000".to_string()),
            },
            property("RRULE", "FREQ=WEEKLY"),
            property("LOCATION", "R".repeat(200).as_str()),
            property("DESCRIPTION", "D".repeat(300).as_str()),
            property("EXDATE", "20260622T140000"),
            property("X-APPLE-STRUCTURED-LOCATION", "geo:1,2"),
        ],
        alarms: vec![Alarm { properties: vec![property("ACTION", "DISPLAY")] }],
    }
}

#[test]
fn law_only_listed_fields_survive() {
    let kept = ["SUMMARY", "DTSTART", "DTEND", "DURATION", "LOCATION", "DESCRIPTION", "RRULE", "RDATE", "EXDATE",
        "EXRULE", "UID", "DTSTAMP"];
    let out = minimal_event(&sample_event(), 4);
    for p in &out.properties {
        assert!(kept.contains(&p.name.as_str()), "unexpected {}", p.name);
    }
    assert!(out.alarms.is_empty());
}

#[test]
fn law_recurrence_is_kept_in_order() {
    let out = minimal_event(&sample_event(), 0);
    let rec: Vec<&str> = out
        .properties
        .iter()
        .filter(|p| ["RRULE", "RDATE", "EXDATE", "EXRULE"].contains(&p.name.as_str()))
        .map(|p| p.value.as_deref().unwrap())
        .collect();
    assert_eq!(rec, vec!["FREQ=WEEKLY", "20260622T140000"]);
}

#[test]
fn law_lengths_are_limited() {
    let out = minimal_event(&sample_event(), 0);
    for p in &out.properties {
        let len = p.value.as_deref().unwrap_or("").chars().count();
        if p.name == "DESCRIPTION" {
            assert_eq!(len, 120);
        }
        if p.name == "LOCATION" {
            assert_eq!(len, 80);
        }
    }
}

#[test]
fn law_uid_and_stamp_always_present() {
    let out = minimal_event(&sample_event(), 9);
    let uid = out.properties.iter().find(|p| p.name == "UID").unwrap();
    assert_eq!(uid.value.as_deref(), Some("9@i"));
    let stamp = out.properties.iter().find(|p| p.name == "DTSTAMP").unwrap();
    assert_eq!(stamp.value.as_deref(), Some("20260615T140000"));
}

#[test]
fn law_export_is_idempotent() {
    let once = minimal_event(&sample_event(), 2);
    let twice = minimal_event(&once, 2);
    assert_eq!(once, twice);
}

#[test]
fn law_single_event_and_referenced_timezone() {
    let mut calendar = Calendar { properties: vec![property("METHOD", "PUBLISH")], events: Vec::new(), timezones: Vec::new() };
    calendar.events.push(Event { properties: vec![property("SUMMARY", "Other")], alarms: Vec::new() });
    calendar.events.push(sample_event());
    for tzid in ["Europe/London", "Europe/Berlin"] {
        calendar.timezones.push(icsqr::TimeZone { properties: vec![property("TZID", tzid)], transitions: Vec::new() });
    }
    let single = single_event_calendar(&calendar, 1).unwrap();
    assert_eq!(single.events.len(), 1);
    assert_eq!(single.events[0], minimal_event(&sample_event(), 1));
    assert_eq!(single.properties, vec![property("VERSION", "2.0"), property("PRODID", "-//i//EN")]);
    assert_eq!(single.timezones.len(), 1);
    assert_eq!(single.timezones[0].properties[0].value.as_deref(), Some("Europe/Berlin"));
    let text = event_ics(&calendar, 1).unwrap();
    assert!(!text.contains("METHOD"));
    assert!(!text.contains("Other"));
    assert!(!text.contains("Europe/London"));
    assert_eq!(text.matches("BEGIN:VEVENT").count(), 1);
}

#[test]
fn law_rgba_pixels_are_grey_and_opaque() {
    let gray = vec![0u8, 255, 0];
    let rgba = icsqr::qr::gray_to_rgba(&gray);
    assert_eq!(rgba, vec![0, 0, 0, 255, 255, 255, 255, 255, 0, 0, 0, 255]);
}
