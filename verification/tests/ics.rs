use icsqr::{
    calendar_can_be_written, calendar_from_parse, copy_recurrence_properties, event_ics, event_label, load_calendar, minimal_event,
    param_value, property, property_value, referenced_timezones, single_event_calendar, truncate_value,
    tzid_from_event, timezone_tzid, Alarm, Calendar, Event, Property, TimeZone, Transition, TransitionKind,
    DESCRIPTION_LIMIT, LOCATION_LIMIT,
};

fn event_with(props: Vec<Property>) -> Event {
    Event { properties: props, alarms: Vec::new() }
}

fn calendar_with(events: Vec<Event>) -> Calendar {
    Calendar { properties: Vec::new(), events, timezones: Vec::new() }
}

fn with_param(name: &str, value: &str, key: &str, param: &str) -> Property {
    Property {
        name: name.to_string(),
        params: Some(vec![(key.to_string(), vec![param.to_string()])]),
        value: Some(value.to_string()),
    }
}

fn timezone(tzid: &str) -> TimeZone {
    TimeZone {
        properties: vec![property("TZID", tzid)],
        transitions: vec![Transition {
            kind: TransitionKind::Standard,
            properties: vec![property("TZOFFSETTO", "+0100"), property("DTSTART", "19701025T030000")],
        }],
    }
}

fn names(event: &Event) -> Vec<String> {
    event.properties.iter().map(|p| p.name.clone()).collect()
}

#[test]
fn minimal_ics_omits_alarms_and_extra_fields() {
    let mut event = event_with(Vec::new());
    event.properties.push(property("SUMMARY", "Meet"));
    event.properties.push(property("DTSTART", "20260615T140000Z"));
    event.properties.push(property("DTEND", "20260615T150000Z"));
    event.properties.push(property("ORGANIZER", "mailto:boss@example.com"));
    event.properties.push(property("DESCRIPTION", "A".repeat(DESCRIPTION_LIMIT + 20).as_str()));

    let calendar = calendar_with(vec![event]);

    let ics = event_ics(&calendar, 0).unwrap();
    assert!(ics.contains("SUMMARY:Meet"));
    assert!(!ics.contains("ORGANIZER"));
    assert!(!ics.contains("VALARM"));
    assert!(!ics.contains("METHOD"));
    assert!(ics.contains("PRODID:-//i//EN"));
    assert!(ics.contains("DESCRIPTION:"));
    assert!(!ics.contains(&"A".repeat(DESCRIPTION_LIMIT + 10)));
}

#[test]
fn recurring_event_includes_rrule_and_exdate() {
    let mut event = event_with(Vec::new());
    event.properties.push(property("SUMMARY", "Standup"));
    event.properties.push(property("DTSTART", "20260615T140000Z"));
    event.properties.push(property("DTEND", "20260615T143000Z"));
    event.properties.push(property("RRULE", "FREQ=WEEKLY;BYDAY=MO,WE,FR"));
    event.properties.push(property("EXDATE", "20260701T140000Z"));
    event.properties.push(property("EXDATE", "20260703T140000Z"));
    event.properties.push(property("ATTENDEE", "mailto:a@example.com"));

    let calendar = calendar_with(vec![event]);

    let ics = event_ics(&calendar, 0).unwrap();
    assert!(ics.contains("RRULE:FREQ=WEEKLY;BYDAY=MO,WE,FR"));
    assert!(ics.contains("EXDATE:20260701T140000Z"));
    assert!(ics.contains("EXDATE:20260703T140000Z"));
    assert!(!ics.contains("ATTENDEE"));
}

#[test]
fn non_recurring_event_omits_rrule() {
    let mut event = event_with(Vec::new());
    event.properties.push(property("SUMMARY", "Once"));
    event.properties.push(property("DTSTART", "20260615T140000Z"));
    event.properties.push(property("DTEND", "20260615T150000Z"));

    let calendar = calendar_with(vec![event]);

    let ics = event_ics(&calendar, 0).unwrap();
    assert!(!ics.contains("RRULE:"));
    assert!(!ics.contains("EXDATE:"));
}

#[test]
fn export_text_is_exact() {
    let event = event_with(vec![
        property("SUMMARY", "Meet"),
        property("DTSTART", "20260615T140000Z"),
        property("DTEND", "20260615T150000Z"),
    ]);
    let calendar = calendar_with(vec![event]);
    let ics = event_ics(&calendar, 0).unwrap();
    assert_eq!(
        ics,
        "BEGIN:VCALENDAR\r\nVERSION:2.0\r\nPRODID:-//i//EN\r\nBEGIN:VEVENT\r\nSUMMARY:Meet\r\n\
         DTSTART:20260615T140000Z\r\nDTEND:20260615T150000Z\r\nUID:0@i\r\nDTSTAMP:20260615T140000Z\r\n\
         END:VEVENT\r\nEND:VCALENDAR\r\n"
    );
}

#[test]
fn export_with_timezone_and_alarm_text() {
    let mut event = event_with(vec![
        with_param("DTSTART", "20260615T140000", "TZID", "Europe/Berlin"),
        property("UID", "abc@example.com"),
        property("DTSTAMP", "20260601T000000Z"),
    ]);
    event.alarms.push(Alarm { properties: vec![property("ACTION", "DISPLAY")] });
    let mut calendar = calendar_with(vec![event]);
    calendar.timezones.push(timezone("Europe/Paris"));
    calendar.timezones.push(timezone("Europe/Berlin"));
    let ics = event_ics(&calendar, 0).unwrap();
    assert_eq!(
        ics,
        "BEGIN:VCALENDAR\r\nVERSION:2.0\r\nPRODID:-//i//EN\r\nBEGIN:VTIMEZONE\r\nTZID:Europe/Berlin\r\n\
         BEGIN:STANDARD\r\nTZOFFSETTO:+0100\r\nDTSTART:19701025T030000\r\nEND:STANDARD\r\nEND:VTIMEZONE\r\n\
         BEGIN:VEVENT\r\nDTSTART;TZID=Europe/Berlin:20260615T140000\r\nUID:abc@example.com\r\n\
         DTSTAMP:20260601T000000Z\r\nEND:VEVENT\r\nEND:VCALENDAR\r\n"
    );
}

#[test]
fn long_lines_are_folded_by_the_emitter() {
    let event = event_with(vec![property("SUMMARY", "B".repeat(100).as_str())]);
    let ics = event_ics(&calendar_with(vec![event]), 0).unwrap();
    let expected = format!("SUMMARY:{}\r\n {}\r\n", "B".repeat(67), "B".repeat(33));
    assert!(ics.contains(&expected));
}

#[test]
fn event_ics_rejects_missing_event() {
    let calendar = calendar_with(vec![event_with(vec![property("SUMMARY", "x")])]);
    assert_eq!(event_ics(&calendar, 1), Err("Selected event no longer exists".to_string()));
    assert_eq!(
        single_event_calendar(&calendar, 5).unwrap_err(),
        "Selected event no longer exists".to_string()
    );
}

#[test]
fn description_and_location_are_shortened() {
    let event = event_with(vec![
        property("LOCATION", "L".repeat(LOCATION_LIMIT + 1).as_str()),
        property("DESCRIPTION", "D".repeat(DESCRIPTION_LIMIT).as_str()),
    ]);
    let out = minimal_event(&event, 3);
    let location = out.properties[0].value.clone().unwrap();
    assert_eq!(location, format!("{}\u{2026}", "L".repeat(LOCATION_LIMIT - 1)));
    assert_eq!(location.chars().count(), LOCATION_LIMIT);
    let description = out.properties[1].value.clone().unwrap();
    assert_eq!(description, "D".repeat(DESCRIPTION_LIMIT));
}

#[test]
fn truncate_value_edge_cases() {
    let mut p = property("DESCRIPTION", "abcdef");
    truncate_value(&mut p, 6);
    assert_eq!(p.value.as_deref(), Some("abcdef"));
    truncate_value(&mut p, 3);
    assert_eq!(p.value.as_deref(), Some("ab\u{2026}"));
    let mut q = property("DESCRIPTION", "xyz");
    truncate_value(&mut q, 0);
    assert_eq!(q.value.as_deref(), Some("\u{2026}"));
    let mut r = Property { name: "LOCATION".to_string(), params: None, value: None };
    truncate_value(&mut r, 1);
    assert_eq!(r.value, None);
    let mut s = property("LOCATION", "äöüß");
    truncate_value(&mut s, 3);
    assert_eq!(s.value.as_deref(), Some("äö\u{2026}"));
}

#[test]
fn minimal_event_order_and_fallbacks() {
    let event = event_with(vec![
        property("X-CUSTOM", "1"),
        property("EXDATE", "20260101T000000Z"),
        property("DTEND", "20260615T150000Z"),
        property("SUMMARY", "First"),
        property("SUMMARY", "Second"),
        property("RRULE", "FREQ=DAILY"),
        property("DTSTART", "20260615T140000Z"),
        property("CATEGORIES", "work"),
    ]);
    let out = minimal_event(&event, 12);
    assert_eq!(names(&out), vec!["SUMMARY", "DTSTART", "DTEND", "EXDATE", "RRULE", "UID", "DTSTAMP"]);
    assert_eq!(out.properties[0].value.as_deref(), Some("First"));
    assert_eq!(out.properties[5].value.as_deref(), Some("12@i"));
    assert_eq!(out.properties[6].value.as_deref(), Some("20260615T140000Z"));
    assert!(out.alarms.is_empty());
}

#[test]
fn dtstamp_falls_back_to_epoch() {
    let out = minimal_event(&event_with(vec![property("SUMMARY", "No time")]), 0);
    assert_eq!(names(&out), vec!["SUMMARY", "UID", "DTSTAMP"]);
    assert_eq!(out.properties[1].value.as_deref(), Some("0@i"));
    assert_eq!(out.properties[2].value.as_deref(), Some("19700101T000000Z"));
}

#[test]
fn uid_and_dtstamp_come_from_source_without_params() {
    let event = event_with(vec![
        with_param("UID", "u-1", "X-P", "v"),
        property("DTSTAMP", "20250101T000000Z"),
        property("DTSTART", "20260101T000000Z"),
    ]);
    let out = minimal_event(&event, 7);
    let uid = out.properties.iter().find(|p| p.name == "UID").unwrap();
    assert_eq!(uid, &property("UID", "u-1"));
    let stamp = out.properties.iter().find(|p| p.name == "DTSTAMP").unwrap();
    assert_eq!(stamp.value.as_deref(), Some("20250101T000000Z"));
}

#[test]
fn copy_recurrence_properties_appends_in_order() {
    let source = event_with(vec![
        property("RDATE", "1"),
        property("SUMMARY", "s"),
        property("EXRULE", "2"),
        property("RDATE", "3"),
    ]);
    let mut event = event_with(vec![property("SUMMARY", "kept")]);
    copy_recurrence_properties(&source, &mut event);
    assert_eq!(names(&event), vec!["SUMMARY", "RDATE", "EXRULE", "RDATE"]);
    assert_eq!(event.properties[3].value.as_deref(), Some("3"));
}

#[test]
fn property_value_takes_the_first_of_a_name() {
    let event = event_with(vec![
        Property { name: "SUMMARY".to_string(), params: None, value: None },
        property("SUMMARY", "later"),
        property("DTSTART", "x"),
    ]);
    assert_eq!(property_value(&event, "SUMMARY"), None);
    assert_eq!(property_value(&event, "DTSTART"), Some("x".to_string()));
    assert_eq!(property_value(&event, "DTEND"), None);
}

#[test]
fn param_value_skips_empty_parameters() {
    let p = Property {
        name: "DTSTART".to_string(),
        params: Some(vec![
            ("TZID".to_string(), Vec::new()),
            ("VALUE".to_string(), vec!["DATE-TIME".to_string()]),
            ("TZID".to_string(), vec!["Asia/Tokyo".to_string(), "other".to_string()]),
        ]),
        value: Some("20260101T090000".to_string()),
    };
    assert_eq!(param_value(&p, "TZID"), Some("Asia/Tokyo".to_string()));
    assert_eq!(param_value(&p, "VALUE"), Some("DATE-TIME".to_string()));
    assert_eq!(param_value(&p, "X"), None);
    assert_eq!(param_value(&property("DTSTART", "v"), "TZID"), None);
}

#[test]
fn tzid_from_start_then_end() {
    let from_end = event_with(vec![
        property("DTSTART", "20260101T090000Z"),
        with_param("DTEND", "20260101T100000", "TZID", "America/New_York"),
    ]);
    assert_eq!(tzid_from_event(&from_end), Some("America/New_York".to_string()));
    let from_start = event_with(vec![
        with_param("DTSTART", "20260101T090000", "TZID", "Europe/Oslo"),
        with_param("DTEND", "20260101T100000", "TZID", "America/New_York"),
    ]);
    assert_eq!(tzid_from_event(&from_start), Some("Europe/Oslo".to_string()));
    assert_eq!(tzid_from_event(&event_with(vec![property("SUMMARY", "x")])), None);
}

#[test]
fn referenced_timezones_keeps_only_matching_blocks() {
    let mut calendar = calendar_with(Vec::new());
    calendar.timezones = vec![timezone("A"), timezone("B"), timezone("A")];
    let event = event_with(vec![with_param("DTSTART", "1", "TZID", "A")]);
    let found = referenced_timezones(&calendar, &event);
    assert_eq!(found, vec![timezone("A"), timezone("A")]);
    assert_eq!(timezone_tzid(&found[0]), Some("A".to_string()));
    let none = referenced_timezones(&calendar, &event_with(vec![property("DTSTART", "1")]));
    assert!(none.is_empty());
}

#[test]
fn labels_number_events_from_one() {
    let with_start = event_with(vec![property("SUMMARY", "Team standup"), property("DTSTART", "20260615T140000Z")]);
    assert_eq!(event_label(&with_start, 0), "1. Team standup (20260615T140000Z)");
    let untitled = event_with(vec![property("DTSTART", "")]);
    assert_eq!(event_label(&untitled, 41), "42. (No title)");
}

#[test]
fn load_calendar_outcomes() {
    assert_eq!(calendar_from_parse(None), Err("File does not contain a calendar".to_string()));
    assert_eq!(
        calendar_from_parse(Some(Err("incomplete object".to_string()))),
        Err("Failed to parse calendar: incomplete object".to_string())
    );
    assert_eq!(
        calendar_from_parse(Some(Ok(calendar_with(Vec::new())))),
        Err("No events found in this calendar file".to_string())
    );
    let calendar = calendar_with(vec![
        event_with(vec![property("SUMMARY", "One")]),
        event_with(vec![property("DTSTART", "20260101")]),
    ]);
    let loaded = calendar_from_parse(Some(Ok(calendar.clone()))).unwrap();
    assert_eq!(loaded.calendar, calendar);
    assert_eq!(loaded.labels, vec!["1. One".to_string(), "2. (No title) (20260101)".to_string()]);
}

#[test]
fn writability_check_finds_bad_parameter_values() {
    let good = calendar_with(vec![event_with(vec![with_param("DTSTART", "1", "TZID", "Europe/Berlin")])]);
    assert!(calendar_can_be_written(&good));
    let empty = calendar_with(vec![event_with(vec![with_param("DTSTART", "1", "TZID", "")])]);
    assert!(!calendar_can_be_written(&empty));
    let mut in_alarm = calendar_with(vec![event_with(Vec::new())]);
    in_alarm.events[0].alarms.push(Alarm { properties: vec![with_param("TRIGGER", "-PT5M", "RELATED", "Ärger")] });
    assert!(!calendar_can_be_written(&in_alarm));
    let mut fine_in_alarm = calendar_with(vec![event_with(Vec::new())]);
    fine_in_alarm.events[0].alarms.push(Alarm { properties: vec![with_param("TRIGGER", "-PT5M", "RELATED", "Stärt")] });
    assert!(calendar_can_be_written(&fine_in_alarm));
    let quoted = calendar_with(vec![event_with(vec![with_param("LOCATION", "x", "ALTREP", "\"a;b\"")])]);
    assert!(calendar_can_be_written(&quoted));
    let escaped_after_umlaut = calendar_with(vec![event_with(vec![with_param("LOCATION", "x", "ALTREP", "üa;")])]);
    assert!(!calendar_can_be_written(&escaped_after_umlaut));
}

#[test]
fn non_ascii_parameter_values_that_can_be_written() {
    let event = event_with(vec![with_param("DTSTART", "20260615T140000", "TZID", "Europe/Zürich")]);
    let calendar = calendar_with(vec![event]);
    assert!(calendar_can_be_written(&single_event_calendar(&calendar, 0).unwrap()));
    let ics = event_ics(&calendar, 0).unwrap();
    assert!(ics.contains("DTSTART;TZID=Europe/Zürich:20260615T140000\r\n"));
}

#[test]
fn quoted_parameter_values_keep_their_separators() {
    let event = event_with(vec![with_param("LOCATION", "Room 1", "ALTREP", "\"cid:a;b\"")]);
    let ics = event_ics(&calendar_with(vec![event]), 0).unwrap();
    assert!(ics.contains("LOCATION;ALTREP=\"cid:a;b\":Room 1\r\n"));
    let plain = event_with(vec![with_param("LOCATION", "Room 1", "X-NOTE", "a;b")]);
    let ics = event_ics(&calendar_with(vec![plain]), 0).unwrap();
    assert!(ics.contains("LOCATION;X-NOTE=a\\;b:Room 1\r\n"));
}

#[test]
fn every_value_judged_writable_is_written() {
    let values = [
        "a", "ab", "\"", "\"\"", "\"a\"", "a\nb", "\n", "x\n", "ü", "üa", "aü", "aü;", "a;ü", "\"ü\"", "\"a;ü\"",
        "ä\n", "a\nä", "Zürich", "a,b:c\\d", "\\;", "a\\;b", "日本;", "a日本", "\"日本\"", "x;y;z", "\"a\nb\"", "é",
        "ab\"", "a\"b",
    ];
    let mut written = 0;
    for v in values {
        let calendar = calendar_with(vec![event_with(vec![with_param("LOCATION", "here", "X-V", v)])]);
        let single = single_event_calendar(&calendar, 0).unwrap();
        if calendar_can_be_written(&single) {
            let ics = event_ics(&calendar, 0).unwrap();
            assert!(ics.starts_with("BEGIN:VCALENDAR\r\n"));
            written += 1;
        }
    }
    assert!(written >= 20);
}

const SAMPLE: &str = "BEGIN:VCALENDAR\r\nVERSION:2.0\r\nPRODID:-//Example//EN\r\nMETHOD:PUBLISH\r\n\
BEGIN:VTIMEZONE\r\nTZID:Europe/Berlin\r\nBEGIN:STANDARD\r\nTZOFFSETTO:+0100\r\nEND:STANDARD\r\n\
BEGIN:DAYLIGHT\r\nTZOFFSETTO:+0200\r\nEND:DAYLIGHT\r\nEND:VTIMEZONE\r\n\
BEGIN:VEVENT\r\nSUMMARY:Team standup\r\nDTSTART;TZID=Europe/Berlin:20260615T140000\r\n\
RRULE:FREQ=WEEKLY;BYDAY=MO,WE,FR\r\nUID:abc123@google.com\r\n\
BEGIN:VALARM\r\nACTION:DISPLAY\r\nEND:VALARM\r\nEND:VEVENT\r\n\
BEGIN:VEVENT\r\nDTSTART:20260616T090000Z\r\nEND:VEVENT\r\nEND:VCALENDAR\r\n";

#[test]
fn load_calendar_parses_file_text() {
    let loaded = load_calendar(SAMPLE.as_bytes()).unwrap();
    assert_eq!(
        loaded.labels,
        vec!["1. Team standup (20260615T140000)".to_string(), "2. (No title) (20260616T090000Z)".to_string()]
    );
    let cal = &loaded.calendar;
    assert_eq!(cal.properties.len(), 3);
    assert_eq!(cal.events[0].alarms.len(), 1);
    assert_eq!(cal.timezones[0].transitions.len(), 2);
    assert_eq!(cal.timezones[0].transitions[1].kind, TransitionKind::Daylight);
    assert_eq!(
        cal.events[0].properties[1].params,
        Some(vec![("TZID".to_string(), vec!["Europe/Berlin".to_string()])])
    );
    let ics = event_ics(cal, 0).unwrap();
    assert!(ics.contains("TZID:Europe/Berlin\r\nBEGIN:STANDARD"));
    assert!(ics.contains("RRULE:FREQ=WEEKLY;BYDAY=MO,WE,FR\r\nUID:abc123@google.com\r\nDTSTAMP:20260615T140000\r\n"));
    assert!(!ics.contains("METHOD") && !ics.contains("VALARM"));
}

#[test]
fn load_calendar_refusals() {
    assert_eq!(load_calendar(b""), Err("File does not contain a calendar".to_string()));
    assert_eq!(
        load_calendar(b"BEGIN:VCALENDAR\r\nVERSION:2.0\r\nEND:VCALENDAR\r\n"),
        Err("No events found in this calendar file".to_string())
    );
    let broken = load_calendar(b"BEGIN:VCALENDAR\r\nBEGIN:VEVENT\r\nSUMMARY:x\r\n").unwrap_err();
    assert!(broken.starts_with("Failed to parse calendar: "), "{broken}");
}
