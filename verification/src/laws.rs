//! What every export keeps and drops, stated over the model and proved.

use vstd::prelude::*;

use crate::export::{
    event_field_names, event_stamp, event_uid, exported_calendar, is_recurrence_name, minimal_event_view,
    minimal_properties, picked, picked_all, plain_property, recurrence_properties, referenced_timezone_views,
    limit_value, shortened, DESCRIPTION_LIMIT, LOCATION_LIMIT,
};
use crate::emit::{lines_text, param_value_emittable, transition_text};
use crate::lookup::{event_tzid, first_named, value_of};
use crate::model::{CalendarView, PropertyView, TimeZoneView, TransitionKind, TransitionView};
use crate::qr::rgba_of;
use crate::text::{decimal, digit_char, ellipsis, kept_chars, truncated};
use vstd::utf8::{
    encode_utf8, encode_utf8_valid_utf8, is_ascii_chars, is_ascii_chars_encode_utf8,
    is_char_boundary_iff_is_leading_byte,
};

verus! {

/// Whether an exported event may carry a property of this name.
pub open spec fn is_kept_event_name(name: Seq<char>) -> bool {
    ||| event_field_names().contains(name)
    ||| is_recurrence_name(name)
    ||| name == "UID"@
    ||| name == "DTSTAMP"@
}

proof fn lemma_first_named_name(s: Seq<PropertyView>, n: Seq<char>)
    ensures
        first_named(s, n) matches Some(p) ==> p.name == n && s.contains(p),
    decreases s.len(),
{
    if s.len() > 0 && s[0].name != n {
        lemma_first_named_name(s.drop_first(), n);
        if let Some(p) = first_named(s, n) {
            let k = choose|k: int| 0 <= k < s.drop_first().len() && s.drop_first()[k] == p;
            assert(s[k + 1] == p);
        }
    }
}

proof fn lemma_first_named_absent(s: Seq<PropertyView>, n: Seq<char>)
    requires
        forall|i: int| 0 <= i < s.len() ==> #[trigger] s[i].name != n,
    ensures
        first_named(s, n) is None,
    decreases s.len(),
{
    if s.len() > 0 {
        assert forall|i: int| 0 <= i < s.drop_first().len() implies #[trigger] s.drop_first()[i].name != n by {
            assert(s.drop_first()[i] == s[i + 1]);
        }
        lemma_first_named_absent(s.drop_first(), n);
    }
}

proof fn lemma_first_named_append(a: Seq<PropertyView>, b: Seq<PropertyView>, n: Seq<char>)
    ensures
        first_named(a + b, n) == (if first_named(a, n) is Some { first_named(a, n) } else { first_named(b, n) }),
    decreases a.len(),
{
    if a.len() == 0 {
        assert(a + b =~= b);
    } else {
        assert((a + b)[0] == a[0]);
        assert((a + b).drop_first() =~= a.drop_first() + b);
        lemma_first_named_append(a.drop_first(), b, n);
    }
}

proof fn lemma_picked_all_members(src: Seq<PropertyView>, names: Seq<Seq<char>>)
    ensures
        forall|i: int| 0 <= i < picked_all(src, names).len() ==> {
            let p = #[trigger] picked_all(src, names)[i];
            &&& names.contains(p.name)
            &&& first_named(src, p.name) matches Some(q) && p == shortened(q)
        },
    decreases names.len(),
{
    if names.len() > 0 {
        let rest = names.drop_last();
        lemma_picked_all_members(src, rest);
        lemma_first_named_name(src, names.last());
        let whole = picked_all(src, names);
        assert forall|i: int| 0 <= i < whole.len() implies {
            let p = #[trigger] whole[i];
            &&& names.contains(p.name)
            &&& first_named(src, p.name) matches Some(q) && p == shortened(q)
        } by {
            let front = picked_all(src, rest);
            if i < front.len() {
                assert(whole[i] == front[i]);
                let k = choose|k: int| 0 <= k < rest.len() && rest[k] == front[i].name;
                assert(names[k] == rest[k]);
            } else {
                assert(names[names.len() - 1] == names.last());
            }
        }
    }
}

proof fn lemma_filter_none(s: Seq<PropertyView>, pred: spec_fn(PropertyView) -> bool)
    requires
        forall|i: int| 0 <= i < s.len() ==> !pred(#[trigger] s[i]),
    ensures
        s.filter(pred) == Seq::<PropertyView>::empty(),
    decreases s.len(),
{
    reveal_with_fuel(Seq::<PropertyView>::filter, 1);
    if s.len() > 0 {
        assert forall|i: int| 0 <= i < s.drop_last().len() implies !pred(#[trigger] s.drop_last()[i]) by {
            assert(s.drop_last()[i] == s[i]);
        }
        lemma_filter_none(s.drop_last(), pred);
        assert(!pred(s[s.len() - 1]));
    }
}

proof fn lemma_filter_all(s: Seq<PropertyView>, pred: spec_fn(PropertyView) -> bool)
    requires
        forall|i: int| 0 <= i < s.len() ==> pred(#[trigger] s[i]),
    ensures
        s.filter(pred) == s,
    decreases s.len(),
{
    reveal_with_fuel(Seq::<PropertyView>::filter, 1);
    if s.len() > 0 {
        assert forall|i: int| 0 <= i < s.drop_last().len() implies pred(#[trigger] s.drop_last()[i]) by {
            assert(s.drop_last()[i] == s[i]);
        }
        lemma_filter_all(s.drop_last(), pred);
        assert(pred(s[s.len() - 1]));
        assert(s.drop_last().push(s.last()) =~= s);
    }
}


/// Every property of an exported event is one of the kept fields: the core
/// event fields, recurrence, `UID` or `DTSTAMP`. Attendees, organizer,
/// categories, status, custom `X-` properties and the like never pass.
pub proof fn law_export_keeps_only_listed_fields(src: Seq<PropertyView>, index: nat)
    ensures
        forall|i: int| 0 <= i < minimal_properties(src, index).len() ==>
            is_kept_event_name(#[trigger] minimal_properties(src, index)[i].name),
{
    lemma_picked_all_members(src, event_field_names());
    let kept = picked_all(src, event_field_names());
    let rec = recurrence_properties(src);
    let tail = seq![plain_property("UID"@, event_uid(src, index)), plain_property("DTSTAMP"@, event_stamp(src))];
    let all = minimal_properties(src, index);
    assert(all == kept + rec + tail);
    assert forall|i: int| 0 <= i < all.len() implies is_kept_event_name(#[trigger] all[i].name) by {
        if i < kept.len() {
            assert(all[i] == kept[i]);
        } else if i < kept.len() + rec.len() {
            assert(all[i] == rec[i - kept.len()]);
            src.lemma_filter_pred(|p: PropertyView| is_recurrence_name(p.name), i - kept.len());
        } else {
            assert(all[i] == tail[i - kept.len() - rec.len()]);
        }
    }
}

/// The core names are no recurrence names, nor `UID` or `DTSTAMP`.
proof fn lemma_core_names()
    ensures
        forall|n: Seq<char>| event_field_names().contains(n) ==> !is_recurrence_name(n) && n != "UID"@ && n != "DTSTAMP"@,
        !is_recurrence_name("UID"@),
        !is_recurrence_name("DTSTAMP"@),
        !is_recurrence_name("DESCRIPTION"@),
        !is_recurrence_name("LOCATION"@),
        "UID"@ != "DESCRIPTION"@,
        "UID"@ != "LOCATION"@,
        "DTSTAMP"@ != "DESCRIPTION"@,
        "DTSTAMP"@ != "LOCATION"@,
        "UID"@ != "DTSTAMP"@,
        "DESCRIPTION"@ != "LOCATION"@,
{
    reveal_strlit("SUMMARY");
    reveal_strlit("DTSTART");
    reveal_strlit("DTEND");
    reveal_strlit("DURATION");
    reveal_strlit("LOCATION");
    reveal_strlit("DESCRIPTION");
    reveal_strlit("RRULE");
    reveal_strlit("RDATE");
    reveal_strlit("EXDATE");
    reveal_strlit("EXRULE");
    reveal_strlit("UID");
    reveal_strlit("DTSTAMP");
    assert("UID"@.len() == 3 && "DTSTAMP"@.len() == 7 && "RRULE"@.len() == 5 && "RDATE"@.len() == 5);
    assert("EXDATE"@.len() == 6 && "EXRULE"@.len() == 6 && "SUMMARY"@.len() == 7 && "DTSTART"@.len() == 7);
    assert("DTEND"@.len() == 5 && "DURATION"@.len() == 8 && "LOCATION"@.len() == 8 && "DESCRIPTION"@.len() == 11);
    assert("DTSTAMP"@[0] != "SUMMARY"@[0] && "DTSTAMP"@[6] != "DTSTART"@[6]);
    assert("DTEND"@[0] != "RRULE"@[0] && "DTEND"@[0] != "RDATE"@[0] && "RRULE"@[1] != "RDATE"@[1]);
    assert("DURATION"@[0] != "LOCATION"@[0]);
    assert("EXDATE"@[2] != "EXRULE"@[2]);
    assert forall|n: Seq<char>| event_field_names().contains(n) implies !is_recurrence_name(n) && n != "UID"@ && n != "DTSTAMP"@ by {
        let k = choose|k: int| 0 <= k < event_field_names().len() && event_field_names()[k] == n;
        assert(0 <= k < 6);
    }
}

/// An export keeps every recurrence property of its source (every `RRULE`,
/// `RDATE`, `EXDATE` and `EXRULE`, repeats included) in order, and adds none.
pub proof fn law_export_keeps_recurrence(src: Seq<PropertyView>, index: nat)
    ensures
        recurrence_properties(minimal_properties(src, index)) == recurrence_properties(src),
{
    let pred = |p: PropertyView| is_recurrence_name(p.name);
    lemma_picked_all_members(src, event_field_names());
    lemma_core_names();
    let kept = picked_all(src, event_field_names());
    let rec = recurrence_properties(src);
    let tail = seq![plain_property("UID"@, event_uid(src, index)), plain_property("DTSTAMP"@, event_stamp(src))];
    assert(minimal_properties(src, index) == kept + rec + tail);
    Seq::filter_distributes_over_add(kept + rec, tail, pred);
    Seq::filter_distributes_over_add(kept, rec, pred);
    assert forall|i: int| 0 <= i < kept.len() implies !pred(#[trigger] kept[i]) by {
        assert(event_field_names().contains(kept[i].name));
    }
    lemma_filter_none(kept, pred);
    assert forall|i: int| 0 <= i < tail.len() implies !pred(#[trigger] tail[i]) by {}
    lemma_filter_none(tail, pred);
    assert forall|i: int| 0 <= i < rec.len() implies pred(#[trigger] rec[i]) by {
        src.lemma_filter_pred(pred, i);
    }
    lemma_filter_all(rec, pred);
    assert(recurrence_properties(minimal_properties(src, index)) =~= rec);
}

/// Whether a property value, if there is one, has at most `max_len` characters.
pub open spec fn value_fits(value: Option<Seq<char>>, max_len: nat) -> bool {
    value matches Some(v) ==> v.len() <= max_len
}

/// A shortened value is at most `max_len` characters long (for a positive
/// limit); a value within the limit is kept as it is; a longer one keeps its
/// first `max_len - 1` characters and ends in an ellipsis.
pub proof fn law_truncation(v: Seq<char>, max_len: nat)
    ensures
        max_len > 0 ==> truncated(v, max_len).len() <= max_len,
        v.len() <= max_len ==> truncated(v, max_len) == v,
        v.len() > max_len ==> truncated(v, max_len).take(kept_chars(max_len) as int) == v.take(kept_chars(max_len) as int)
            && truncated(v, max_len).last() == ellipsis(),
{
    if v.len() > max_len {
        assert(truncated(v, max_len).take(kept_chars(max_len) as int) =~= v.take(kept_chars(max_len) as int));
    }
}

/// In an export, no `DESCRIPTION` value is longer than 120 characters and no
/// `LOCATION` value longer than 80.
pub proof fn law_export_limits_lengths(src: Seq<PropertyView>, index: nat)
    ensures
        forall|i: int| 0 <= i < minimal_properties(src, index).len() ==> {
            let p = #[trigger] minimal_properties(src, index)[i];
            &&& p.name == "DESCRIPTION"@ ==> value_fits(p.value, DESCRIPTION_LIMIT as nat)
            &&& p.name == "LOCATION"@ ==> value_fits(p.value, LOCATION_LIMIT as nat)
        },
{
    lemma_picked_all_members(src, event_field_names());
    lemma_core_names();
    let kept = picked_all(src, event_field_names());
    let rec = recurrence_properties(src);
    let tail = seq![plain_property("UID"@, event_uid(src, index)), plain_property("DTSTAMP"@, event_stamp(src))];
    let all = minimal_properties(src, index);
    assert(all == kept + rec + tail);
    assert forall|i: int| 0 <= i < all.len() implies {
        let p = #[trigger] all[i];
        &&& p.name == "DESCRIPTION"@ ==> value_fits(p.value, DESCRIPTION_LIMIT as nat)
        &&& p.name == "LOCATION"@ ==> value_fits(p.value, LOCATION_LIMIT as nat)
    } by {
        if i < kept.len() {
            let p = kept[i];
            assert(all[i] == p);
            let q = first_named(src, p.name)->0;
            lemma_first_named_name(src, p.name);
            if let Some(v) = q.value {
                law_truncation(v, DESCRIPTION_LIMIT as nat);
                law_truncation(v, LOCATION_LIMIT as nat);
            }
        } else if i < kept.len() + rec.len() {
            assert(all[i] == rec[i - kept.len()]);
            src.lemma_filter_pred(|p: PropertyView| is_recurrence_name(p.name), i - kept.len());
        } else {
            assert(all[i] == tail[i - kept.len() - rec.len()]);
        }
    }
}

/// Every export names its event: the first `UID` it finds is the source's
/// `UID` value or, failing that, the event's position followed by `@i`; and
/// stamps it: the first `DTSTAMP` is the source's, else its start, else the epoch.
pub proof fn law_export_has_uid_and_stamp(src: Seq<PropertyView>, index: nat)
    ensures
        value_of(minimal_properties(src, index), "UID"@) == Some(event_uid(src, index)),
        value_of(minimal_properties(src, index), "DTSTAMP"@) == Some(event_stamp(src)),
{
    lemma_picked_all_members(src, event_field_names());
    lemma_core_names();
    let kept = picked_all(src, event_field_names());
    let rec = recurrence_properties(src);
    let tail = seq![plain_property("UID"@, event_uid(src, index)), plain_property("DTSTAMP"@, event_stamp(src))];
    assert(minimal_properties(src, index) == kept + rec + tail);
    assert forall|i: int| 0 <= i < kept.len() implies #[trigger] kept[i].name != "UID"@ && kept[i].name != "DTSTAMP"@ by {
        assert(event_field_names().contains(kept[i].name));
    }
    assert forall|i: int| 0 <= i < rec.len() implies #[trigger] rec[i].name != "UID"@ && rec[i].name != "DTSTAMP"@ by {
        src.lemma_filter_pred(|p: PropertyView| is_recurrence_name(p.name), i);
    }
    assert forall|i: int| 0 <= i < (kept + rec).len() implies #[trigger] (kept + rec)[i].name != "UID"@ && (kept + rec)[i].name != "DTSTAMP"@ by {
        if i < kept.len() {
            assert((kept + rec)[i] == kept[i]);
        } else {
            assert((kept + rec)[i] == rec[i - kept.len()]);
        }
    }
    lemma_first_named_absent(kept + rec, "UID"@);
    lemma_first_named_absent(kept + rec, "DTSTAMP"@);
    lemma_first_named_append(kept + rec, tail, "UID"@);
    lemma_first_named_append(kept + rec, tail, "DTSTAMP"@);
    assert(tail.drop_first()[0] == tail[1]);
    assert(first_named(tail, "DTSTAMP"@) == first_named(tail.drop_first(), "DTSTAMP"@));
}

proof fn lemma_picked_all_first(src: Seq<PropertyView>, names: Seq<Seq<char>>, n: Seq<char>)
    requires
        names.no_duplicates(),
        names.contains(n),
    ensures
        first_named(picked_all(src, names), n) == match first_named(src, n) {
            Some(q) => Some(shortened(q)),
            None => None::<PropertyView>,
        },
    decreases names.len(),
{
    let rest = names.drop_last();
    let front = picked_all(src, rest);
    let last = picked(src, names.last());
    lemma_first_named_append(front, last, n);
    lemma_first_named_name(src, names.last());
    if names.last() == n {
        lemma_picked_all_members(src, rest);
        assert forall|i: int| 0 <= i < front.len() implies #[trigger] front[i].name != n by {
            let k = choose|k: int| 0 <= k < rest.len() && rest[k] == front[i].name;
            assert(names[k] == rest[k]);
            assert(names[names.len() - 1] == n);
        }
        lemma_first_named_absent(front, n);
    } else {
        let k = choose|k: int| 0 <= k < names.len() && names[k] == n;
        assert(k != names.len() - 1);
        assert(rest[k] == n);
        lemma_picked_all_first(src, rest, n);
        assert forall|i: int| 0 <= i < last.len() implies #[trigger] last[i].name != n by {}
        lemma_first_named_absent(last, n);
    }
}

proof fn lemma_field_names_distinct()
    ensures
        event_field_names().no_duplicates(),
{
    reveal_strlit("SUMMARY");
    reveal_strlit("DTSTART");
    reveal_strlit("DTEND");
    reveal_strlit("DURATION");
    reveal_strlit("LOCATION");
    reveal_strlit("DESCRIPTION");
    assert("SUMMARY"@.len() == 7 && "DTSTART"@.len() == 7 && "DTEND"@.len() == 5);
    assert("DURATION"@.len() == 8 && "LOCATION"@.len() == 8 && "DESCRIPTION"@.len() == 11);
    assert("SUMMARY"@[0] != "DTSTART"@[0] && "DURATION"@[0] != "LOCATION"@[0]);
}

/// Each core event field of an export is the first property of that name in
/// the source, with `DESCRIPTION` and `LOCATION` values shortened; a field the
/// source lacks stays absent.
pub proof fn law_export_copies_core_fields(src: Seq<PropertyView>, index: nat, name: Seq<char>)
    requires
        event_field_names().contains(name),
    ensures
        first_named(minimal_properties(src, index), name) == match first_named(src, name) {
            Some(q) => Some(shortened(q)),
            None => None::<PropertyView>,
        },
{
    lemma_field_names_distinct();
    lemma_core_names();
    lemma_picked_all_first(src, event_field_names(), name);
    let kept = picked_all(src, event_field_names());
    let rec = recurrence_properties(src);
    let tail = seq![plain_property("UID"@, event_uid(src, index)), plain_property("DTSTAMP"@, event_stamp(src))];
    assert(minimal_properties(src, index) == kept + rec + tail);
    lemma_first_named_append(kept + rec, tail, name);
    lemma_first_named_append(kept, rec, name);
    assert forall|i: int| 0 <= i < rec.len() implies #[trigger] rec[i].name != name by {
        src.lemma_filter_pred(|p: PropertyView| is_recurrence_name(p.name), i);
    }
    lemma_first_named_absent(rec, name);
    assert forall|i: int| 0 <= i < tail.len() implies #[trigger] tail[i].name != name by {}
    lemma_first_named_absent(tail, name);
}

/// An export refers to the same timezone as its source event, and carries
/// exactly the timezone definitions of the calendar whose `TZID` is that
/// timezone, in the calendar's order; with no `TZID` on the event's start or
/// end, it carries none.
pub proof fn law_export_timezones(calendar: CalendarView, index: nat)
    requires
        index < calendar.events.len(),
    ensures
        event_tzid(exported_calendar(calendar, index).events[0].properties) == event_tzid(calendar.events[index as int].properties),
        exported_calendar(calendar, index).timezones == referenced_timezone_views(
            calendar.timezones,
            event_tzid(calendar.events[index as int].properties),
        ),
        forall|i: int| 0 <= i < exported_calendar(calendar, index).timezones.len() ==> {
            let tz = #[trigger] exported_calendar(calendar, index).timezones[i];
            &&& calendar.timezones.contains(tz)
            &&& value_of(tz.properties, "TZID"@) == event_tzid(calendar.events[index as int].properties)
        },
        forall|i: int| 0 <= i < calendar.timezones.len() && event_tzid(calendar.events[index as int].properties) is Some
            && value_of(calendar.timezones[i].properties, "TZID"@) == event_tzid(calendar.events[index as int].properties)
            ==> exported_calendar(calendar, index).timezones.contains(#[trigger] calendar.timezones[i]),
{
    let src = calendar.events[index as int].properties;
    let all = minimal_properties(src, index);
    reveal_strlit("DTSTART");
    reveal_strlit("DTEND");
    reveal_strlit("DESCRIPTION");
    reveal_strlit("LOCATION");
    assert("DTSTART"@.len() == 7 && "DTEND"@.len() == 5 && "DESCRIPTION"@.len() == 11 && "LOCATION"@.len() == 8);
    assert(event_field_names().contains("DTSTART"@)) by {
        assert(event_field_names()[1] == "DTSTART"@);
    }
    assert(event_field_names().contains("DTEND"@)) by {
        assert(event_field_names()[2] == "DTEND"@);
    }
    law_export_copies_core_fields(src, index, "DTSTART"@);
    law_export_copies_core_fields(src, index, "DTEND"@);
    lemma_first_named_name(src, "DTSTART"@);
    lemma_first_named_name(src, "DTEND"@);
    assert(event_tzid(all) == event_tzid(src));
    let tzs = exported_calendar(calendar, index).timezones;
    if let Some(t) = event_tzid(src) {
        let pred = |tz: TimeZoneView| value_of(tz.properties, "TZID"@) == Some(t);
        assert(tzs == calendar.timezones.filter(pred));
        assert forall|i: int| 0 <= i < tzs.len() implies {
            let tz = #[trigger] tzs[i];
            &&& calendar.timezones.contains(tz)
            &&& value_of(tz.properties, "TZID"@) == event_tzid(src)
        } by {
            calendar.timezones.lemma_filter_pred(pred, i);
            assert(tzs.contains(tzs[i]));
            calendar.timezones.lemma_filter_contains_rev(pred, tzs[i]);
        }
        assert forall|i: int| 0 <= i < calendar.timezones.len() && event_tzid(src) is Some
            && value_of(calendar.timezones[i].properties, "TZID"@) == event_tzid(src)
            implies tzs.contains(#[trigger] calendar.timezones[i]) by {
            calendar.timezones.lemma_filter_contains(pred, i);
        }
    }
}

/// An export holds one event, the minimal copy of the chosen one, without
/// alarms; its calendar properties are `VERSION:2.0` and `PRODID:-//i//EN` only.
pub proof fn law_export_single_event(calendar: CalendarView, index: nat)
    requires
        index < calendar.events.len(),
    ensures
        exported_calendar(calendar, index).events.len() == 1,
        exported_calendar(calendar, index).events[0] == minimal_event_view(calendar.events[index as int], index),
        exported_calendar(calendar, index).events[0].alarms.len() == 0,
        exported_calendar(calendar, index).properties == seq![
            plain_property("VERSION"@, "2.0"@),
            plain_property("PRODID"@, "-//i//EN"@),
        ],
{
}

proof fn lemma_shortened_idempotent(q: PropertyView)
    ensures
        shortened(shortened(q)) == shortened(q),
{
    if let Some(v) = q.value {
        law_truncation(v, DESCRIPTION_LIMIT as nat);
        law_truncation(v, LOCATION_LIMIT as nat);
        law_truncation(truncated(v, DESCRIPTION_LIMIT as nat), DESCRIPTION_LIMIT as nat);
        law_truncation(truncated(v, LOCATION_LIMIT as nat), LOCATION_LIMIT as nat);
    }
}

proof fn lemma_picked_all_again(src: Seq<PropertyView>, index: nat, names: Seq<Seq<char>>)
    requires
        forall|i: int| 0 <= i < names.len() ==> event_field_names().contains(#[trigger] names[i]),
    ensures
        picked_all(minimal_properties(src, index), names) == picked_all(src, names),
    decreases names.len(),
{
    if names.len() > 0 {
        let rest = names.drop_last();
        assert forall|i: int| 0 <= i < rest.len() implies event_field_names().contains(#[trigger] rest[i]) by {
            assert(rest[i] == names[i]);
        }
        lemma_picked_all_again(src, index, rest);
        let n = names.last();
        assert(event_field_names().contains(names[names.len() - 1]));
        law_export_copies_core_fields(src, index, n);
        if let Some(q) = first_named(src, n) {
            lemma_shortened_idempotent(q);
        }
        assert(picked(minimal_properties(src, index), n) == picked(src, n));
    }
}

/// Exporting an exported event gives it back unchanged: the export keeps
/// everything it produced and produces nothing new.
pub proof fn law_export_idempotent(src: Seq<PropertyView>, index: nat)
    ensures
        minimal_properties(minimal_properties(src, index), index) == minimal_properties(src, index),
{
    let all = minimal_properties(src, index);
    assert forall|i: int| 0 <= i < event_field_names().len() implies event_field_names().contains(#[trigger] event_field_names()[i]) by {}
    lemma_picked_all_again(src, index, event_field_names());
    law_export_keeps_recurrence(src, index);
    law_export_has_uid_and_stamp(src, index);
    assert(event_uid(all, index) == event_uid(src, index));
    assert(event_stamp(all) == event_stamp(src));
}

/// A QR bitmap's RGBA bytes hold, for each grey pixel `g` in order, the bytes
/// `g, g, g, 255`: the image stays grey and fully opaque.
pub proof fn law_rgba_pixels(gray: Seq<u8>)
    ensures
        rgba_of(gray).len() == 4 * gray.len(),
        forall|k: int| 0 <= k < gray.len() ==> {
            &&& #[trigger] rgba_of(gray)[4 * k] == gray[k]
            &&& rgba_of(gray)[4 * k + 1] == gray[k]
            &&& rgba_of(gray)[4 * k + 2] == gray[k]
            &&& rgba_of(gray)[4 * k + 3] == 255
        },
    decreases gray.len(),
{
    if gray.len() > 0 {
        let front = gray.drop_last();
        law_rgba_pixels(front);
        let whole = rgba_of(gray);
        assert forall|k: int| 0 <= k < gray.len() implies {
            &&& #[trigger] whole[4 * k] == gray[k]
            &&& whole[4 * k + 1] == gray[k]
            &&& whole[4 * k + 2] == gray[k]
            &&& whole[4 * k + 3] == 255
        } by {
            if k < front.len() {
                assert(rgba_of(front)[4 * k] == front[k]);
                assert(front[k] == gray[k]);
            }
        }
    }
}


/// The text of a timezone transition is a block named after its kind as
/// RFC 5545 names it: `STANDARD` for a standard transition, `DAYLIGHT` for a
/// daylight one, around the transition's own property lines.
pub proof fn law_transition_names(t: TransitionView)
    ensures
        t.kind == TransitionKind::Standard ==> transition_text(t) == "BEGIN:STANDARD\r\n"@ + lines_text(
            t.properties,
        ) + "END:STANDARD\r\n"@,
        t.kind == TransitionKind::Daylight ==> transition_text(t) == "BEGIN:DAYLIGHT\r\n"@ + lines_text(
            t.properties,
        ) + "END:DAYLIGHT\r\n"@,
{
    reveal_strlit("BEGIN:");
    reveal_strlit("END:");
    reveal_strlit("\r\n");
    reveal_strlit("STANDARD");
    reveal_strlit("DAYLIGHT");
    reveal_strlit("BEGIN:STANDARD\r\n");
    reveal_strlit("END:STANDARD\r\n");
    reveal_strlit("BEGIN:DAYLIGHT\r\n");
    reveal_strlit("END:DAYLIGHT\r\n");
    let body = lines_text(t.properties);
    if t.kind == TransitionKind::Standard {
        assert("BEGIN:"@ + "STANDARD"@ + "\r\n"@ =~= "BEGIN:STANDARD\r\n"@);
        assert("END:"@ + "STANDARD"@ + "\r\n"@ =~= "END:STANDARD\r\n"@);
        assert(transition_text(t) =~= "BEGIN:STANDARD\r\n"@ + body + "END:STANDARD\r\n"@);
    } else {
        assert("BEGIN:"@ + "DAYLIGHT"@ + "\r\n"@ =~= "BEGIN:DAYLIGHT\r\n"@);
        assert("END:"@ + "DAYLIGHT"@ + "\r\n"@ =~= "END:DAYLIGHT\r\n"@);
        assert(transition_text(t) =~= "BEGIN:DAYLIGHT\r\n"@ + body + "END:DAYLIGHT\r\n"@);
    }
}

/// An export carries the source's first `SUMMARY`, `DTSTART`, `DTEND` and
/// `DURATION` unchanged, and its first `LOCATION` and `DESCRIPTION` with the
/// value shortened to their limits; each one the source lacks stays absent.
pub proof fn law_export_core_fields_by_name(src: Seq<PropertyView>, index: nat)
    ensures
        first_named(minimal_properties(src, index), "SUMMARY"@) == first_named(src, "SUMMARY"@),
        first_named(minimal_properties(src, index), "DTSTART"@) == first_named(src, "DTSTART"@),
        first_named(minimal_properties(src, index), "DTEND"@) == first_named(src, "DTEND"@),
        first_named(minimal_properties(src, index), "DURATION"@) == first_named(src, "DURATION"@),
        first_named(minimal_properties(src, index), "LOCATION"@) == match first_named(src, "LOCATION"@) {
            Some(q) => Some(limit_value(q, LOCATION_LIMIT as nat)),
            None => None::<PropertyView>,
        },
        first_named(minimal_properties(src, index), "DESCRIPTION"@) == match first_named(
            src,
            "DESCRIPTION"@,
        ) {
            Some(q) => Some(limit_value(q, DESCRIPTION_LIMIT as nat)),
            None => None::<PropertyView>,
        },
{
    reveal_strlit("SUMMARY");
    reveal_strlit("DTSTART");
    reveal_strlit("DTEND");
    reveal_strlit("DURATION");
    reveal_strlit("LOCATION");
    reveal_strlit("DESCRIPTION");
    assert("SUMMARY"@.len() == 7 && "DTSTART"@.len() == 7 && "DTEND"@.len() == 5);
    assert("DURATION"@.len() == 8 && "LOCATION"@.len() == 8 && "DESCRIPTION"@.len() == 11);
    assert("DURATION"@[0] != "LOCATION"@[0]);
    let names = event_field_names();
    assert(names[0] == "SUMMARY"@ && names[1] == "DTSTART"@ && names[2] == "DTEND"@);
    assert(names[3] == "DURATION"@ && names[4] == "LOCATION"@ && names[5] == "DESCRIPTION"@);
    law_export_copies_core_fields(src, index, "SUMMARY"@);
    law_export_copies_core_fields(src, index, "DTSTART"@);
    law_export_copies_core_fields(src, index, "DTEND"@);
    law_export_copies_core_fields(src, index, "DURATION"@);
    law_export_copies_core_fields(src, index, "LOCATION"@);
    law_export_copies_core_fields(src, index, "DESCRIPTION"@);
    lemma_first_named_name(src, "SUMMARY"@);
    lemma_first_named_name(src, "DTSTART"@);
    lemma_first_named_name(src, "DTEND"@);
    lemma_first_named_name(src, "DURATION"@);
    lemma_first_named_name(src, "LOCATION"@);
    lemma_first_named_name(src, "DESCRIPTION"@);
}

/// Every property of an export is named `SUMMARY`, `DTSTART`, `DTEND`,
/// `DURATION`, `LOCATION`, `DESCRIPTION`, `RRULE`, `RDATE`, `EXDATE`,
/// `EXRULE`, `UID` or `DTSTAMP`; in particular no custom `X-` property passes.
pub proof fn law_export_names_are_standard(src: Seq<PropertyView>, index: nat)
    ensures
        forall|i: int|
            0 <= i < minimal_properties(src, index).len() ==> {
                let n = #[trigger] minimal_properties(src, index)[i].name;
                ||| n == "SUMMARY"@
                ||| n == "DTSTART"@
                ||| n == "DTEND"@
                ||| n == "DURATION"@
                ||| n == "LOCATION"@
                ||| n == "DESCRIPTION"@
                ||| n == "RRULE"@
                ||| n == "RDATE"@
                ||| n == "EXDATE"@
                ||| n == "EXRULE"@
                ||| n == "UID"@
                ||| n == "DTSTAMP"@
            },
        forall|i: int|
            0 <= i < minimal_properties(src, index).len() ==> {
                let n = #[trigger] minimal_properties(src, index)[i].name;
                !(n.len() >= 2 && n[0] == 'X' && n[1] == '-')
            },
{
    reveal_strlit("SUMMARY");
    reveal_strlit("DTSTART");
    reveal_strlit("DTEND");
    reveal_strlit("DURATION");
    reveal_strlit("LOCATION");
    reveal_strlit("DESCRIPTION");
    reveal_strlit("RRULE");
    reveal_strlit("RDATE");
    reveal_strlit("EXDATE");
    reveal_strlit("EXRULE");
    reveal_strlit("UID");
    reveal_strlit("DTSTAMP");
    law_export_keeps_only_listed_fields(src, index);
    let all = minimal_properties(src, index);
    assert forall|i: int| 0 <= i < all.len() implies {
        let n = #[trigger] all[i].name;
        ||| n == "SUMMARY"@
        ||| n == "DTSTART"@
        ||| n == "DTEND"@
        ||| n == "DURATION"@
        ||| n == "LOCATION"@
        ||| n == "DESCRIPTION"@
        ||| n == "RRULE"@
        ||| n == "RDATE"@
        ||| n == "EXDATE"@
        ||| n == "EXRULE"@
        ||| n == "UID"@
        ||| n == "DTSTAMP"@
    } && {
        let n = all[i].name;
        !(n.len() >= 2 && n[0] == 'X' && n[1] == '-')
    } by {
        let n = all[i].name;
        assert(is_kept_event_name(n));
        if event_field_names().contains(n) {
            let k = choose|k: int| 0 <= k < event_field_names().len() && event_field_names()[k] == n;
            assert(0 <= k < 6);
        }
        assert(n[0] != 'X');
    }
}

/// The number a sequence of decimal digits reads as, most significant first.
pub open spec fn digits_value(s: Seq<char>) -> int
    decreases s.len(),
{
    if s.len() == 0 {
        0
    } else {
        digits_value(s.drop_last()) * 10 + (s.last() as u32 - 48)
    }
}

/// Each decimal digit `d` is the character whose code is that of `'0'` plus `d`.
pub proof fn law_digit_chars()
    ensures
        forall|d: nat| d < 10 ==> (#[trigger] digit_char(d)) as u32 == 48 + d,
{
}

/// `decimal(n)` is the base-10 notation of `n`: it is made of the characters
/// `'0'` to `'9'` only, it reads back as `n`, and two numbers have the same
/// notation only if they are equal.
pub proof fn law_decimal_notation(n: nat, m: nat)
    ensures
        forall|k: int| 0 <= k < decimal(n).len() ==> '0' <= #[trigger] decimal(n)[k] <= '9',
        digits_value(decimal(n)) == n,
        decimal(n) == decimal(m) ==> n == m,
{
    lemma_decimal_reads_back(n);
    lemma_decimal_reads_back(m);
}

proof fn lemma_decimal_reads_back(n: nat)
    ensures
        forall|k: int| 0 <= k < decimal(n).len() ==> '0' <= #[trigger] decimal(n)[k] <= '9',
        digits_value(decimal(n)) == n,
    decreases n,
{
    law_digit_chars();
    if n < 10 {
        assert(decimal(n).drop_last() =~= Seq::<char>::empty());
        assert(digit_char(n) as u32 == 48 + n);
        assert(decimal(n).last() == digit_char(n));
        assert(digits_value(decimal(n)) == digits_value(Seq::<char>::empty()) * 10 + (digit_char(n) as u32 - 48));
    } else {
        assert(digit_char(n % 10) as u32 == 48 + n % 10);
        assert(decimal(n).last() == digit_char(n % 10));
        lemma_decimal_reads_back(n / 10);
        let d = decimal(n / 10);
        assert(decimal(n).drop_last() =~= d);
        assert(n == (n / 10) * 10 + n % 10) by (nonlinear_arith);
        assert(digits_value(decimal(n)) == digits_value(d) * 10 + (digit_char(n % 10) as u32 - 48));
        assert forall|k: int| 0 <= k < decimal(n).len() implies '0' <= #[trigger] decimal(n)[k] <= '9' by {
            if k < d.len() {
                assert(decimal(n)[k] == d[k]);
            }
        }
    }
}

/// A parameter value that is not empty, holds ASCII characters only and none
/// of `"`, newline, `;`, `:`, `,` or `\\` can be written; spaces and other
/// punctuation need no escaping.
pub proof fn law_plain_param_values_emittable(v: Seq<char>)
    requires
        v.len() > 0,
        is_ascii_chars(v),
        forall|k: int|
            0 <= k < v.len() ==> {
                let c = #[trigger] v[k];
                c != '"' && c != '\n' && c != ';' && c != ':' && c != ',' && c != '\\'
            },
    ensures
        param_value_emittable(v),
{
    let bytes = encode_utf8(v);
    is_ascii_chars_encode_utf8(v);
    encode_utf8_valid_utf8(v);
    if bytes.len() > 2 {
        is_char_boundary_iff_is_leading_byte(bytes, 1);
        assert(bytes[1] == v[1] as u8);
    }
}

} // verus!
