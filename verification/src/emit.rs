//! Writing a calendar out as iCalendar text.

use ical::generator::Emitter;
use vstd::prelude::*;
use vstd::string::StringSliceAdditionalSpecFns;
use vstd::utf8::{encode_utf8, is_char_boundary};

use crate::model::{
    Alarm, AlarmView, Calendar, CalendarView, Event, EventView, Property, PropertyView, TimeZone,
    TimeZoneView, Transition, TransitionKind, TransitionView,
};

verus! {

/// A parameter value as `ical` writes it when some character of it needs a
/// backslash (see [`needs_escape`]): with those backslashes added (a line
/// break written as `\\n`).
pub uninterp spec fn escaped_param_value(v: Seq<char>) -> Seq<char>;

/// `text` cut into a first line of 75 characters and further lines of 74,
/// joined by a line break and a space, as `ical` folds content lines.
pub open spec fn folded(text: Seq<char>) -> Seq<char> {
    if text.len() <= 75 {
        text
    } else {
        text.take(75) + "\r\n "@ + folded_rest(text.skip(75))
    }
}

/// `text` cut into lines of 74 characters joined by a line break and a space.
pub open spec fn folded_rest(text: Seq<char>) -> Seq<char>
    decreases text.len(),
{
    if text.len() <= 74 {
        text
    } else {
        text.take(74) + "\r\n "@ + folded_rest(text.skip(74))
    }
}

/// Whether a property has no parameters.
pub open spec fn params_absent(p: PropertyView) -> bool {
    match p.params {
        None => true,
        Some(ps) => ps.len() == 0,
    }
}

/// The line `ical` writes for a property without parameters: `NAME:VALUE`
/// (an empty value when there is none), folded, then a line break.
pub open spec fn plain_line(p: PropertyView) -> Seq<char> {
    let value = match p.value {
        Some(v) => v,
        None => Seq::<char>::empty(),
    };
    folded(p.name + ":"@ + value) + "\r\n"@
}

/// A parameter value as written with `escape` for the values that need a
/// backslash: unchanged when no character of it needs one.
pub open spec fn param_value_text(v: Seq<char>, escape: spec_fn(Seq<char>) -> Seq<char>) -> Seq<char> {
    if forall|k: int| 0 <= k < v.len() ==> !#[trigger] needs_escape(v[k], quoted_value(v)) {
        v
    } else {
        escape(v)
    }
}

/// The values of a parameter as written, separated by commas.
pub open spec fn joined_values(vs: Seq<Seq<char>>, escape: spec_fn(Seq<char>) -> Seq<char>) -> Seq<char>
    decreases vs.len(),
{
    if vs.len() == 0 {
        seq![]
    } else if vs.len() == 1 {
        param_value_text(vs[0], escape)
    } else {
        joined_values(vs.drop_last(), escape) + ","@ + param_value_text(vs.last(), escape)
    }
}

/// The parameters of a property as written: `;KEY=VALUES` each.
pub open spec fn params_text(ps: Seq<(Seq<char>, Seq<Seq<char>>)>, escape: spec_fn(Seq<char>) -> Seq<char>) -> Seq<char>
    decreases ps.len(),
{
    if ps.len() == 0 {
        seq![]
    } else {
        params_text(ps.drop_last(), escape) + ";"@ + ps.last().0 + "="@ + joined_values(ps.last().1, escape)
    }
}

/// The content line of a property, parameter values that need a backslash
/// written with `escape`: its name, its parameters, a colon and its value
/// (empty when it has none), folded every 75 and then 74 characters, then a
/// line break.
pub open spec fn line_with(p: PropertyView, escape: spec_fn(Seq<char>) -> Seq<char>) -> Seq<char> {
    let params = match p.params {
        Some(ps) => params_text(ps, escape),
        None => Seq::<char>::empty(),
    };
    let value = match p.value {
        Some(v) => v,
        None => Seq::<char>::empty(),
    };
    folded(p.name + params + ":"@ + value) + "\r\n"@
}

/// The content line that `ical` writes for a property.
pub open spec fn property_line(p: PropertyView) -> Seq<char> {
    line_with(p, |v: Seq<char>| escaped_param_value(v))
}

/// A property without parameters is written as its plain `NAME:VALUE` line;
/// a parameter value that needs no backslash is written unchanged.
pub proof fn law_plain_line(p: PropertyView, v: Seq<char>)
    ensures
        params_absent(p) ==> property_line(p) == plain_line(p),
        (forall|k: int| 0 <= k < v.len() ==> !#[trigger] needs_escape(v[k], quoted_value(v))) ==>
            param_value_text(v, |w: Seq<char>| escaped_param_value(w)) == v,
{
    if params_absent(p) {
        let value = match p.value {
            Some(x) => x,
            None => Seq::<char>::empty(),
        };
        let params = match p.params {
            Some(ps) => params_text(ps, |w: Seq<char>| escaped_param_value(w)),
            None => Seq::<char>::empty(),
        };
        assert(params =~= Seq::<char>::empty());
        assert(p.name + params + ":"@ + value =~= p.name + ":"@ + value);
    }
}

/// Whether `ical` quotes character `c` with a backslash in a parameter value,
/// given whether the value stands in double quotes.
pub open spec fn needs_escape(c: char, in_quotes: bool) -> bool {
    c == '"' || c == '\n' || (!in_quotes && (c == ';' || c == ':' || c == ',' || c == '\\'))
}

/// Whether a parameter value of more than two bytes starts with a double quote.
pub open spec fn starts_quoted(v: Seq<char>) -> bool {
    encode_utf8(v).len() > 2 && v[0] == '"'
}

/// Whether `ical` takes a parameter value to stand in double quotes.
pub open spec fn quoted_value(v: Seq<char>) -> bool {
    starts_quoted(v) && v.last() == '"'
}

/// Whether `ical` can write the parameter value `v` without stopping. Its
/// writer takes the UTF-8 length minus one (so the value must not be empty),
/// slices the value at byte 1 and at the last byte to see whether it stands
/// in quotes, and, for each character to escape, slices or inserts at byte
/// positions equal to the character's position: each of those positions must
/// fall on a character boundary.
pub open spec fn param_value_emittable(v: Seq<char>) -> bool {
    let bytes = encode_utf8(v);
    let last: int = bytes.len() - 1;
    &&& bytes.len() > 0
    &&& last > 1 ==> is_char_boundary(bytes, 1)
    &&& starts_quoted(v) ==> is_char_boundary(bytes, last)
    &&& forall|k: int| 0 <= k < v.len() && #[trigger] needs_escape(v[k], quoted_value(v)) ==> {
        if v[k] == '\n' {
            is_char_boundary(bytes, k) && is_char_boundary(bytes, k + 1)
        } else {
            0 < k < last ==> is_char_boundary(bytes, k - 1) && is_char_boundary(bytes, k)
        }
    }
}

/// Whether `ical` can write property `p`: every value of every parameter can be written.
pub open spec fn property_emittable(p: PropertyView) -> bool {
    match p.params {
        None => true,
        Some(ps) => forall|i: int, j: int|
            0 <= i < ps.len() && 0 <= j < ps[i].1.len() ==> #[trigger] param_value_emittable(ps[i].1[j]),
    }
}

/// Whether every property of `props` can be written.
pub open spec fn all_emittable(props: Seq<PropertyView>) -> bool {
    forall|i: int| 0 <= i < props.len() ==> #[trigger] property_emittable(props[i])
}

/// Whether every property anywhere in `c` can be written.
pub open spec fn calendar_emittable(c: CalendarView) -> bool {
    &&& all_emittable(c.properties)
    &&& forall|i: int| 0 <= i < c.timezones.len() ==> #[trigger] timezone_emittable(c.timezones[i])
    &&& forall|i: int| 0 <= i < c.events.len() ==> #[trigger] event_emittable(c.events[i])
}

/// Whether every property of a timezone definition, transitions included, can be written.
pub open spec fn timezone_emittable(tz: TimeZoneView) -> bool {
    &&& all_emittable(tz.properties)
    &&& forall|i: int| 0 <= i < tz.transitions.len() ==> all_emittable(#[trigger] tz.transitions[i].properties)
}

/// Whether every property of an event, alarms included, can be written.
pub open spec fn event_emittable(e: EventView) -> bool {
    &&& all_emittable(e.properties)
    &&& forall|i: int| 0 <= i < e.alarms.len() ==> all_emittable(#[trigger] e.alarms[i].properties)
}

/// Whether `ical` quotes `c` in a parameter value.
fn escapes(c: char, in_quotes: bool) -> (r: bool)
    ensures
        r == needs_escape(c, in_quotes),
{
    c == '"' || c == '\n' || (!in_quotes && (c == ';' || c == ':' || c == ',' || c == '\\'))
}

/// Whether `ical` can write the parameter value `v`.
fn param_value_ok(v: &String) -> (r: bool)
    ensures
        r == param_value_emittable(v@),
{
    let s = v.as_str();
    let ghost bytes = encode_utf8(v@);
    let n: usize = s.as_bytes().len();
    assert(s.spec_bytes() == bytes);
    if n == 0 {
        return false;
    }
    let chars: usize = s.unicode_len();
    assert(chars > 0) by {
        if v@.len() == 0 {
            assert(encode_utf8(v@) =~= seq![]);
        }
    }
    let last: usize = n - 1;
    if last > 1 && !s.is_char_boundary(1) {
        return false;
    }
    let quoted_start = last > 1 && s.get_char(0) == '"';
    if quoted_start && !s.is_char_boundary(last) {
        return false;
    }
    let in_quotes = quoted_start && s.get_char(chars - 1) == '"';
    let mut k: usize = 0;
    while k < chars
        invariant
            k <= chars,
            chars == v@.len(),
            n == bytes.len(),
            last == n - 1,
            bytes == encode_utf8(v@),
            s@ == v@,
            in_quotes == quoted_value(v@),
            forall|j: int| 0 <= j < k && #[trigger] needs_escape(v@[j], quoted_value(v@)) ==> {
                if v@[j] == '\n' {
                    is_char_boundary(bytes, j) && is_char_boundary(bytes, j + 1)
                } else {
                    0 < j < last ==> is_char_boundary(bytes, j - 1) && is_char_boundary(bytes, j)
                }
            },
        decreases chars - k,
    {
        let c: char = s.get_char(k);
        if escapes(c, in_quotes) {
            if c == '\n' {
                if !(s.is_char_boundary(k) && s.is_char_boundary(k + 1)) {
                    assert(needs_escape(v@[k as int], quoted_value(v@)));
                    return false;
                }
            } else if k > 0 && k < last {
                if !(s.is_char_boundary(k - 1) && s.is_char_boundary(k)) {
                    assert(needs_escape(v@[k as int], quoted_value(v@)));
                    return false;
                }
            }
        }
        k = k + 1;
    }
    true
}

/// Whether `ical` can write property `p`.
fn property_ok(p: &Property) -> (r: bool)
    ensures
        r == property_emittable(p@),
{
    match &p.params {
        None => true,
        Some(ps) => {
            let ghost all = ps.deep_view();
            let mut i: usize = 0;
            while i < ps.len()
                invariant
                    i <= ps.len(),
                    all == ps.deep_view(),
                    p@.params == Some(all),
                    forall|a: int, b: int|
                        0 <= a < i && 0 <= b < all[a].1.len() ==> #[trigger] param_value_emittable(all[a].1[b]),
                decreases ps.len() - i,
            {
                let values = &ps[i].1;
                assert(all[i as int].1 == values.deep_view());
                let mut j: usize = 0;
                while j < values.len()
                    invariant
                        j <= values.len(),
                        all == ps.deep_view(),
                        all[i as int].1 == values.deep_view(),
                        i < all.len(),
                        p@.params == Some(all),
                        forall|b: int| 0 <= b < j ==> #[trigger] param_value_emittable(all[i as int].1[b]),
                    decreases values.len() - j,
                {
                    assert(all[i as int].1[j as int] == values@[j as int]@);
                    if !param_value_ok(&values[j]) {
                        assert(!param_value_emittable(all[i as int].1[j as int]));
                        assert(0 <= j < all[i as int].1.len());
                        let ghost pv = p@;
                        assert(pv.params == Some(all));
                        assert(pv.params->0[i as int].1[j as int] == all[i as int].1[j as int]);
                        assert(!property_emittable(pv));
                        return false;
                    }
                    j = j + 1;
                }
                i = i + 1;
            }
            true
        },
    }
}

/// Whether `ical` can write every property of `props`.
fn properties_ok(props: &Vec<Property>) -> (r: bool)
    ensures
        r == all_emittable(props.deep_view()),
{
    let mut i: usize = 0;
    while i < props.len()
        invariant
            i <= props.len(),
            forall|a: int| 0 <= a < i ==> #[trigger] property_emittable(props.deep_view()[a]),
        decreases props.len() - i,
    {
        if !property_ok(&props[i]) {
            assert(props.deep_view()[i as int] == props@[i as int]@);
            return false;
        }
        i = i + 1;
    }
    true
}

/// Whether every property anywhere in `calendar` can be written out, which
/// [`calendar_ics`] asks of its argument.
pub fn calendar_can_be_written(calendar: &Calendar) -> (r: bool)
    ensures
        r == calendar_emittable(calendar@),
{
    if !properties_ok(&calendar.properties) {
        return false;
    }
    let mut i: usize = 0;
    while i < calendar.timezones.len()
        invariant
            i <= calendar.timezones.len(),
            forall|a: int| 0 <= a < i ==> #[trigger] timezone_emittable(calendar@.timezones[a]),
        decreases calendar.timezones.len() - i,
    {
        let tz = &calendar.timezones[i];
        assert(calendar@.timezones[i as int] == tz@);
        if !properties_ok(&tz.properties) {
            assert(!timezone_emittable(calendar@.timezones[i as int]));
            return false;
        }
        let mut k: usize = 0;
        while k < tz.transitions.len()
            invariant
                k <= tz.transitions.len(),
                i < calendar@.timezones.len(),
                calendar@.timezones[i as int] == tz@,
                forall|b: int| 0 <= b < k ==> all_emittable(#[trigger] tz@.transitions[b].properties),
            decreases tz.transitions.len() - k,
        {
            assert(tz@.transitions[k as int] == tz.transitions@[k as int]@);
            if !properties_ok(&tz.transitions[k].properties) {
                assert(!all_emittable(tz@.transitions[k as int].properties));
                assert(!timezone_emittable(calendar@.timezones[i as int]));
                return false;
            }
            k = k + 1;
        }
        i = i + 1;
    }
    let mut i: usize = 0;
    while i < calendar.events.len()
        invariant
            i <= calendar.events.len(),
            calendar_emittable(calendar@) == (forall|a: int| 0 <= a < calendar@.events.len() ==> #[trigger] event_emittable(calendar@.events[a])),
            forall|a: int| 0 <= a < i ==> #[trigger] event_emittable(calendar@.events[a]),
        decreases calendar.events.len() - i,
    {
        let ev = &calendar.events[i];
        assert(calendar@.events[i as int] == ev@);
        if !properties_ok(&ev.properties) {
            assert(!event_emittable(calendar@.events[i as int]));
            return false;
        }
        let mut k: usize = 0;
        while k < ev.alarms.len()
            invariant
                k <= ev.alarms.len(),
                i < calendar@.events.len(),
                calendar@.events[i as int] == ev@,
                forall|b: int| 0 <= b < k ==> all_emittable(#[trigger] ev@.alarms[b].properties),
            decreases ev.alarms.len() - k,
        {
            assert(ev@.alarms[k as int] == ev.alarms@[k as int]@);
            if !properties_ok(&ev.alarms[k].properties) {
                assert(!all_emittable(ev@.alarms[k as int].properties));
                assert(!event_emittable(calendar@.events[i as int]));
                return false;
            }
            k = k + 1;
        }
        i = i + 1;
    }
    true
}

/// The lines of `props`, one after the other.
pub open spec fn lines_text(props: Seq<PropertyView>) -> Seq<char>
    decreases props.len(),
{
    if props.len() == 0 {
        seq![]
    } else {
        lines_text(props.drop_last()) + property_line(props.last())
    }
}

/// `body` between a `BEGIN:` and an `END:` line for component `key`.
pub open spec fn block(key: Seq<char>, body: Seq<char>) -> Seq<char> {
    "BEGIN:"@ + key + "\r\n"@ + body + "END:"@ + key + "\r\n"@
}

/// The text of an alarm.
pub open spec fn alarm_text(a: AlarmView) -> Seq<char> {
    block("VALARM"@, lines_text(a.properties))
}

/// The texts of `alarms`, one after the other.
pub open spec fn alarms_text(alarms: Seq<AlarmView>) -> Seq<char>
    decreases alarms.len(),
{
    if alarms.len() == 0 {
        seq![]
    } else {
        alarms_text(alarms.drop_last()) + alarm_text(alarms.last())
    }
}

/// The component name of a transition.
pub open spec fn transition_key(kind: TransitionKind) -> Seq<char> {
    match kind {
        TransitionKind::Standard => "STANDARD"@,
        TransitionKind::Daylight => "DAYLIGHT"@,
    }
}

/// The text of a timezone transition.
pub open spec fn transition_text(t: TransitionView) -> Seq<char> {
    block(transition_key(t.kind), lines_text(t.properties))
}

/// The texts of `transitions`, one after the other.
pub open spec fn transitions_text(transitions: Seq<TransitionView>) -> Seq<char>
    decreases transitions.len(),
{
    if transitions.len() == 0 {
        seq![]
    } else {
        transitions_text(transitions.drop_last()) + transition_text(transitions.last())
    }
}

/// The text of a timezone definition.
pub open spec fn timezone_text(tz: TimeZoneView) -> Seq<char> {
    block("VTIMEZONE"@, lines_text(tz.properties) + transitions_text(tz.transitions))
}

/// The texts of `timezones`, one after the other.
pub open spec fn timezones_text(timezones: Seq<TimeZoneView>) -> Seq<char>
    decreases timezones.len(),
{
    if timezones.len() == 0 {
        seq![]
    } else {
        timezones_text(timezones.drop_last()) + timezone_text(timezones.last())
    }
}

/// The text of an event: its properties, then its alarms.
pub open spec fn event_text(e: EventView) -> Seq<char> {
    block("VEVENT"@, lines_text(e.properties) + alarms_text(e.alarms))
}

/// The texts of `events`, one after the other.
pub open spec fn events_text(events: Seq<EventView>) -> Seq<char>
    decreases events.len(),
{
    if events.len() == 0 {
        seq![]
    } else {
        events_text(events.drop_last()) + event_text(events.last())
    }
}

/// The text of a calendar: its properties, then its timezone definitions, then its events.
pub open spec fn calendar_text(c: CalendarView) -> Seq<char> {
    block("VCALENDAR"@, lines_text(c.properties) + timezones_text(c.timezones) + events_text(c.events))
}

/// The content line that `ical` writes for `p`, through
/// `<ical::property::Property as ical::generator::Emitter>::generate`: the
/// contract states its shape ([`property_line`]) and names only how a
/// parameter value that needs backslashes is escaped, as a function of that
/// value alone. That emitter stops the program on some parameter values (see
/// [`param_value_emittable`]), so only properties whose parameter values it
/// can write are handed to it.
#[verifier::external_body]
fn emit_property(p: &Property) -> (line: String)
    requires
        property_emittable(p@),
    ensures
        line@ == line_with(p@, |v: Seq<char>| escaped_param_value(v)),
{
    let outside = ical::property::Property {
        name: p.name.clone(),
        params: p.params.clone(),
        value: p.value.clone(),
    };
    outside.generate()
}

/// Appends the `BEGIN:` line of component `key`.
fn push_begin(out: &mut String, key: &str)
    ensures
        final(out)@ == old(out)@ + "BEGIN:"@ + key@ + "\r\n"@,
{
    out.append("BEGIN:");
    out.append(key);
    out.append("\r\n");
}

/// Appends the `END:` line of component `key`.
fn push_end(out: &mut String, key: &str)
    ensures
        final(out)@ == old(out)@ + "END:"@ + key@ + "\r\n"@,
{
    out.append("END:");
    out.append(key);
    out.append("\r\n");
}

/// Appends the lines of `props`.
fn push_lines(out: &mut String, props: &Vec<Property>)
    requires
        all_emittable(props.deep_view()),
    ensures
        final(out)@ == old(out)@ + lines_text(props.deep_view()),
{
    let ghost all = props.deep_view();
    let mut i: usize = 0;
    assert(all.take(0) =~= seq![]);
    assert(out@ =~= old(out)@ + lines_text(all.take(0)));
    while i < props.len()
        invariant
            i <= props.len(),
            all == props.deep_view(),
            all_emittable(all),
            out@ == old(out)@ + lines_text(all.take(i as int)),
        decreases props.len() - i,
    {
        assert(all.take(i + 1).drop_last() =~= all.take(i as int));
        assert(all.take(i + 1).last() == props@[i as int]@);
        assert(property_emittable(all[i as int]));
        let line = emit_property(&props[i]);
        assert(line@ == property_line(props@[i as int]@)) by {
            let escape_here = |v: Seq<char>| escaped_param_value(v);
            let escape_there = |v: Seq<char>| escaped_param_value(v);
            assert(escape_here =~= escape_there);
        }
        out.append(line.as_str());
        assert(out@ =~= old(out)@ + lines_text(all.take(i + 1)));
        i = i + 1;
    }
    assert(all.take(i as int) =~= all);
}

/// Appends the text of an alarm.
fn push_alarm(out: &mut String, alarm: &Alarm)
    requires
        all_emittable(alarm@.properties),
    ensures
        final(out)@ == old(out)@ + alarm_text(alarm@),
{
    push_begin(out, "VALARM");
    push_lines(out, &alarm.properties);
    push_end(out, "VALARM");
    assert(out@ =~= old(out)@ + alarm_text(alarm@));
}

/// Appends the text of an event, alarms included.
fn push_event(out: &mut String, event: &Event)
    requires
        event_emittable(event@),
    ensures
        final(out)@ == old(out)@ + event_text(event@),
{
    push_begin(out, "VEVENT");
    push_lines(out, &event.properties);
    let ghost start = out@;
    let ghost alarms = event@.alarms;
    let mut i: usize = 0;
    assert(alarms.take(0) =~= seq![]);
    assert(out@ =~= start + alarms_text(alarms.take(0)));
    while i < event.alarms.len()
        invariant
            i <= event.alarms.len(),
            alarms == event@.alarms,
            alarms.len() == event.alarms.len(),
            event_emittable(event@),
            out@ == start + alarms_text(alarms.take(i as int)),
        decreases event.alarms.len() - i,
    {
        assert(alarms.take(i + 1).drop_last() =~= alarms.take(i as int));
        assert(alarms.take(i + 1).last() == event.alarms@[i as int]@);
        assert(all_emittable(alarms[i as int].properties));
        push_alarm(out, &event.alarms[i]);
        assert(out@ =~= start + alarms_text(alarms.take(i + 1)));
        i = i + 1;
    }
    assert(alarms.take(i as int) =~= alarms);
    push_end(out, "VEVENT");
    assert(out@ =~= old(out)@ + event_text(event@));
}

/// Appends the text of a timezone transition.
fn push_transition(out: &mut String, t: &Transition)
    requires
        all_emittable(t@.properties),
    ensures
        final(out)@ == old(out)@ + transition_text(t@),
{
    let key = match t.kind {
        TransitionKind::Standard => "STANDARD",
        TransitionKind::Daylight => "DAYLIGHT",
    };
    push_begin(out, key);
    push_lines(out, &t.properties);
    push_end(out, key);
    assert(out@ =~= old(out)@ + transition_text(t@));
}

/// Appends the text of a timezone definition, transitions included.
fn push_timezone(out: &mut String, tz: &TimeZone)
    requires
        timezone_emittable(tz@),
    ensures
        final(out)@ == old(out)@ + timezone_text(tz@),
{
    push_begin(out, "VTIMEZONE");
    push_lines(out, &tz.properties);
    let ghost start = out@;
    let ghost ts = tz@.transitions;
    let mut i: usize = 0;
    assert(ts.take(0) =~= seq![]);
    assert(out@ =~= start + transitions_text(ts.take(0)));
    while i < tz.transitions.len()
        invariant
            i <= tz.transitions.len(),
            ts == tz@.transitions,
            ts.len() == tz.transitions.len(),
            timezone_emittable(tz@),
            out@ == start + transitions_text(ts.take(i as int)),
        decreases tz.transitions.len() - i,
    {
        assert(ts.take(i + 1).drop_last() =~= ts.take(i as int));
        assert(ts.take(i + 1).last() == tz.transitions@[i as int]@);
        assert(all_emittable(ts[i as int].properties));
        push_transition(out, &tz.transitions[i]);
        assert(out@ =~= start + transitions_text(ts.take(i + 1)));
        i = i + 1;
    }
    assert(ts.take(i as int) =~= ts);
    push_end(out, "VTIMEZONE");
    assert(out@ =~= old(out)@ + timezone_text(tz@));
}

/// The iCalendar text of `calendar`: its properties, timezone definitions and
/// events between `BEGIN:VCALENDAR` and `END:VCALENDAR`, each property written
/// by `ical`.
pub fn calendar_ics(calendar: &Calendar) -> (text: String)
    requires
        calendar_emittable(calendar@),
    ensures
        text@ == calendar_text(calendar@),
{
    let mut out = String::new();
    push_begin(&mut out, "VCALENDAR");
    push_lines(&mut out, &calendar.properties);
    let ghost after_props = out@;
    let ghost tzs = calendar@.timezones;
    let mut i: usize = 0;
    assert(tzs.take(0) =~= seq![]);
    assert(out@ =~= after_props + timezones_text(tzs.take(0)));
    while i < calendar.timezones.len()
        invariant
            i <= calendar.timezones.len(),
            tzs == calendar@.timezones,
            tzs.len() == calendar.timezones.len(),
            calendar_emittable(calendar@),
            out@ == after_props + timezones_text(tzs.take(i as int)),
        decreases calendar.timezones.len() - i,
    {
        assert(tzs.take(i + 1).drop_last() =~= tzs.take(i as int));
        assert(tzs.take(i + 1).last() == calendar.timezones@[i as int]@);
        assert(timezone_emittable(tzs[i as int]));
        push_timezone(&mut out, &calendar.timezones[i]);
        assert(out@ =~= after_props + timezones_text(tzs.take(i + 1)));
        i = i + 1;
    }
    assert(tzs.take(i as int) =~= tzs);
    let ghost after_tzs = out@;
    let ghost events = calendar@.events;
    let mut k: usize = 0;
    assert(events.take(0) =~= seq![]);
    assert(out@ =~= after_tzs + events_text(events.take(0)));
    while k < calendar.events.len()
        invariant
            k <= calendar.events.len(),
            events == calendar@.events,
            events.len() == calendar.events.len(),
            calendar_emittable(calendar@),
            out@ == after_tzs + events_text(events.take(k as int)),
        decreases calendar.events.len() - k,
    {
        assert(events.take(k + 1).drop_last() =~= events.take(k as int));
        assert(events.take(k + 1).last() == calendar.events@[k as int]@);
        assert(event_emittable(events[k as int]));
        push_event(&mut out, &calendar.events[k]);
        assert(out@ =~= after_tzs + events_text(events.take(k + 1)));
        k = k + 1;
    }
    assert(events.take(k as int) =~= events);
    push_end(&mut out, "VCALENDAR");
    assert(out@ =~= calendar_text(calendar@));
    out
}

} // verus!
