//! Finding properties and parameters by name.

use vstd::prelude::*;

use crate::model::{Event, Property, PropertyView, TimeZone};
use crate::text::text_is;

verus! {

/// The first property of `props` called `name`.
pub open spec fn first_named(props: Seq<PropertyView>, name: Seq<char>) -> Option<PropertyView>
    decreases props.len(),
{
    if props.len() == 0 {
        None
    } else if props[0].name == name {
        Some(props[0])
    } else {
        first_named(props.drop_first(), name)
    }
}

/// The value of the first property of `props` called `name` (none when that
/// property has no value, even if a later one of that name has one).
pub open spec fn value_of(props: Seq<PropertyView>, name: Seq<char>) -> Option<Seq<char>> {
    match first_named(props, name) {
        Some(p) => p.value,
        None => None,
    }
}

/// The first value of the first parameter called `key` that has a value.
pub open spec fn first_param(params: Seq<(Seq<char>, Seq<Seq<char>>)>, key: Seq<char>) -> Option<Seq<char>>
    decreases params.len(),
{
    if params.len() == 0 {
        None
    } else if params[0].0 == key && params[0].1.len() > 0 {
        Some(params[0].1[0])
    } else {
        first_param(params.drop_first(), key)
    }
}

/// The first value of the parameter `key` of property `p`.
pub open spec fn param_of(p: PropertyView, key: Seq<char>) -> Option<Seq<char>> {
    match p.params {
        Some(ps) => first_param(ps, key),
        None => None,
    }
}

/// The timezone an event's properties refer to: the `TZID` parameter of its
/// first `DTSTART`, or failing that of its first `DTEND`.
pub open spec fn event_tzid(props: Seq<PropertyView>) -> Option<Seq<char>> {
    let from_start = match first_named(props, "DTSTART"@) {
        Some(p) => param_of(p, "TZID"@),
        None => None,
    };
    if from_start is Some {
        from_start
    } else {
        match first_named(props, "DTEND"@) {
            Some(p) => param_of(p, "TZID"@),
            None => None,
        }
    }
}

/// The position of the first property of `props` called `name`.
pub fn find_property(props: &Vec<Property>, name: &str) -> (r: Option<usize>)
    ensures
        match r {
            Some(i) => i < props.len() && first_named(props.deep_view(), name@) == Some(props@[i as int]@),
            None => first_named(props.deep_view(), name@) is None,
        },
{
    let ghost all = props.deep_view();
    let mut i: usize = 0;
    assert(all.skip(0) =~= all);
    while i < props.len()
        invariant
            i <= props.len(),
            all == props.deep_view(),
            first_named(all, name@) == first_named(all.skip(i as int), name@),
        decreases props.len() - i,
    {
        assert(all.skip(i as int)[0] == props@[i as int]@);
        if text_is(&props[i].name, name) {
            return Some(i);
        }
        assert(all.skip(i as int).drop_first() =~= all.skip(i + 1));
        i = i + 1;
    }
    None
}

/// The value of the first property of `event` called `name`, copied.
pub fn property_value(event: &Event, name: &str) -> (r: Option<String>)
    ensures
        r.deep_view() == value_of(event@.properties, name@),
{
    match find_property(&event.properties, name) {
        Some(i) => match &event.properties[i].value {
            Some(v) => Some(v.clone()),
            None => None,
        },
        None => None,
    }
}

/// The first value of the parameter `name` of `property`, copied.
pub fn param_value(property: &Property, name: &str) -> (r: Option<String>)
    ensures
        r.deep_view() == param_of(property@, name@),
{
    match &property.params {
        None => None,
        Some(ps) => {
            let ghost all = ps.deep_view();
            let mut i: usize = 0;
            assert(all.skip(0) =~= all);
            while i < ps.len()
                invariant
                    i <= ps.len(),
                    all == ps.deep_view(),
                    property@.params == Some(all),
                    first_param(all, name@) == first_param(all.skip(i as int), name@),
                decreases ps.len() - i,
            {
                assert(all.skip(i as int)[0] == ps@[i as int].deep_view());
                let (key, values) = &ps[i];
                if text_is(key, name) && values.len() > 0 {
                    assert(values.deep_view()[0] == values@[0]@);
                    return Some(values[0].clone());
                }
                assert(all.skip(i as int).drop_first() =~= all.skip(i + 1));
                i = i + 1;
            }
            None
        },
    }
}

/// The `TZID` value that names a timezone definition.
pub fn timezone_tzid(timezone: &TimeZone) -> (r: Option<String>)
    ensures
        r.deep_view() == value_of(timezone@.properties, "TZID"@),
{
    match find_property(&timezone.properties, "TZID") {
        Some(i) => match &timezone.properties[i].value {
            Some(v) => Some(v.clone()),
            None => None,
        },
        None => None,
    }
}

/// The timezone that an event's start, or else its end, refers to.
pub fn tzid_from_event(event: &Event) -> (r: Option<String>)
    ensures
        r.deep_view() == event_tzid(event@.properties),
{
    if let Some(i) = find_property(&event.properties, "DTSTART") {
        if let Some(tzid) = param_value(&event.properties[i], "TZID") {
            return Some(tzid);
        }
    }
    if let Some(i) = find_property(&event.properties, "DTEND") {
        if let Some(tzid) = param_value(&event.properties[i], "TZID") {
            return Some(tzid);
        }
    }
    None
}

} // verus!
