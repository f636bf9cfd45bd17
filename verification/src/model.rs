//! The calendar model: what a parsed `.ics` file holds, as plain values.

use vstd::prelude::*;

verus! {

/// A content line of a component: its name, its parameters (each a key with
/// its values), and its value.
#[derive(Debug, Clone, PartialEq, Eq)]
pub struct Property {
    pub name: String,
    pub params: Option<Vec<(String, Vec<String>)>>,
    pub value: Option<String>,
}

/// A `VALARM` component.
#[derive(Debug, Clone, PartialEq, Eq)]
pub struct Alarm {
    pub properties: Vec<Property>,
}

/// A `VEVENT` component.
#[derive(Debug, Clone, PartialEq, Eq)]
pub struct Event {
    pub properties: Vec<Property>,
    pub alarms: Vec<Alarm>,
}

/// Which kind of observance a timezone transition describes.
#[derive(Debug, Clone, Copy, PartialEq, Eq)]
pub enum TransitionKind {
    Standard,
    Daylight,
}

/// A `STANDARD` or `DAYLIGHT` block inside a `VTIMEZONE`.
#[derive(Debug, Clone, PartialEq, Eq)]
pub struct Transition {
    pub kind: TransitionKind,
    pub properties: Vec<Property>,
}

/// A `VTIMEZONE` component.
#[derive(Debug, Clone, PartialEq, Eq)]
pub struct TimeZone {
    pub properties: Vec<Property>,
    pub transitions: Vec<Transition>,
}

/// A `VCALENDAR`: its own properties, its events and its timezone definitions.
#[derive(Debug, Clone, PartialEq, Eq)]
pub struct Calendar {
    pub properties: Vec<Property>,
    pub events: Vec<Event>,
    pub timezones: Vec<TimeZone>,
}

/// The mathematical value of a [`Property`].
pub struct PropertyView {
    pub name: Seq<char>,
    pub params: Option<Seq<(Seq<char>, Seq<Seq<char>>)>>,
    pub value: Option<Seq<char>>,
}

/// The mathematical value of an [`Alarm`].
pub struct AlarmView {
    pub properties: Seq<PropertyView>,
}

/// The mathematical value of an [`Event`].
pub struct EventView {
    pub properties: Seq<PropertyView>,
    pub alarms: Seq<AlarmView>,
}

/// The mathematical value of a [`Transition`].
pub struct TransitionView {
    pub kind: TransitionKind,
    pub properties: Seq<PropertyView>,
}

/// The mathematical value of a [`TimeZone`].
pub struct TimeZoneView {
    pub properties: Seq<PropertyView>,
    pub transitions: Seq<TransitionView>,
}

/// The mathematical value of a [`Calendar`].
pub struct CalendarView {
    pub properties: Seq<PropertyView>,
    pub events: Seq<EventView>,
    pub timezones: Seq<TimeZoneView>,
}

impl View for Property {
    type V = PropertyView;

    open spec fn view(&self) -> PropertyView {
        PropertyView {
            name: self.name@,
            params: self.params.deep_view(),
            value: self.value.deep_view(),
        }
    }
}

impl DeepView for Property {
    type V = PropertyView;

    open spec fn deep_view(&self) -> PropertyView {
        self@
    }
}

impl View for Alarm {
    type V = AlarmView;

    open spec fn view(&self) -> AlarmView {
        AlarmView { properties: self.properties.deep_view() }
    }
}

impl DeepView for Alarm {
    type V = AlarmView;

    open spec fn deep_view(&self) -> AlarmView {
        self@
    }
}

impl View for Event {
    type V = EventView;

    open spec fn view(&self) -> EventView {
        EventView { properties: self.properties.deep_view(), alarms: self.alarms.deep_view() }
    }
}

impl DeepView for Event {
    type V = EventView;

    open spec fn deep_view(&self) -> EventView {
        self@
    }
}

impl View for Transition {
    type V = TransitionView;

    open spec fn view(&self) -> TransitionView {
        TransitionView { kind: self.kind, properties: self.properties.deep_view() }
    }
}

impl DeepView for Transition {
    type V = TransitionView;

    open spec fn deep_view(&self) -> TransitionView {
        self@
    }
}

impl View for TimeZone {
    type V = TimeZoneView;

    open spec fn view(&self) -> TimeZoneView {
        TimeZoneView {
            properties: self.properties.deep_view(),
            transitions: self.transitions.deep_view(),
        }
    }
}

impl DeepView for TimeZone {
    type V = TimeZoneView;

    open spec fn deep_view(&self) -> TimeZoneView {
        self@
    }
}

impl View for Calendar {
    type V = CalendarView;

    open spec fn view(&self) -> CalendarView {
        CalendarView {
            properties: self.properties.deep_view(),
            events: self.events.deep_view(),
            timezones: self.timezones.deep_view(),
        }
    }
}

/// A list of strings with each string copied.
pub fn copy_strings(v: &Vec<String>) -> (r: Vec<String>)
    ensures
        r.deep_view() == v.deep_view(),
{
    let mut r: Vec<String> = Vec::new();
    let mut i: usize = 0;
    while i < v.len()
        invariant
            i <= v.len(),
            r.len() == i,
            forall|j: int| 0 <= j < i ==> #[trigger] r@[j]@ == v@[j]@,
        decreases v.len() - i,
    {
        r.push(v[i].clone());
        i = i + 1;
    }
    assert(r.deep_view() =~= v.deep_view());
    r
}

impl Property {
    /// A copy of this property, field for field.
    pub fn duplicate(&self) -> (r: Property)
        ensures
            r@ == self@,
    {
        let params = match &self.params {
            None => None,
            Some(ps) => {
                let mut out: Vec<(String, Vec<String>)> = Vec::new();
                let mut i: usize = 0;
                while i < ps.len()
                    invariant
                        i <= ps.len(),
                        out.len() == i,
                        forall|j: int| 0 <= j < i ==> #[trigger] out@[j].deep_view() == ps@[j].deep_view(),
                    decreases ps.len() - i,
                {
                    let (key, values) = &ps[i];
                    out.push((key.clone(), copy_strings(values)));
                    i = i + 1;
                }
                assert(out.deep_view() =~= ps.deep_view());
                Some(out)
            },
        };
        let value = match &self.value {
            None => None,
            Some(v) => Some(v.clone()),
        };
        Property { name: self.name.clone(), params, value }
    }
}

/// A list of properties with each property copied.
pub fn copy_properties(v: &Vec<Property>) -> (r: Vec<Property>)
    ensures
        r.deep_view() == v.deep_view(),
{
    let mut r: Vec<Property> = Vec::new();
    let mut i: usize = 0;
    while i < v.len()
        invariant
            i <= v.len(),
            r.len() == i,
            forall|j: int| 0 <= j < i ==> #[trigger] r@[j]@ == v@[j]@,
        decreases v.len() - i,
    {
        r.push(v[i].duplicate());
        i = i + 1;
    }
    assert(r.deep_view() =~= v.deep_view());
    r
}

impl Transition {
    /// A copy of this transition, field for field.
    pub fn duplicate(&self) -> (r: Transition)
        ensures
            r@ == self@,
    {
        Transition { kind: self.kind, properties: copy_properties(&self.properties) }
    }
}

impl TimeZone {
    /// A copy of this timezone definition, field for field.
    pub fn duplicate(&self) -> (r: TimeZone)
        ensures
            r@ == self@,
    {
        let mut transitions: Vec<Transition> = Vec::new();
        let mut i: usize = 0;
        while i < self.transitions.len()
            invariant
                i <= self.transitions.len(),
                transitions.len() == i,
                forall|j: int| 0 <= j < i ==> #[trigger] transitions@[j]@ == self.transitions@[j]@,
            decreases self.transitions.len() - i,
        {
            transitions.push(self.transitions[i].duplicate());
            i = i + 1;
        }
        assert(transitions.deep_view() =~= self.transitions.deep_view());
        TimeZone { properties: copy_properties(&self.properties), transitions }
    }
}

} // verus!
