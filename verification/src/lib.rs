//! Building minimal single-event iCalendar exports, suitable for QR codes,
//! from a parsed calendar, and rendering such text into a QR bitmap.

pub mod emit;
pub mod export;
pub mod laws;
pub mod load;
pub mod lookup;
pub mod model;
pub mod parse;
pub mod qr;
pub mod text;

pub use emit::calendar_can_be_written;
pub use export::{
    copy_recurrence_properties, event_ics, minimal_event, property, referenced_timezones,
    single_event_calendar, truncate_value, DESCRIPTION_LIMIT, LOCATION_LIMIT,
};
pub use load::{calendar_from_parse, event_label, load_calendar, LoadedCalendar};
pub use parse::parse_first_calendar;
pub use lookup::{param_value, property_value, timezone_tzid, tzid_from_event};
pub use model::{Alarm, Calendar, Event, Property, TimeZone, Transition, TransitionKind};
pub use qr::{generate_qr, GeneratedQr};
