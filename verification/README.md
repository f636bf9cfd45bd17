# icsqr

Turns one event of an iCalendar file into a minimal, self-contained `VCALENDAR`
text and renders that text as a QR code, so that a phone camera can add the
event to a calendar.

The library under `src/` is verified with Verus:

- `model` — the calendar as plain values (properties, events, alarms,
  timezone definitions) and their mathematical views.
- `lookup` — finding properties and parameters by name; the event's `TZID`.
- `export` — what an export keeps: the core event fields (`DESCRIPTION` and
  `LOCATION` shortened), every recurrence property, a `UID`, a `DTSTAMP`, and
  only the timezone definitions the event refers to.
- `emit` — writing the model out as iCalendar text; each content line is
  written by the `ical` crate.
- `parse` — the first calendar of a file's bytes, parsed by the `ical` crate.
- `load` — loading a calendar from a file's bytes and labelling its events.
- `qr` — the QR image that the `qrcode` crate renders for the text, centred
  in a 280 by 280 square of light pixels, and its PNG encoding (from the
  `image` crate).
- `laws` — proved properties of exports: which fields survive, recurrence
  kept in order, length limits, `UID`/`DTSTAMP` presence, timezone selection,
  and that exporting an export changes nothing.
- `text` — decimal numbers and shortening with an ellipsis.

`app/` holds the desktop program around it: the Slint window, file dialogs,
the clipboard, and reading a file's bytes.
