//! Calendar and CalDAV logic for a COSMIC panel applet.

pub mod text;
pub mod ical;
pub mod time;
pub mod caldav;
pub mod vevent;
pub mod xml;
pub mod href;
pub mod config;
pub mod order;
pub mod app;
pub mod applet;
pub mod ical_laws;
