//! The terminal client: what it shows and how it reacts.
pub mod agent_events;
pub mod banner;
pub mod base64;
pub mod choice;
pub mod code;
pub mod cursor;
pub mod diff;
pub mod editor;
pub mod footer;
pub mod frame;
pub mod input_view;
pub mod key_input;
pub mod markdown;
pub mod markdown_source;
pub mod options;
pub mod picker;
pub mod scrolling;
pub mod selection;
pub mod slash;
pub mod state;
pub mod status;
pub mod steps;
pub mod style;
pub mod table;
pub mod transcript;
pub mod usage;
pub mod viewport;
pub mod width;
pub mod wrap;
