//! Shared configuration ("safe-share") wire format.

pub mod error;
pub mod utf16;
pub mod reader;
pub mod writer;
pub mod payload;
pub mod codec_lemmas;
pub mod records;
pub mod float_records;
pub mod ui;
pub mod trading;
pub mod visual;
pub mod ini;
pub mod signals;
pub mod arb_view;
pub mod clipboard;
pub mod config;
