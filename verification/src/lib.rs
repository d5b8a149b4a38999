//! Classifies desktop-activity samples: a small rule interpreter over a
//! shared environment of values, and an extractor that turns a window title
//! and process metadata into an ordered list of tags.

pub mod error;
pub mod text;
pub mod number;
pub mod value;
pub mod equality;
pub mod interpreter;
pub mod iterative;
pub mod conditional;
pub mod window;
pub mod tags;
pub mod marker;
pub mod embedded;
pub mod software;
pub mod classify;
pub mod x11;
pub mod property;
pub mod network;
