//! A small library for a desktop background-removal utility.
//!
//! It models the pure core of three operations — picking an image,
//! sending it to a background-removal web service, and picking a save
//! folder — as verified functions over plain values.  All file, dialog
//! and network I/O lives outside the library and hands plain values in.

pub mod b64;
pub mod datauri;
pub mod decimal;
pub mod errors;
pub mod images;
pub mod paths;
pub mod picker;
pub mod removal;

pub use errors::MattingError;
pub use images::ImageResult;
