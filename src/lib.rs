//! Connection management and cancellable, streamed translation requests
//! against a local text-generation service.
//!
//! `session` holds the one optional connection; `prompt` builds the text sent
//! to the service; `controller` decides, event by event, what a translation
//! call sends to its caller and when it stops.

mod outside;

pub mod session;
pub mod prompt;
pub mod controller;
