//! Verified core of a keyboard-driven sound trigger.
//!
//! The library covers the logic that decides *what* happens in response to
//! input events: tracking which modifier keys are held, parsing filenames
//! into key bindings, matching events against an ordered binding table,
//! validating the playback volume, and pacing the ambient playback engine.
//! The OS input hook, the audio decoder/sink and the task scheduler are
//! external collaborators; a thin unverified shell drives them and feeds
//! this library plain values.

pub mod ambient;
pub mod binding;
pub mod dispatch;
pub mod events;
pub mod grammar;
pub mod keys;
pub mod standard;
pub mod volume;
