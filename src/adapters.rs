//! One adapter per source format, each turning what the source wrote into
//! canonical sessions and events.

pub mod journal;
pub mod codex;
pub mod opencode;
pub mod crush;
