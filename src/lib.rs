//! Key-matrix keyboard pipeline: the tick path from scan to HID report, the
//! report assembly and send decision, and board constants.
pub mod board;
pub mod engine;
pub mod layout;
pub mod report;
