//! Wireless-frame intelligence for an 802.11 sonification monitor: radiotap and
//! MAC header decoding, event classification, device tracking, admission
//! shaping, a fixed-point sample queue, and readers for `iw` output.
//!
//! Times are milliseconds of a monotonic clock that the caller supplies;
//! gains are thousandths; samples are fractions of `audio::FULL_SCALE`.

pub mod api;
pub mod audio;
pub mod classify;
pub mod devices;
pub mod events;
pub mod frame;
pub mod iw;
pub mod limiter;
pub mod macmap;
pub mod radiotap;
pub mod shaper;
pub mod text;
