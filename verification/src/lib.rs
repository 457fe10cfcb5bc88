//! Near-Earth-Object data shaping and session statistics.
//!
//! The library turns raw NEO payloads (a feed of objects per day, or a single
//! object lookup) into flat view models for rendering, and maintains a
//! per-session "Top Trumps" counter: the fastest relative velocity seen, the
//! closest miss distance seen, and a running count of objects seen.
//!
//! Upstream numeric values arrive as decimal text; the library carries them as
//! text and reads them through one shared parse that yields the whole-number
//! part. All quantities are therefore whole units (km/h, km, m).

pub mod decimal;
pub mod neo_structs;
pub mod projection;
pub mod top_trumps;
