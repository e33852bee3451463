//! Analytics engine for geometrically-decayed performance-score rankings.
//!
//! The library answers three questions about a player's ranked score list:
//! what single new score is required to reach a target total (`gap`),
//! what an imperfect play would look like cleaned up (`reconstruct`),
//! and which plays of a batch profit most from cleaning up (`topk`).
//! All quantities are fixed-point integers; ordering and totals are exact.
//! A few plain data records of the surrounding application live beside
//! the engine (`avatar`, `embeds`, `mixer`), along with the word-distance
//! routine its guessing game relies on (`distance`).

pub mod avatar;
pub mod distance;
pub mod embeds;
pub mod gap;
pub mod mixer;
pub mod perf;
pub mod play;
pub mod pruning;
pub mod reconstruct;
pub mod topk;
pub mod totals;
pub mod weighted_list;
pub mod weights;
