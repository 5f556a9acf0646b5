//! Combo Consistency V3 for osu!standard: the integer core of the
//! performance calculator (hitresult generation, score state bookkeeping,
//! difficulty-object pairing) with its contracts and laws.

pub mod score_state;
pub mod search;
pub mod performance;
pub mod laws;
pub mod difficulty;
pub mod aim_rx;
pub mod mods;
pub mod ranks;
pub mod chunks;
