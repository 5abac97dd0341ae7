//! A weather-forecast governance pallet: proposal authorities submit weather
//! reports, vote authorities confirm them once enough votes arrive, and both kinds
//! of authority can be voted out.

pub mod table;
pub mod types;
pub mod module;
pub mod json;
pub mod offchain;
pub mod laws;
