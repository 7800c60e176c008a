//! Decisions behind a DLSS 5 one-click installer: which setup a game gets,
//! what its logs say about a session, and how its Feeder cfg is edited.

pub mod text;
pub mod num;
pub mod game;
pub mod setup;
pub mod advice;
pub mod diagnose;
pub mod feeder_cfg;
pub mod game_overrides;
pub mod perf;
pub mod cfg_laws;
