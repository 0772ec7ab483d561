//! Decision logic of an ALVR streamer fork: pipeline profiling, hard SteamVR
//! configuration, audio default-device routing and client discovery.

pub mod stage;
pub mod text;
pub mod agg;
pub mod profiler;
pub mod span;
pub mod session;
pub mod hard_config;
pub mod audio;
pub mod discovery;
pub mod connect;
