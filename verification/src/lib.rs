//! Probe configuration, probe evaluation, probe state and terminal-session
//! recording logic for the kino probe service.

pub mod config;
pub mod kino_v1;
pub mod net;
pub mod order;
pub mod pattern;
pub mod probe;
pub mod recording;
pub mod scheduler;
pub mod state;
pub mod text;
