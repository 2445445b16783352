//! Verified core of a multiplayer pinball game: player colours, portal
//! placement on the deep-space sphere, the player registry, bot roster,
//! per-connection message policy, broadcast scheduling and the text the
//! client's HUD shows.

pub mod bot;
pub mod client;
pub mod config;
pub mod deep_space;
pub mod game_loop;
pub mod hud;
pub mod loadtest;
pub mod player;
pub mod rng;
pub mod session;
pub mod snapshots;
pub mod sphere;
pub mod state;
pub mod text;
