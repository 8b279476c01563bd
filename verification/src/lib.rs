//! Verified core of the Bola game API: leaderboards, tournaments, user profiles,
//! message framing, authentication decisions and websocket session flow.
pub mod bytes;
pub mod leaderboard;
pub mod framing;
pub mod text;
pub mod records;
pub mod clock;
pub mod tournament;
pub mod auth_pages;
pub mod config;
pub mod neo_api;
pub mod utils;
pub mod session;
pub mod token;
pub mod webrtc;
pub mod multiplayer;
pub mod bearer;
pub mod auth_flow;
pub mod network;
pub mod ws;
pub mod messaging;
pub mod alive;
pub mod record_alive;
pub mod server;
pub mod distributed;
pub mod record_store;
