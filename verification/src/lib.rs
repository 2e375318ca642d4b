//! Verified core of a LAN game-server browser and RCON administration tool.
pub mod text;
pub mod network;
pub mod protocol;
pub mod assoc;
pub mod servers;
pub mod listing;
pub mod scanner;
pub mod cvar;
pub mod app_log;
pub mod events;
pub mod players;
pub mod score;
pub mod session;
pub mod connect;
pub mod console;
pub mod commands;
pub mod matchzy;
pub mod registry;
pub mod log_view;
pub mod dashboard;
pub mod broadcast;
pub mod pretty;
pub mod log_filter;
