pub mod cli;
pub mod clock;
pub mod config;
pub mod error;
pub mod filter;
pub mod geolocation;
pub mod logger;
pub mod mac;
pub mod network;
pub mod orchestrator;
pub mod oui;
pub mod platform;
pub mod rules;
pub mod table;
pub mod text;
