//! Host monitoring, fleet deployment and access control for a watchdog agent.

pub mod auth;
pub mod clock;
pub mod collector;
pub mod config;
pub mod crypto;
pub mod data;
pub mod db;
pub mod deploy;
pub mod diskstats;
pub mod json;
pub mod nodes;
pub mod smart;
pub mod table;
pub mod text;
pub mod token;
pub mod ui;
