//! Server management service: configuration, operator authentication,
//! metrics history retention, log tailing and process actions.

pub mod text;
pub mod config;
pub mod tokens;
pub mod crypto;
pub mod auth;
pub mod history;
pub mod logs;
pub mod signals;
pub mod processes;
pub mod alerts;
pub mod api;
pub mod audit;
