//! Keeps a WARP connection alive: decides how its network interface is found, how the connection
//! is checked, when and how it is renewed, and what is logged.
//!
//! The library computes and decides; running commands, opening sockets, reading and writing files
//! and letting time pass are left to its caller. Where the outside has to be asked, a function of
//! the library says what to ask, or what is next, and another says what is made of the answer.

pub mod check;
pub mod client;
pub mod command;
pub mod config;
pub mod decode;
pub mod detect;
pub mod http;
pub mod interface;
pub mod logging;
pub mod monitor;
pub mod net;
pub mod number;
pub mod reconnect;
pub mod store;
pub mod text;
pub mod url;

pub use check::{
    plan_primary_check, run_primary_check, run_reconnect_verify_checks, CheckReport, SingleCheckResult,
};
pub use client::WarpClient;
pub use config::{
    AppConfig, GeneralConfig, HealthCheck, MonitorConfig, ReconnectConfig, ReconnectVerifyConfig,
};
pub use detect::{detect_client_builtin, detect_client_now, CommandProbe, SystemCommandProbe};
pub use interface::find_warp_interface;
pub use logging::LogLevel;
pub use reconnect::execute_reconnect;
pub use store::{init_config, load_or_create_config, read_config, render_config, write_config};
pub use url::parse_http_url;
