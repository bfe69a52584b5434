//! Verified core of the ClashR desktop client for mihomo: the IPC wire
//! framing and session rules shared with the privileged helper service,
//! the core-status state machine, subscription header parsing, profile
//! bookkeeping, and the text formatting shown by the UI.

pub mod text;
pub mod ipc;
pub mod daemon;
pub mod service_client;
pub mod manager;
pub mod subscription;
pub mod profiles;
pub mod i18n;
pub mod mihomo_api;
pub mod clash_api;
pub mod paths;
pub mod config;
pub mod history;
pub mod home;
pub mod order;
pub mod proxies;
pub mod sysproxy;
pub mod calendar;
pub mod runtime_config;
pub mod service_setup;
pub mod service_install;
pub mod layout;
pub mod tray;
pub mod theming;
pub mod assets;
pub mod logs;
pub mod connections;
pub mod process;
pub mod rules;
