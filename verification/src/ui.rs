pub mod config;
pub mod diagnostics;
pub mod plugins;
pub mod setup;
pub mod sidebar;
pub mod worker;
