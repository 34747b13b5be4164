pub mod home;
pub mod plugin;
pub mod system;
pub mod wine;
pub mod yabridge;
