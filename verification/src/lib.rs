pub mod text;
pub mod systemd;
pub mod dashboard;
pub mod laws;
pub mod behaviour;
