//! A side-route daemon's logic for OpenWrt: configuration, side router
//! discovery, policy routing and nftables plans, and the fail-over decisions.
pub mod config;
pub mod daemon;
pub mod health;
pub mod nftables;
pub mod routing;
pub mod status;
pub mod text;
