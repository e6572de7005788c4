//! Core logic of a Prometheus exporter for Plex Media Server.
pub mod metrics;
pub mod plex;
pub mod text;
