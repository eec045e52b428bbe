//! Session, profile and connection logic of a terminal front end for
//! `openfortivpn`.
pub mod text;
pub mod config;
pub mod state;
pub mod profile_form;
pub mod netstats;
pub mod vpn;
pub mod actions;
pub mod runtime;
pub mod display;
pub mod laws;
