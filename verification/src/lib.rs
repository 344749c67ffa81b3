//! The logic of a panel applet that watches a list of sites over HTTPS.

pub mod app;
pub mod app_laws;
pub mod config;
pub mod domain;
pub mod laws;
pub mod message;
pub mod site_url;
pub mod text;
pub mod text_laws;
pub mod view;
pub mod watch;
