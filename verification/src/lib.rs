//! A small HTTP reverse proxy: per-host routing tables read from a JSON
//! configuration, the decisions a proxying handler takes for each request,
//! the canned replies it answers with, and the PEM handling that feeds its
//! TLS setup.
pub mod strmap;
pub mod config;
pub mod reply;
pub mod routing;
pub mod pem;
pub mod laws;
