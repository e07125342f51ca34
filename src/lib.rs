//! Request-processing core of a reverse proxy: header directives, the
//! request context, the plugin pipeline and a weighted response cache.

pub mod text;
pub mod state;
pub mod header;
pub mod cache;
pub mod plugin;
pub mod otel;
