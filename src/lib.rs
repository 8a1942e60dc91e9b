//! A small HTTP service with graceful shutdown: one static page, a watcher that
//! turns the first of two operator signals into a single shutdown event, and a
//! server that stops admitting connections on that event and lets the ones already
//! admitted finish before the serve loop returns.

pub mod config;
pub mod response;
pub mod server;
pub mod shutdown;
