//! A verified gateway core for serving authorized, filtered views of shared
//! relational data over two equivalent paths: a streaming proxy to an upstream
//! change-data-capture origin, and a buffered REST fallback over a row store.

pub mod authz;
pub mod containers;
pub mod fallback;
pub mod gateway;
pub mod ids;
pub mod proxy;
pub mod routes;
pub mod scope;
pub mod shape;
pub mod store;
pub mod text;
