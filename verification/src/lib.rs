//! Routing and path-resolution core for a multi-tenant static-content
//! server.
//!
//! The server maps each "project" (a subdirectory of a web root) to its own
//! listener, and runs one catch-all listener whose requests are routed to a
//! project by their first path segment. This crate holds the decision logic:
//! the project registry, the catch-all router, the path resolver that guards
//! against directory traversal, and the port-assignment rules. The HTTP
//! transport, configuration loading and file I/O live outside the crate and
//! exchange plain values with it.

pub mod paths;
pub mod ports;
pub mod registry;
pub mod resolve;
pub mod router;
pub mod server;
