//! An RPC router runtime: typed request handlers (queries, mutations,
//! subscriptions) are registered under string keys, wrapped in composable
//! middleware, and dispatched by key, while a schema registry tracks a
//! machine-readable description of every procedure's argument and result
//! shape for client-binding generation.

pub mod errors;
pub mod middleware;
pub mod naming;
pub mod registry;
pub mod rename;
pub mod resolver;
pub mod router;
pub mod schema;
pub mod store;
pub mod typescript;
pub mod value;
