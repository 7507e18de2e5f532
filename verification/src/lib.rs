//! The core of a durable-object runtime.
//!
//! A script defines stateful classes; the runtime serves them over HTTP and
//! keeps each object's data in a transactional key-value store. This
//! library holds the rules of that runtime, each with its contract:
//!
//! - `keys`: the layout of the composite keys and the shape of their parts;
//! - `table`, `store`: the volatile object store and its transactions;
//! - `bridge`: the four storage operations that guest code may call;
//! - `script`: the wrapper that captures an error thrown by a script;
//! - `engine`: the life of one script engine instance;
//! - `server`: server state, route derivation, resolution and reload;
//! - `dispatch`: the response for each outcome of a request;
//! - `watch`: which change notifications call for a reload.
//!
//! Running scripts, listening on sockets, watching files and durable
//! storage are left to the program around the library.

pub mod bridge;
pub mod dispatch;
pub mod engine;
pub mod keys;
pub mod script;
pub mod server;
pub mod store;
pub mod table;
pub mod watch;
