//! The decision logic of a core node's node services.
pub mod text;
pub mod add;
pub mod add_batch;
pub mod cache;
pub mod common;
pub mod digest;
pub mod env;
pub mod archive;
pub mod binding;
pub mod builder;
pub mod bundle_cache;
pub mod endpoints;
pub mod gate;
pub mod git_cache;
pub mod git_utils;
pub mod health_monitor;
pub mod incarnation;
pub mod info;
pub mod init;
pub mod logging;
pub mod goals;
pub mod node_build;
pub mod mounts;
pub mod observation;
pub mod order;
pub mod pairing;
pub mod paths;
pub mod pins;
pub mod relationship_notify;
pub mod remove;
pub mod run;
pub mod sets;
pub mod start;
pub mod stop;
pub mod sync;
pub mod time;
