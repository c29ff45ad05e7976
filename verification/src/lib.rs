//! Configuration graph, value model and runtime bookkeeping of a
//! deterministic dataflow runtime for robotics.

pub mod clock;
pub mod cnx;
pub mod component_config;
pub mod config;
pub mod display;
pub mod error;
pub mod graph;
pub mod livox;
pub mod logging;
pub mod monitor;
pub mod node;
pub mod order;
pub mod outside;
pub mod pool;
pub mod render;
pub mod representation;
pub mod schedule;
pub mod stream;
pub mod text;
pub mod validate;
pub mod value;
