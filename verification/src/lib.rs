use vstd::prelude::*;

pub mod buffer;
pub mod data_frame;
pub mod directory;
pub mod endian;
pub mod error;
pub mod frame_laws;
pub mod frame_reader;
pub mod http_handler;
pub mod http_types;
pub mod model;
pub mod node;
pub mod outside;
pub mod registry;
pub mod service_config;
pub mod session;
pub mod text;
pub mod transport;

verus! {

} // verus!
