//! A small text-editor toolkit: command-line configuration, gzip coding of
//! saved buffers, and the bookkeeping rules of the editor's note files.

pub mod cfg;
pub mod cfg_laws;
pub mod encoder;
pub mod gbuffer;
pub mod text;
pub mod utils;
