//! Pluggable generation of out-of-vocabulary lattice nodes.

pub mod category;
pub mod config;
pub mod error;
pub mod input_text;
pub mod json;
pub mod mecab_oov;
pub mod node;
pub mod oov;
pub mod settings;
pub mod simple_oov;
