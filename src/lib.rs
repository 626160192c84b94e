//! Omni containers and their scripts.
//!
//! A container is a RIFF variant read in fixed-size buffers: `decode` reads
//! its chunk tree and objects, `lower` maps each object to blocks of the
//! script model in `text`, `order` places those blocks by object identifier,
//! and `render` writes the script. In the other direction, `preprocessor`
//! expands macros and strips comments, and `parser` reads the blocks back.
//! `laws` proves properties that span these steps.
pub mod wire;
pub mod chunk;
pub mod object;
pub mod decode;
pub mod omni;
pub mod text;
pub mod lower;
pub mod order;
pub mod render;
pub mod preprocessor;
pub mod parser;
pub mod tree;
pub mod laws;
