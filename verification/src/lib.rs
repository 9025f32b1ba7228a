//! Decoding of Dalvik bytecode, method by method, and the control-flow graph of
//! basic blocks of each method, with a structural summary of every block.
//!
//! The instructions of a method are a buffer of sixteen-bit words.
//! [`opcode`] is the catalog of the instruction set, [`instruction`] decodes
//! one instruction at an offset, [`builder`] finds the basic blocks of a
//! method and the edges between them, and [`features`] summarizes a block.
//! [`flow`] and [`model`] say, over the words alone, which graph is the graph
//! of a method; [`graph`] and [`block`] hold it.
//!
//! [`sequence`] gathers the opcodes and the graphs of all methods of the
//! classes of a file, which [`dex_source`] reads from the parsed file, and
//! [`manifest`] lists the permissions an application asks for.

pub mod block;
pub mod builder;
pub mod dex_source;
pub mod error;
pub mod features;
pub mod flow;
pub mod graph;
pub mod instruction;
pub mod intermediate;
pub mod manifest;
pub mod model;
pub mod opcode;
pub mod reference;
pub mod sequence;
pub mod switch;
pub mod words;
