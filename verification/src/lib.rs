//! Small verified building blocks: string tokenizing, linked nodes, byte
//! sinks, number parsing, a guessing game's decisions, and the logic of an
//! image thumbnail service (specification framing, operation planning,
//! URL encoding and an LRU image cache).
pub mod cache;
pub mod developer;
pub mod engine;
pub mod guess;
pub mod node;
pub mod numbers;
pub mod pb;
pub mod str_parser;
pub mod text;
pub mod url;
pub mod writer;
