//! Decoders for two binary artifacts of the Brawl modding ecosystem:
//! WiiRD/Gecko code lists (flat 8-byte opcode streams reassembled into a
//! nested block tree) and PSA action scripts (event streams with typed,
//! bit-packed arguments).  All decoding is bounds-checked: malformed input
//! yields a partial tree, never a panic.

pub mod brawl_mod;
pub mod reader;
pub mod script;
pub mod wiird;
