//! Compiles a grammar rule set into a registry of syntax-tree node
//! definitions, and implements the matching procedure each node stands for:
//! recursive descent with backtracking, ordered choice, greedy repetition,
//! lookahead, and a shared backreference stack.

pub mod ast;
pub mod compile;
pub mod facade;
pub mod laws;
pub mod interp;
pub mod matcher;
pub mod registry;
pub mod text;
