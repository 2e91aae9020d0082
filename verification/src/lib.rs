//! A compiler for a small language that describes finite state machines.
//!
//! Source text is split into tokens, the tokens are parsed into a syntax tree,
//! the tree is resolved into a graph whose transitions point at states by
//! index, and the graph is rendered twice: as a DOT digraph and as a C program
//! that walks the machine interactively. Every stage carries a contract over
//! a mathematical model of its input and output.

pub mod text;
pub mod ast;
pub mod token;
pub mod parser;
pub mod graph;
pub mod lines;
pub mod codegen_dot;
pub mod codegen_c;
pub mod compiler;
