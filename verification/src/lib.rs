//! A small assembly language: its syntax tree, its bytecode compiler and the
//! stack machine that loads and runs the compiled modules.

/// Syntax tree of the assembly.
pub mod assembly;

/// The bytecode-interpreting stack virtual machine itself.
pub mod vm;

/// Compiles assembly to bytecode.
pub mod asm_compiler;

/// Parses textual code into an assembly tree.
pub mod asm_parser;
