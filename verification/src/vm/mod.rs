/// The instruction set and its binary form.
pub mod bytecode;

/// Runs the code of a machine.
pub mod interpreter;

/// What holds of every loaded module.
pub mod laws;

/// The machine, its symbols and the loading of modules.
pub mod machine;

/// What loading and running compute, over the views of the machine.
pub mod model;

pub use self::machine::{Machine, ModuleLoad};
