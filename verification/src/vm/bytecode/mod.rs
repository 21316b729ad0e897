/// The actual bytecode operations and their encoding/decoding logic.
pub mod ops;

/// The various types of data in the bytecode (register indexes, local variable indexes, etc.).
pub mod types;

/// Fixed-width integers in the byte order of the host.
pub mod util;
