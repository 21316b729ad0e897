/// What the parsers read, over the bytes of the input.
pub mod grammar;

/// The parsers of the statements and of what they are made of.
pub mod parser;

/// The steps that the parsers are made of.
pub mod util;
