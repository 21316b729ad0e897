use vstd::prelude::*;

verus! {

/// Register index
pub type Reg = u8;

/// Address of a function
pub type Addr = u64;

/// Index of a local variable slot
pub type Local = u16;

} // verus!
