use super::types::{Addr, Local};
use super::util::{
    host_bytes, host_value, lemma_int_bytes_of_value, lemma_int_value_of_bytes,
    lemma_radix_pow_values, Cursor, NativeEndianReadExt, NativeEndianWriteExt, ReadTypesExt,
    WriteTypesExt,
};
use vstd::endian::endianness;
use vstd::prelude::*;

verus! {

/// Defines interface for reading and writing the operands of an op
/// (instruction) to/from bytecode. Every op with operands implements this
/// trait so that the VM can decode its instruction sequence into well-known
/// op structures.
pub trait BinarySerializable: Sized {
    /// How many bytes the operands take.
    spec fn width() -> nat;

    /// The operands as bytes, in the host's order.
    spec fn layout(&self) -> Seq<u8>;

    /// The operands that `bytes` hold, for `bytes` of the right width.
    spec fn parsed(bytes: Seq<u8>) -> Self;

    /// Reads the operands at the cursor and moves it past them.
    fn from_binary(input: &mut Cursor) -> (operands: Self)
        requires
            old(input).spec_position() + Self::width() <= old(input).bytes().len(),
        ensures
            operands == Self::parsed(
                old(input).bytes().subrange(
                    old(input).spec_position() as int,
                    old(input).spec_position() + Self::width(),
                ),
            ),
            final(input).bytes() == old(input).bytes(),
            final(input).spec_position() == old(input).spec_position() + Self::width(),
    ;

    fn to_binary(&self) -> (bytes: Vec<u8>)
        ensures
            bytes@ == self.layout(),
    ;
}

pub trait IntoOpConvertable: Sized {
    /// The op that holds these operands.
    spec fn as_op(self) -> BOp;

    fn into_op(self) -> (op: BOp)
        ensures
            op == self.as_op(),
    ;
}

/// Why bytes could not be read as an op.
#[derive(Clone, Copy, Debug, PartialEq, Eq, Structural)]
pub enum DecodeError {
    /// The first byte is no opcode.
    UnknownOpcode(u8),
    /// The bytes end before the op does.
    UnexpectedEnd,
}

#[derive(Clone, Copy, Debug, PartialEq, Eq, Structural)]
pub enum BOp {
    FnEntry(BFnEntry),
    GetLocal(BGetLocal),
    SetLocal(BSetLocal),
    Call(BCall),
    Invoke(BInvoke),
    PushAddress(BPushAddress),
    BranchIf(BBranchIf),
    BranchIfNot(BBranchIfNot),
    LoadConst(BLoadConst),
    Return,
    Pop,
    Noop,
}

/// Call a function at a specific address in the virtual machine.
#[derive(Clone, Copy, Debug, PartialEq, Eq, Structural)]
pub struct BCall {
    /// Address of the function to be called
    pub addr: Addr,
    /// Number of arguments that have been pushed to the stack.
    pub num_args: u8,
}

impl BinarySerializable for BCall {
    open spec fn width() -> nat {
        9
    }

    open spec fn layout(&self) -> Seq<u8> {
        host_bytes(self.addr as nat, 8) + seq![self.num_args]
    }

    open spec fn parsed(bytes: Seq<u8>) -> Self {
        BCall { addr: host_value(bytes.subrange(0, 8)) as u64, num_args: bytes[8] }
    }

    fn from_binary(input: &mut Cursor) -> (operands: BCall) {
        let ghost at = input.spec_position() as int;
        let ghost all = input.bytes();
        let addr: Addr = input.read_addr();
        let num_args: u8 = input.read_hu8();
        assert(all.subrange(at, at + 9).subrange(0, 8) =~= all.subrange(at, at + 8));
        BCall { addr, num_args }
    }

    fn to_binary(&self) -> (bytes: Vec<u8>) {
        let mut bytes: Vec<u8> = Vec::new();
        bytes.write_addr(self.addr);
        bytes.write_hu8(self.num_args);
        assert(bytes@ =~= self.layout());
        bytes
    }
}

impl IntoOpConvertable for BCall {
    open spec fn as_op(self) -> BOp {
        BOp::Call(self)
    }

    fn into_op(self) -> (op: BOp) {
        BOp::Call(self)
    }
}

/// Consume an address off the stack and call the function at that address.
#[derive(Clone, Copy, Debug, PartialEq, Eq, Structural)]
pub struct BInvoke {
    /// Number of arguments that have been pushed to the stack.
    pub num_args: u8,
}

impl BinarySerializable for BInvoke {
    open spec fn width() -> nat {
        1
    }

    open spec fn layout(&self) -> Seq<u8> {
        seq![self.num_args]
    }

    open spec fn parsed(bytes: Seq<u8>) -> Self {
        BInvoke { num_args: bytes[0] }
    }

    fn from_binary(input: &mut Cursor) -> (operands: BInvoke) {
        let ghost at = input.spec_position() as int;
        let ghost all = input.bytes();
        let num_args: u8 = input.read_hu8();
        assert(all.subrange(at, at + 1).subrange(0, 1) =~= all.subrange(at, at + 1));
        BInvoke { num_args }
    }

    fn to_binary(&self) -> (bytes: Vec<u8>) {
        let mut bytes: Vec<u8> = Vec::new();
        bytes.write_hu8(self.num_args);
        assert(bytes@ =~= self.layout());
        bytes
    }
}

impl IntoOpConvertable for BInvoke {
    open spec fn as_op(self) -> BOp {
        BOp::Invoke(self)
    }

    fn into_op(self) -> (op: BOp) {
        BOp::Invoke(self)
    }
}

/// Call a native function.
#[derive(Clone, Copy, Debug, PartialEq, Eq, Structural)]
pub struct BCallNative {
    /// Internal identifier of the function
    pub id: u32,
    /// Number of arguments that have been pushed to the stack.
    pub num_args: u8,
}

impl BinarySerializable for BCallNative {
    open spec fn width() -> nat {
        5
    }

    open spec fn layout(&self) -> Seq<u8> {
        host_bytes(self.id as nat, 4) + seq![self.num_args]
    }

    open spec fn parsed(bytes: Seq<u8>) -> Self {
        BCallNative { id: host_value(bytes.subrange(0, 4)) as u32, num_args: bytes[4] }
    }

    fn from_binary(input: &mut Cursor) -> (operands: BCallNative) {
        let ghost at = input.spec_position() as int;
        let ghost all = input.bytes();
        let id: u32 = input.read_hu32();
        let num_args: u8 = input.read_hu8();
        assert(all.subrange(at, at + 5).subrange(0, 4) =~= all.subrange(at, at + 4));
        BCallNative { id, num_args }
    }

    fn to_binary(&self) -> (bytes: Vec<u8>) {
        let mut bytes: Vec<u8> = Vec::new();
        bytes.write_hu32(self.id);
        bytes.write_hu8(self.num_args);
        assert(bytes@ =~= self.layout());
        bytes
    }
}

/// Set the value of a local variable to the value on top of the stack.
#[derive(Clone, Copy, Debug, PartialEq, Eq, Structural)]
pub struct BSetLocal {
    /// Index of the slot
    pub idx: Local,
}

impl BinarySerializable for BSetLocal {
    open spec fn width() -> nat {
        2
    }

    open spec fn layout(&self) -> Seq<u8> {
        host_bytes(self.idx as nat, 2)
    }

    open spec fn parsed(bytes: Seq<u8>) -> Self {
        BSetLocal { idx: host_value(bytes.subrange(0, 2)) as u16 }
    }

    fn from_binary(input: &mut Cursor) -> (operands: BSetLocal) {
        let ghost at = input.spec_position() as int;
        let ghost all = input.bytes();
        let idx: Local = input.read_local();
        assert(all.subrange(at, at + 2).subrange(0, 2) =~= all.subrange(at, at + 2));
        BSetLocal { idx }
    }

    fn to_binary(&self) -> (bytes: Vec<u8>) {
        let mut bytes: Vec<u8> = Vec::new();
        bytes.write_local(self.idx);
        assert(bytes@ =~= self.layout());
        bytes
    }
}

impl IntoOpConvertable for BSetLocal {
    open spec fn as_op(self) -> BOp {
        BOp::SetLocal(self)
    }

    fn into_op(self) -> (op: BOp) {
        BOp::SetLocal(self)
    }
}

/// Get the value of a local variable.
#[derive(Clone, Copy, Debug, PartialEq, Eq, Structural)]
pub struct BGetLocal {
    /// Index of the slot
    pub idx: Local,
}

impl BinarySerializable for BGetLocal {
    open spec fn width() -> nat {
        2
    }

    open spec fn layout(&self) -> Seq<u8> {
        host_bytes(self.idx as nat, 2)
    }

    open spec fn parsed(bytes: Seq<u8>) -> Self {
        BGetLocal { idx: host_value(bytes.subrange(0, 2)) as u16 }
    }

    fn from_binary(input: &mut Cursor) -> (operands: BGetLocal) {
        let ghost at = input.spec_position() as int;
        let ghost all = input.bytes();
        let idx: Local = input.read_local();
        assert(all.subrange(at, at + 2).subrange(0, 2) =~= all.subrange(at, at + 2));
        BGetLocal { idx }
    }

    fn to_binary(&self) -> (bytes: Vec<u8>) {
        let mut bytes: Vec<u8> = Vec::new();
        bytes.write_local(self.idx);
        assert(bytes@ =~= self.layout());
        bytes
    }
}

impl IntoOpConvertable for BGetLocal {
    open spec fn as_op(self) -> BOp {
        BOp::GetLocal(self)
    }

    fn into_op(self) -> (op: BOp) {
        BOp::GetLocal(self)
    }
}

/// Get an argument from the stack frame of the current function.
#[derive(Clone, Copy, Debug, PartialEq, Eq, Structural)]
pub struct BGetArg {
    /// Index of the argument, pass 255 to get the total number of arguments passed
    pub idx: u8,
}

impl BinarySerializable for BGetArg {
    open spec fn width() -> nat {
        1
    }

    open spec fn layout(&self) -> Seq<u8> {
        seq![self.idx]
    }

    open spec fn parsed(bytes: Seq<u8>) -> Self {
        BGetArg { idx: bytes[0] }
    }

    fn from_binary(input: &mut Cursor) -> (operands: BGetArg) {
        let ghost at = input.spec_position() as int;
        let ghost all = input.bytes();
        let idx: u8 = input.read_hu8();
        assert(all.subrange(at, at + 1).subrange(0, 1) =~= all.subrange(at, at + 1));
        BGetArg { idx }
    }

    fn to_binary(&self) -> (bytes: Vec<u8>) {
        let mut bytes: Vec<u8> = Vec::new();
        bytes.write_hu8(self.idx);
        assert(bytes@ =~= self.layout());
        bytes
    }
}

/// No-op entry to a function that sets up the local slots for the function. Must always be first
/// op in a function.
#[derive(Clone, Copy, Debug, PartialEq, Eq, Structural)]
pub struct BFnEntry {
    /// Defines the number of local slots
    pub num_locals: u16,
}

impl BinarySerializable for BFnEntry {
    open spec fn width() -> nat {
        2
    }

    open spec fn layout(&self) -> Seq<u8> {
        host_bytes(self.num_locals as nat, 2)
    }

    open spec fn parsed(bytes: Seq<u8>) -> Self {
        BFnEntry { num_locals: host_value(bytes.subrange(0, 2)) as u16 }
    }

    fn from_binary(input: &mut Cursor) -> (operands: BFnEntry) {
        let ghost at = input.spec_position() as int;
        let ghost all = input.bytes();
        let num_locals: u16 = input.read_hu16();
        assert(all.subrange(at, at + 2).subrange(0, 2) =~= all.subrange(at, at + 2));
        BFnEntry { num_locals }
    }

    fn to_binary(&self) -> (bytes: Vec<u8>) {
        let mut bytes: Vec<u8> = Vec::new();
        bytes.write_hu16(self.num_locals);
        assert(bytes@ =~= self.layout());
        bytes
    }
}

impl IntoOpConvertable for BFnEntry {
    open spec fn as_op(self) -> BOp {
        BOp::FnEntry(self)
    }

    fn into_op(self) -> (op: BOp) {
        BOp::FnEntry(self)
    }
}

/// Push the address of a function, boxed, onto the stack.
#[derive(Clone, Copy, Debug, PartialEq, Eq, Structural)]
pub struct BPushAddress {
    /// Address to be boxed
    pub addr: Addr,
}

impl BinarySerializable for BPushAddress {
    open spec fn width() -> nat {
        8
    }

    open spec fn layout(&self) -> Seq<u8> {
        host_bytes(self.addr as nat, 8)
    }

    open spec fn parsed(bytes: Seq<u8>) -> Self {
        BPushAddress { addr: host_value(bytes.subrange(0, 8)) as u64 }
    }

    fn from_binary(input: &mut Cursor) -> (operands: BPushAddress) {
        let ghost at = input.spec_position() as int;
        let ghost all = input.bytes();
        let addr: Addr = input.read_addr();
        assert(all.subrange(at, at + 8).subrange(0, 8) =~= all.subrange(at, at + 8));
        BPushAddress { addr }
    }

    fn to_binary(&self) -> (bytes: Vec<u8>) {
        let mut bytes: Vec<u8> = Vec::new();
        bytes.write_addr(self.addr);
        assert(bytes@ =~= self.layout());
        bytes
    }
}

impl IntoOpConvertable for BPushAddress {
    open spec fn as_op(self) -> BOp {
        BOp::PushAddress(self)
    }

    fn into_op(self) -> (op: BOp) {
        BOp::PushAddress(self)
    }
}

/// Take the top of the stack and jump when it is null.
#[derive(Clone, Copy, Debug, PartialEq, Eq, Structural)]
pub struct BBranchIf {
    /// Where to jump
    pub dest: Addr,
}

impl BinarySerializable for BBranchIf {
    open spec fn width() -> nat {
        8
    }

    open spec fn layout(&self) -> Seq<u8> {
        host_bytes(self.dest as nat, 8)
    }

    open spec fn parsed(bytes: Seq<u8>) -> Self {
        BBranchIf { dest: host_value(bytes.subrange(0, 8)) as u64 }
    }

    fn from_binary(input: &mut Cursor) -> (operands: BBranchIf) {
        let ghost at = input.spec_position() as int;
        let ghost all = input.bytes();
        let dest: Addr = input.read_addr();
        assert(all.subrange(at, at + 8).subrange(0, 8) =~= all.subrange(at, at + 8));
        BBranchIf { dest }
    }

    fn to_binary(&self) -> (bytes: Vec<u8>) {
        let mut bytes: Vec<u8> = Vec::new();
        bytes.write_addr(self.dest);
        assert(bytes@ =~= self.layout());
        bytes
    }
}

impl IntoOpConvertable for BBranchIf {
    open spec fn as_op(self) -> BOp {
        BOp::BranchIf(self)
    }

    fn into_op(self) -> (op: BOp) {
        BOp::BranchIf(self)
    }
}

/// Take the top of the stack and jump when it is not null.
#[derive(Clone, Copy, Debug, PartialEq, Eq, Structural)]
pub struct BBranchIfNot {
    /// Where to jump
    pub dest: Addr,
}

impl BinarySerializable for BBranchIfNot {
    open spec fn width() -> nat {
        8
    }

    open spec fn layout(&self) -> Seq<u8> {
        host_bytes(self.dest as nat, 8)
    }

    open spec fn parsed(bytes: Seq<u8>) -> Self {
        BBranchIfNot { dest: host_value(bytes.subrange(0, 8)) as u64 }
    }

    fn from_binary(input: &mut Cursor) -> (operands: BBranchIfNot) {
        let ghost at = input.spec_position() as int;
        let ghost all = input.bytes();
        let dest: Addr = input.read_addr();
        assert(all.subrange(at, at + 8).subrange(0, 8) =~= all.subrange(at, at + 8));
        BBranchIfNot { dest }
    }

    fn to_binary(&self) -> (bytes: Vec<u8>) {
        let mut bytes: Vec<u8> = Vec::new();
        bytes.write_addr(self.dest);
        assert(bytes@ =~= self.layout());
        bytes
    }
}

impl IntoOpConvertable for BBranchIfNot {
    open spec fn as_op(self) -> BOp {
        BOp::BranchIfNot(self)
    }

    fn into_op(self) -> (op: BOp) {
        BOp::BranchIfNot(self)
    }
}

/// Push the pointer of a constant.
#[derive(Clone, Copy, Debug, PartialEq, Eq, Structural)]
pub struct BLoadConst {
    /// The constant's pointer, put there when the module is loaded
    pub id: Addr,
}

impl BinarySerializable for BLoadConst {
    open spec fn width() -> nat {
        8
    }

    open spec fn layout(&self) -> Seq<u8> {
        host_bytes(self.id as nat, 8)
    }

    open spec fn parsed(bytes: Seq<u8>) -> Self {
        BLoadConst { id: host_value(bytes.subrange(0, 8)) as u64 }
    }

    fn from_binary(input: &mut Cursor) -> (operands: BLoadConst) {
        let ghost at = input.spec_position() as int;
        let ghost all = input.bytes();
        let id: Addr = input.read_addr();
        assert(all.subrange(at, at + 8).subrange(0, 8) =~= all.subrange(at, at + 8));
        BLoadConst { id }
    }

    fn to_binary(&self) -> (bytes: Vec<u8>) {
        let mut bytes: Vec<u8> = Vec::new();
        bytes.write_addr(self.id);
        assert(bytes@ =~= self.layout());
        bytes
    }
}

impl IntoOpConvertable for BLoadConst {
    open spec fn as_op(self) -> BOp {
        BOp::LoadConst(self)
    }

    fn into_op(self) -> (op: BOp) {
        BOp::LoadConst(self)
    }
}


/// The op sequence as bytes: the encodings of the ops, one after the other.
pub open spec fn encoding_of_ops(ops: Seq<BOp>) -> Seq<u8>
    decreases ops.len(),
{
    if ops.len() == 0 {
        Seq::empty()
    } else {
        encoding_of_ops(ops.drop_last()) + ops.last().encoding()
    }
}

impl BOp {
    /// The byte that an encoded op starts with.
    pub open spec fn spec_opcode(&self) -> u8 {
        match self {
            BOp::FnEntry(_) => 0,
            BOp::GetLocal(_) => 1,
            BOp::SetLocal(_) => 2,
            BOp::Call(_) => 3,
            BOp::Invoke(_) => 4,
            BOp::Return => 5,
            BOp::PushAddress(_) => 6,
            BOp::BranchIf(_) => 7,
            BOp::BranchIfNot(_) => 8,
            BOp::Pop => 9,
            BOp::Noop => 10,
            BOp::LoadConst(_) => 11,
        }
    }

    /// The bytes that follow the opcode.
    pub open spec fn operands(&self) -> Seq<u8> {
        match self {
            BOp::FnEntry(e) => host_bytes(e.num_locals as nat, 2),
            BOp::GetLocal(g) => host_bytes(g.idx as nat, 2),
            BOp::SetLocal(s) => host_bytes(s.idx as nat, 2),
            BOp::Call(c) => host_bytes(c.addr as nat, 8) + seq![c.num_args],
            BOp::Invoke(i) => seq![i.num_args],
            BOp::PushAddress(a) => host_bytes(a.addr as nat, 8),
            BOp::BranchIf(b) => host_bytes(b.dest as nat, 8),
            BOp::BranchIfNot(b) => host_bytes(b.dest as nat, 8),
            BOp::LoadConst(l) => host_bytes(l.id as nat, 8),
            BOp::Return => Seq::empty(),
            BOp::Pop => Seq::empty(),
            BOp::Noop => Seq::empty(),
        }
    }

    /// The op as bytes: the opcode, then the operands at their natural widths
    /// in the host's order.
    pub open spec fn encoding(&self) -> Seq<u8> {
        seq![self.spec_opcode()] + self.operands()
    }

    /// Whether `opcode` stands for an op.
    pub open spec fn known_opcode(opcode: u8) -> bool {
        opcode <= 11
    }

    /// How many bytes of operands follow `opcode`.
    pub open spec fn operand_width(opcode: u8) -> int {
        if opcode == 0 || opcode == 1 || opcode == 2 {
            2
        } else if opcode == 3 {
            9
        } else if opcode == 4 {
            1
        } else if opcode == 6 || opcode == 7 || opcode == 8 || opcode == 11 {
            8
        } else {
            0
        }
    }

    /// How many bytes the encoded op takes.
    pub open spec fn spec_size(&self) -> int {
        1 + Self::operand_width(self.spec_opcode())
    }

    /// The op with opcode `opcode` whose operands are the bytes `operands`.
    pub open spec fn with_operands(opcode: u8, operands: Seq<u8>) -> BOp {
        if opcode == 0 {
            BOp::FnEntry(BFnEntry { num_locals: host_value(operands) as u16 })
        } else if opcode == 1 {
            BOp::GetLocal(BGetLocal { idx: host_value(operands) as u16 })
        } else if opcode == 2 {
            BOp::SetLocal(BSetLocal { idx: host_value(operands) as u16 })
        } else if opcode == 3 {
            BOp::Call(
                BCall { addr: host_value(operands.take(8)) as u64, num_args: operands[8] },
            )
        } else if opcode == 4 {
            BOp::Invoke(BInvoke { num_args: operands[0] })
        } else if opcode == 5 {
            BOp::Return
        } else if opcode == 6 {
            BOp::PushAddress(BPushAddress { addr: host_value(operands) as u64 })
        } else if opcode == 7 {
            BOp::BranchIf(BBranchIf { dest: host_value(operands) as u64 })
        } else if opcode == 8 {
            BOp::BranchIfNot(BBranchIfNot { dest: host_value(operands) as u64 })
        } else if opcode == 9 {
            BOp::Pop
        } else if opcode == 11 {
            BOp::LoadConst(BLoadConst { id: host_value(operands) as u64 })
        } else {
            BOp::Noop
        }
    }

    /// The op that `bytes` start with: an error when they are empty, start with
    /// no opcode or end before the operands do.
    pub open spec fn decoding(bytes: Seq<u8>) -> Result<BOp, DecodeError> {
        if bytes.len() == 0 {
            Err(DecodeError::UnexpectedEnd)
        } else if !Self::known_opcode(bytes[0]) {
            Err(DecodeError::UnknownOpcode(bytes[0]))
        } else if bytes.len() < 1 + Self::operand_width(bytes[0]) {
            Err(DecodeError::UnexpectedEnd)
        } else {
            Ok(Self::with_operands(bytes[0], bytes.subrange(1, 1 + Self::operand_width(bytes[0]))))
        }
    }

    /// How many address-typed operands the op has.
    pub open spec fn addr_fields(&self) -> nat {
        match self {
            BOp::Call(_) => 1,
            BOp::PushAddress(_) => 1,
            BOp::BranchIf(_) => 1,
            BOp::BranchIfNot(_) => 1,
            BOp::LoadConst(_) => 1,
            _ => 0,
        }
    }

    pub fn to_binary(self) -> (bytes: Vec<u8>)
        ensures
            bytes@ == self.encoding(),
    {
        let mut bytes: Vec<u8> = Vec::new();
        bytes.push(self.opcode());
        let mut operands: Vec<u8> = match self {
            BOp::FnEntry(e) => e.to_binary(),
            BOp::GetLocal(g) => g.to_binary(),
            BOp::SetLocal(s) => s.to_binary(),
            BOp::Call(c) => c.to_binary(),
            BOp::Invoke(i) => i.to_binary(),
            BOp::PushAddress(a) => a.to_binary(),
            BOp::BranchIf(b) => b.to_binary(),
            BOp::BranchIfNot(b) => b.to_binary(),
            BOp::LoadConst(l) => l.to_binary(),
            BOp::Return => Vec::new(),
            BOp::Pop => Vec::new(),
            BOp::Noop => Vec::new(),
        };
        bytes.append(&mut operands);
        assert(bytes@ =~= self.encoding());
        bytes
    }

    /// Take a vector of ops and convert them to a binary op sequence.
    pub fn compile_ops(ops: Vec<BOp>) -> (bytes: Vec<u8>)
        ensures
            bytes@ == encoding_of_ops(ops@),
    {
        let mut bytes: Vec<u8> = Vec::new();
        let mut i: usize = 0;
        while i < ops.len()
            invariant
                i <= ops.len(),
                bytes@ == encoding_of_ops(ops@.take(i as int)),
            decreases ops.len() - i,
        {
            let mut encoded: Vec<u8> = ops[i].to_binary();
            bytes.append(&mut encoded);
            proof {
                assert(ops@.take(i + 1).drop_last() =~= ops@.take(i as int));
            }
            i = i + 1;
        }
        assert(ops@.take(ops.len() as int) =~= ops@);
        bytes
    }

    #[verifier::when_used_as_spec(spec_opcode)]
    pub fn opcode(&self) -> (opcode: u8)
        ensures
            opcode == self.spec_opcode(),
    {
        match self {
            BOp::FnEntry(_) => 0,
            BOp::GetLocal(_) => 1,
            BOp::SetLocal(_) => 2,
            BOp::Call(_) => 3,
            BOp::Invoke(_) => 4,
            BOp::Return => 5,
            BOp::PushAddress(_) => 6,
            BOp::BranchIf(_) => 7,
            BOp::BranchIfNot(_) => 8,
            BOp::Pop => 9,
            BOp::Noop => 10,
            BOp::LoadConst(_) => 11,
        }
    }

    /// How many bytes the encoded op takes.
    pub fn size(&self) -> (size: usize)
        ensures
            size == self.spec_size(),
            size == self.encoding().len(),
            1 <= size <= 10,
    {
        proof {
            lemma_encoding_len(*self);
        }
        match self {
            BOp::FnEntry(_) => 3,
            BOp::GetLocal(_) => 3,
            BOp::SetLocal(_) => 3,
            BOp::Call(_) => 10,
            BOp::Invoke(_) => 2,
            BOp::Return => 1,
            BOp::PushAddress(_) => 9,
            BOp::BranchIf(_) => 9,
            BOp::BranchIfNot(_) => 9,
            BOp::Pop => 1,
            BOp::Noop => 1,
            BOp::LoadConst(_) => 9,
        }
    }

    /// Reads the op at the cursor and moves the cursor past it. Where no op
    /// can be read the cursor stays where it was.
    pub fn from_binary(input: &mut Cursor) -> (result: Result<BOp, DecodeError>)
        ensures
            result == Self::decoding(old(input).unread()),
            final(input).bytes() == old(input).bytes(),
            result matches Ok(op) ==> final(input).spec_position() == old(input).spec_position()
                + op.spec_size(),
            result is Err ==> final(input).spec_position() == old(input).spec_position(),
    {
        let ghost unread = input.unread();
        let ghost start = input.spec_position() as int;
        let left: usize = input.remaining();
        if left == 0 {
            return Err(DecodeError::UnexpectedEnd);
        }
        let begin: u64 = input.position();
        let opcode: u8 = input.read_hu8();
        assert(opcode == unread[0]);
        let width: usize = if opcode <= 2 {
            2
        } else if opcode == 3 {
            9
        } else if opcode == 4 {
            1
        } else if opcode == 6 || opcode == 7 || opcode == 8 || opcode == 11 {
            8
        } else {
            0
        };
        if opcode > 11 {
            input.set_position(begin);
            return Err(DecodeError::UnknownOpcode(opcode));
        }
        if left - 1 < width {
            input.set_position(begin);
            return Err(DecodeError::UnexpectedEnd);
        }
        let ghost operands = unread.subrange(1, 1 + width);
        proof {
            assert(operands =~= input.bytes().subrange(start + 1, start + 1 + width));
            assert(operands.subrange(0, width as int) =~= operands);
            if width == 9 {
                assert(operands.subrange(0, 8) =~= operands.take(8));
            }
        }
        let op = match opcode {
            0 => BOp::FnEntry(BFnEntry::from_binary(input)),
            1 => BOp::GetLocal(BGetLocal::from_binary(input)),
            2 => BOp::SetLocal(BSetLocal::from_binary(input)),
            3 => BOp::Call(BCall::from_binary(input)),
            4 => BOp::Invoke(BInvoke::from_binary(input)),
            5 => BOp::Return,
            6 => BOp::PushAddress(BPushAddress::from_binary(input)),
            7 => BOp::BranchIf(BBranchIf::from_binary(input)),
            8 => BOp::BranchIfNot(BBranchIfNot::from_binary(input)),
            9 => BOp::Pop,
            10 => BOp::Noop,
            _ => BOp::LoadConst(BLoadConst::from_binary(input)),
        };
        Ok(op)
    }

    /// Returns the offset of the given address field in the op's compiled
    /// bytecode, for an op that has such a field.
    pub fn addr_field_offset(&self, idx: u8) -> (offset: u64)
        requires
            idx < self.addr_fields(),
        ensures
            offset == 1,
            offset + 8 <= self.spec_size(),
    {
        // 1 byte needed for the actual opcode
        1
    }

    /// Whether the op has an address-typed operand.
    pub fn has_addr_field(&self) -> (has: bool)
        ensures
            has == (self.addr_fields() > 0),
    {
        match self {
            BOp::Call(_) => true,
            BOp::PushAddress(_) => true,
            BOp::BranchIf(_) => true,
            BOp::BranchIfNot(_) => true,
            BOp::LoadConst(_) => true,
            _ => false,
        }
    }
}

/// An encoded op takes one byte and the width of its operands.
pub proof fn lemma_encoding_len(op: BOp)
    ensures
        op.encoding().len() == op.spec_size(),
        1 <= op.spec_size() <= 10,
{
    lemma_radix_pow_values();
    match op {
        BOp::FnEntry(e) => lemma_int_value_of_bytes(endianness(), e.num_locals as nat, 2),
        BOp::GetLocal(g) => lemma_int_value_of_bytes(endianness(), g.idx as nat, 2),
        BOp::SetLocal(s) => lemma_int_value_of_bytes(endianness(), s.idx as nat, 2),
        BOp::Call(c) => lemma_int_value_of_bytes(endianness(), c.addr as nat, 8),
        BOp::PushAddress(a) => lemma_int_value_of_bytes(endianness(), a.addr as nat, 8),
        BOp::BranchIf(b) => lemma_int_value_of_bytes(endianness(), b.dest as nat, 8),
        BOp::BranchIfNot(b) => lemma_int_value_of_bytes(endianness(), b.dest as nat, 8),
        BOp::LoadConst(l) => lemma_int_value_of_bytes(endianness(), l.id as nat, 8),
        _ => {},
    }
}

/// Decoding undoes encoding, whatever bytes follow the op.
pub proof fn lemma_decoding_of_encoding(op: BOp, rest: Seq<u8>)
    ensures
        BOp::decoding(op.encoding() + rest) == Ok::<BOp, DecodeError>(op),
{
    lemma_radix_pow_values();
    lemma_encoding_len(op);
    let bytes = op.encoding() + rest;
    let width = BOp::operand_width(op.spec_opcode());
    assert(bytes[0] == op.spec_opcode());
    let operands = bytes.subrange(1, 1 + width);
    assert(operands =~= op.operands());
    match op {
        BOp::FnEntry(e) => lemma_int_value_of_bytes(endianness(), e.num_locals as nat, 2),
        BOp::GetLocal(g) => lemma_int_value_of_bytes(endianness(), g.idx as nat, 2),
        BOp::SetLocal(s) => lemma_int_value_of_bytes(endianness(), s.idx as nat, 2),
        BOp::Call(c) => {
            lemma_int_value_of_bytes(endianness(), c.addr as nat, 8);
            assert(operands.take(8) =~= host_bytes(c.addr as nat, 8));
        },
        BOp::PushAddress(a) => lemma_int_value_of_bytes(endianness(), a.addr as nat, 8),
        BOp::BranchIf(b) => lemma_int_value_of_bytes(endianness(), b.dest as nat, 8),
        BOp::BranchIfNot(b) => lemma_int_value_of_bytes(endianness(), b.dest as nat, 8),
        BOp::LoadConst(l) => lemma_int_value_of_bytes(endianness(), l.id as nat, 8),
        _ => {},
    }
}

/// Bytes that decode to an op start with the encoding of that op.
pub proof fn lemma_encoding_of_decoding(bytes: Seq<u8>)
    requires
        BOp::decoding(bytes) is Ok,
    ensures
        bytes.take(BOp::decoding(bytes)->Ok_0.spec_size()) == BOp::decoding(
            bytes,
        )->Ok_0.encoding(),
{
    lemma_radix_pow_values();
    let op = BOp::decoding(bytes)->Ok_0;
    let width = BOp::operand_width(bytes[0]);
    let operands = bytes.subrange(1, 1 + width);
    if width == 2 || width == 8 {
        lemma_int_bytes_of_value(endianness(), operands);
    } else if width == 9 {
        lemma_int_bytes_of_value(endianness(), operands.take(8));
        assert(operands =~= operands.take(8) + seq![operands[8]]);
    } else if width == 1 {
        assert(operands =~= seq![operands[0]]);
    }
    assert(op.operands() =~= operands);
    assert(bytes.take(op.spec_size()) =~= op.encoding());
}

} // verus!
