use crate::asm_compiler::model::{qualified, CompiledModuleView, CompiledTargetView};
use crate::assembly::{is_const_name, is_static_name};
use crate::vm::bytecode::ops::{BOp, DecodeError};
use crate::vm::bytecode::util::host_bytes;
use vstd::prelude::*;

verus! {

/// The first address that stands for a primitive: the primitive with the
/// identifier `id` is called at this address plus `id`.
pub const PRIMITIVE_BASE: u64 = 0x8000_0000_0000_0000;

/// A primitive function of the host, by its identifier.
#[derive(Clone, Copy, Debug, PartialEq, Eq, Structural)]
pub struct PrimitiveFn(pub u32);

/// The kinds of values that a symbol can be bound to.
#[derive(Clone, Copy, Debug, PartialEq, Eq, Structural)]
pub enum SymbolKind {
    Const,
    Static,
    Defn,
    Primitive,
}

#[derive(Clone, Copy, Debug, PartialEq, Eq, Structural)]
pub enum TableValue {
    /// Pointer to the constant value in memory
    Const(u64),
    /// Pointer to the static value in memory
    Static(u64),
    /// Address in the machine's code for the function
    Defn(u64),
    /// Primitive function
    Primitive(PrimitiveFn),
}

impl TableValue {
    /// The kind of the value.
    pub open spec fn spec_kind(&self) -> SymbolKind {
        match self {
            TableValue::Const(_) => SymbolKind::Const,
            TableValue::Static(_) => SymbolKind::Static,
            TableValue::Defn(_) => SymbolKind::Defn,
            TableValue::Primitive(_) => SymbolKind::Primitive,
        }
    }

    /// The address at which the value is called: that of a defined function,
    /// or the one that stands for a primitive; none for a constant or a
    /// static.
    pub open spec fn spec_as_addr(&self) -> Option<u64> {
        match self {
            TableValue::Defn(addr) => Some(*addr),
            TableValue::Primitive(f) => Some(primitive_address(f.0)),
            _ => None,
        }
    }

    /// The pointer of the value: that of a constant or of a static; none for
    /// a function.
    pub open spec fn spec_as_pointer(&self) -> Option<u64> {
        match self {
            TableValue::Const(pointer) => Some(*pointer),
            TableValue::Static(pointer) => Some(*pointer),
            _ => None,
        }
    }
}

/// The address that stands for the primitive with the identifier `id`.
pub open spec fn primitive_address(id: u32) -> u64 {
    (PRIMITIVE_BASE + id) as u64
}

/// Whether `addr` stands for a primitive.
pub open spec fn is_primitive_address(addr: u64) -> bool {
    PRIMITIVE_BASE <= addr <= PRIMITIVE_BASE + u32::MAX
}

/// What a frame holds.
pub struct FrameView {
    pub return_addr: u64,
    pub args: Seq<u64>,
    pub slots: Seq<u64>,
}

/// What a machine holds.
pub struct MachineView {
    pub code: Seq<u8>,
    pub call_stack: Seq<FrameView>,
    pub ip: u64,
    pub stack: Seq<u64>,
    pub symbols: Map<Seq<char>, TableValue>,
    pub cells: Seq<u64>,
}

/// What a load error holds.
pub enum LoadErrorView {
    UnresolvedSymbol(Seq<char>),
    WrongSymbolKind(Seq<char>, SymbolKind, SymbolKind),
    ConstructorDidNotProduceValue(Seq<char>),
}

/// The constructors of the constants, in order: each constant with the
/// primitive that its constructor path is bound to. The first path that is
/// not bound, or not to a primitive, is an error.
pub open spec fn resolve_constructors(
    symbols: Map<Seq<char>, TableValue>,
    consts: Seq<(Seq<char>, Seq<char>, Option<Seq<char>>)>,
) -> Result<Seq<(Seq<char>, PrimitiveFn, Option<Seq<char>>)>, LoadErrorView>
    decreases consts.len(),
{
    if consts.len() == 0 {
        Ok(Seq::empty())
    } else {
        match resolve_constructors(symbols, consts.drop_last()) {
            Err(error) => Err(error),
            Ok(constructors) => {
                let (name, path, argument) = consts.last();
                if !symbols.contains_key(path) {
                    Err(LoadErrorView::UnresolvedSymbol(path))
                } else {
                    match symbols[path] {
                        TableValue::Primitive(f) => Ok(constructors.push((name, f, argument))),
                        other => Err(
                            LoadErrorView::WrongSymbolKind(
                                path,
                                SymbolKind::Primitive,
                                other.spec_kind(),
                            ),
                        ),
                    }
                }
            },
        }
    }
}

/// The value that the constructor of the constant number `i` has given, if
/// it has given one.
pub open spec fn value_at(values: Seq<Option<u64>>, i: int) -> Option<u64> {
    if 0 <= i < values.len() {
        values[i]
    } else {
        None
    }
}

/// The symbols with the constants of the module bound to the values that
/// their constructors have given: the constant number `i` to the value number
/// `i`, under the name of the module, a period and its own name. The first
/// constant without a value is an error.
pub open spec fn bind_consts(
    symbols: Map<Seq<char>, TableValue>,
    module: Seq<char>,
    consts: Seq<(Seq<char>, Seq<char>, Option<Seq<char>>)>,
    values: Seq<Option<u64>>,
) -> Result<Map<Seq<char>, TableValue>, LoadErrorView>
    decreases consts.len(),
{
    if consts.len() == 0 {
        Ok(symbols)
    } else {
        match bind_consts(symbols, module, consts.drop_last(), values) {
            Err(error) => Err(error),
            Ok(bound) => {
                let name = qualified(module, consts.last().0);
                match value_at(values, consts.len() - 1) {
                    None => Err(LoadErrorView::ConstructorDidNotProduceValue(name)),
                    Some(pointer) => Ok(bound.insert(name, TableValue::Const(pointer))),
                }
            },
        }
    }
}

/// The symbols with the functions bound, each under its name to its address:
/// its offset from `base` on.
pub open spec fn bind_functions(
    symbols: Map<Seq<char>, TableValue>,
    functions: Seq<(Seq<char>, u64)>,
    base: int,
) -> Map<Seq<char>, TableValue>
    decreases functions.len(),
{
    if functions.len() == 0 {
        symbols
    } else {
        bind_functions(symbols, functions.drop_last(), base).insert(
            functions.last().0,
            TableValue::Defn((base + functions.last().1) as u64),
        )
    }
}

/// The name under which a static of the module is bound: the name of the
/// module, a period, the sigil of the statics and the name of the static. A
/// name that carries the sigil already is not given it a second time.
pub open spec fn static_symbol(module: Seq<char>, name: Seq<char>) -> Seq<char> {
    if is_static_name(name) {
        qualified(module, name)
    } else {
        module + seq!['.', '$'] + name
    }
}

/// The pointer of the cell number `index`.
pub open spec fn cell_pointer(index: int) -> u64 {
    (index + 1) as u64
}

/// The symbols with the statics bound, each to the pointer of a cell of its
/// own: the static number `i` to the cell number `cells + i`.
pub open spec fn bind_statics(
    symbols: Map<Seq<char>, TableValue>,
    module: Seq<char>,
    statics: Seq<Seq<char>>,
    cells: int,
) -> Map<Seq<char>, TableValue>
    decreases statics.len(),
{
    if statics.len() == 0 {
        symbols
    } else {
        bind_statics(symbols, module, statics.drop_last(), cells).insert(
            static_symbol(module, statics.last()),
            TableValue::Static(cell_pointer(cells + statics.len() - 1)),
        )
    }
}

/// The cells with one more for each static, each holding the null pointer.
pub open spec fn with_static_cells(cells: Seq<u64>, statics: int) -> Seq<u64> {
    cells + Seq::new(statics as nat, |i: int| 0u64)
}

/// The path under which a constant or static is looked up: a path that
/// starts with a sigil is one of the module itself.
pub open spec fn const_symbol(module: Seq<char>, path: Seq<char>) -> Seq<char> {
    if is_const_name(path) || is_static_name(path) {
        qualified(module, path)
    } else {
        path
    }
}

/// The address that a relocation puts at its site, the module being loaded
/// at `base`: for an internal target its offset from `base` on; for a
/// function path the address at which the symbol is called; for a constant
/// path the pointer of the symbol. A path that is not bound, or to a symbol
/// of another kind, is an error.
pub open spec fn relocated(
    target: CompiledTargetView,
    base: int,
    module: Seq<char>,
    symbols: Map<Seq<char>, TableValue>,
) -> Result<u64, LoadErrorView> {
    match target {
        CompiledTargetView::InternalAddress(offset) => Ok((base + offset) as u64),
        CompiledTargetView::ExternalFunctionPath(path) => if !symbols.contains_key(path) {
            Err(LoadErrorView::UnresolvedSymbol(path))
        } else {
            match symbols[path].spec_as_addr() {
                Some(addr) => Ok(addr),
                None => Err(
                    LoadErrorView::WrongSymbolKind(
                        path,
                        SymbolKind::Defn,
                        symbols[path].spec_kind(),
                    ),
                ),
            }
        },
        CompiledTargetView::ConstPath(path) => {
            let full = const_symbol(module, path);
            if !symbols.contains_key(full) {
                Err(LoadErrorView::UnresolvedSymbol(full))
            } else {
                match symbols[full].spec_as_pointer() {
                    Some(pointer) => Ok(pointer),
                    None => Err(
                        LoadErrorView::WrongSymbolKind(
                            full,
                            SymbolKind::Const,
                            symbols[full].spec_kind(),
                        ),
                    ),
                }
            }
        },
    }
}

/// The code with `addr` written over the eight bytes from `at` on, in the
/// host's order.
pub open spec fn patched(code: Seq<u8>, at: int, addr: u64) -> Seq<u8> {
    code.subrange(0, at) + host_bytes(addr as nat, 8) + code.subrange(at + 8, code.len() as int)
}

/// The code with every relocation done, in order, the module being loaded at
/// `base`; the first relocation that cannot be done is an error.
pub open spec fn relocate_all(
    code: Seq<u8>,
    base: int,
    module: Seq<char>,
    relocations: Seq<(u64, CompiledTargetView)>,
    symbols: Map<Seq<char>, TableValue>,
) -> Result<Seq<u8>, LoadErrorView>
    decreases relocations.len(),
{
    if relocations.len() == 0 {
        Ok(code)
    } else {
        match relocate_all(code, base, module, relocations.drop_last(), symbols) {
            Err(error) => Err(error),
            Ok(done) => match relocated(relocations.last().1, base, module, symbols) {
                Err(error) => Err(error),
                Ok(addr) => Ok(patched(done, base + relocations.last().0, addr)),
            },
        }
    }
}

/// The symbols of the machine after the module is loaded at `base`, given
/// the values of its constants.
pub open spec fn loaded_symbols(
    m: MachineView,
    module: CompiledModuleView,
    values: Seq<Option<u64>>,
) -> Result<Map<Seq<char>, TableValue>, LoadErrorView> {
    match resolve_constructors(m.symbols, module.consts) {
        Err(error) => Err(error),
        Ok(_) => match bind_consts(m.symbols, module.name, module.consts, values) {
            Err(error) => Err(error),
            Ok(bound) => Ok(
                bind_statics(
                    bind_functions(bound, module.functions, m.code.len() as int),
                    module.name,
                    module.statics,
                    m.cells.len() as int,
                ),
            ),
        },
    }
}

/// The machine after the module is loaded, given the values that the
/// constructors of its constants have given: the constants are bound, the
/// code of the module follows the code that was there, its functions and
/// statics are bound, and its relocations are done.
pub open spec fn load(
    m: MachineView,
    module: CompiledModuleView,
    values: Seq<Option<u64>>,
) -> Result<MachineView, LoadErrorView> {
    match loaded_symbols(m, module, values) {
        Err(error) => Err(error),
        Ok(symbols) => match relocate_all(
            m.code + module.code,
            m.code.len() as int,
            module.name,
            module.relocations,
            symbols,
        ) {
            Err(error) => Err(error),
            Ok(code) => Ok(
                MachineView {
                    code: code,
                    symbols: symbols,
                    cells: with_static_cells(m.cells, module.statics.len() as int),
                    ..m
                },
            ),
        },
    }
}


/// Why the machine stopped where it should not.
#[derive(Clone, Copy, Debug, PartialEq, Eq, Structural)]
pub enum RuntimeError {
    /// The stack or the call stack holds less than an op takes from it.
    StackUnderflow,
    /// The byte at the instruction pointer is no opcode.
    UnknownOpcode(u8),
    /// The frame has no slot with this index.
    LocalIndexOutOfRange(u16),
    /// The null pointer was taken for the pointer of a boxed address.
    NullDereference,
    /// A pointer that is the pointer of no cell was taken for the pointer of
    /// a boxed address.
    InvalidPointer(u64),
    /// The code ends before the op at the instruction pointer does.
    UnexpectedEndOfCode,
}

/// What an event holds.
pub enum EventView {
    /// The machine can go on.
    Continue,
    /// The last frame has returned.
    Halt,
    /// A primitive is called: its identifier and the frame with its
    /// arguments.
    Primitive { id: u32, frame: FrameView },
}

/// The null pointer.
pub const NULL: u64 = 0;

/// The slots of a frame made `n` slots: the first `n` where there are more,
/// and null slots added where there are fewer.
pub open spec fn resized(slots: Seq<u64>, n: int) -> Seq<u64> {
    if n <= slots.len() {
        slots.take(n)
    } else {
        slots + Seq::new((n - slots.len()) as nat, |i: int| NULL)
    }
}

/// The op at the instruction pointer and the address of the op after it.
pub open spec fn fetch(m: MachineView) -> Result<(BOp, u64), RuntimeError> {
    let unread = if m.ip <= m.code.len() {
        m.code.skip(m.ip as int)
    } else {
        Seq::empty()
    };
    match BOp::decoding(unread) {
        Ok(op) => Ok((op, (m.ip + op.spec_size()) as u64)),
        Err(DecodeError::UnknownOpcode(opcode)) => Err(RuntimeError::UnknownOpcode(opcode)),
        Err(DecodeError::UnexpectedEnd) => Err(RuntimeError::UnexpectedEndOfCode),
    }
}

/// The machine with the top frame replaced.
pub open spec fn with_top_frame(m: MachineView, frame: FrameView) -> MachineView {
    MachineView { call_stack: m.call_stack.drop_last().push(frame), ..m }
}

/// A call to `target` with the `num_args` values on top of `stack` as
/// arguments, `stack` being the stack without what came below the arguments
/// and is taken off with them. The arguments are in the order in which they
/// were pushed. A primitive gets the frame, and the machine goes on after
/// the call; a function of the code has the frame pushed and is entered.
pub open spec fn enter(
    m: MachineView,
    rest: Seq<u64>,
    args: Seq<u64>,
    target: u64,
    next: u64,
) -> (MachineView, EventView) {
    let frame = FrameView { return_addr: next, args: args, slots: Seq::empty() };
    if is_primitive_address(target) {
        (
            MachineView { stack: rest, ip: next, ..m },
            EventView::Primitive { id: (target - PRIMITIVE_BASE) as u32, frame: frame },
        )
    } else {
        (
            MachineView { stack: rest, call_stack: m.call_stack.push(frame), ip: target, ..m },
            EventView::Continue,
        )
    }
}

/// What the op does to the machine, `next` being the address of the op after
/// it. An op that cannot be done is an error.
pub open spec fn perform(m: MachineView, op: BOp, next: u64) -> Result<
    (MachineView, EventView),
    RuntimeError,
> {
    let depth = m.stack.len() as int;
    match op {
        BOp::FnEntry(e) => if m.call_stack.len() == 0 {
            Err(RuntimeError::StackUnderflow)
        } else {
            let frame = m.call_stack.last();
            Ok(
                (
                    MachineView {
                        ip: next,
                        ..with_top_frame(
                            m,
                            FrameView { slots: resized(frame.slots, e.num_locals as int), ..frame },
                        )
                    },
                    EventView::Continue,
                ),
            )
        },
        BOp::GetLocal(g) => if m.call_stack.len() == 0 {
            Err(RuntimeError::StackUnderflow)
        } else if g.idx >= m.call_stack.last().slots.len() {
            Err(RuntimeError::LocalIndexOutOfRange(g.idx))
        } else {
            Ok(
                (
                    MachineView {
                        stack: m.stack.push(m.call_stack.last().slots[g.idx as int]),
                        ip: next,
                        ..m
                    },
                    EventView::Continue,
                ),
            )
        },
        BOp::SetLocal(s) => if depth == 0 || m.call_stack.len() == 0 {
            Err(RuntimeError::StackUnderflow)
        } else if s.idx >= m.call_stack.last().slots.len() {
            Err(RuntimeError::LocalIndexOutOfRange(s.idx))
        } else {
            let frame = m.call_stack.last();
            Ok(
                (
                    MachineView {
                        stack: m.stack.drop_last(),
                        ip: next,
                        ..with_top_frame(
                            m,
                            FrameView {
                                slots: frame.slots.update(s.idx as int, m.stack.last()),
                                ..frame
                            },
                        )
                    },
                    EventView::Continue,
                ),
            )
        },
        BOp::Call(c) => if depth < c.num_args {
            Err(RuntimeError::StackUnderflow)
        } else {
            Ok(
                enter(
                    m,
                    m.stack.take(depth - c.num_args),
                    m.stack.skip(depth - c.num_args),
                    c.addr,
                    next,
                ),
            )
        },
        BOp::Invoke(i) => if depth < i.num_args + 1 {
            Err(RuntimeError::StackUnderflow)
        } else {
            let pointer = m.stack[depth - i.num_args - 1];
            if pointer == NULL {
                Err(RuntimeError::NullDereference)
            } else if pointer > m.cells.len() {
                Err(RuntimeError::InvalidPointer(pointer))
            } else {
                Ok(
                    enter(
                        m,
                        m.stack.take(depth - i.num_args - 1),
                        m.stack.skip(depth - i.num_args),
                        m.cells[pointer - 1],
                        next,
                    ),
                )
            }
        },
        BOp::PushAddress(a) => Ok(
            (
                MachineView {
                    cells: m.cells.push(a.addr),
                    stack: m.stack.push(cell_pointer(m.cells.len() as int)),
                    ip: next,
                    ..m
                },
                EventView::Continue,
            ),
        ),
        BOp::BranchIf(b) => if depth == 0 {
            Err(RuntimeError::StackUnderflow)
        } else {
            Ok(
                (
                    MachineView {
                        stack: m.stack.drop_last(),
                        ip: if m.stack.last() == NULL {
                            b.dest
                        } else {
                            next
                        },
                        ..m
                    },
                    EventView::Continue,
                ),
            )
        },
        BOp::BranchIfNot(b) => if depth == 0 {
            Err(RuntimeError::StackUnderflow)
        } else {
            Ok(
                (
                    MachineView {
                        stack: m.stack.drop_last(),
                        ip: if m.stack.last() != NULL {
                            b.dest
                        } else {
                            next
                        },
                        ..m
                    },
                    EventView::Continue,
                ),
            )
        },
        BOp::LoadConst(l) => Ok(
            (MachineView { stack: m.stack.push(l.id), ip: next, ..m }, EventView::Continue),
        ),
        BOp::Return => if m.call_stack.len() == 0 {
            Err(RuntimeError::StackUnderflow)
        } else {
            Ok(
                (
                    MachineView {
                        call_stack: m.call_stack.drop_last(),
                        ip: m.call_stack.last().return_addr,
                        ..m
                    },
                    if m.call_stack.len() == 1 {
                        EventView::Halt
                    } else {
                        EventView::Continue
                    },
                ),
            )
        },
        BOp::Pop => if depth == 0 {
            Err(RuntimeError::StackUnderflow)
        } else {
            Ok((MachineView { stack: m.stack.drop_last(), ip: next, ..m }, EventView::Continue))
        },
        BOp::Noop => Ok((MachineView { ip: next, ..m }, EventView::Continue)),
    }
}

/// One step of the machine: the op at the instruction pointer is read and
/// done. The machine stays as it is where that is an error.
pub open spec fn step(m: MachineView) -> Result<(MachineView, EventView), RuntimeError> {
    match fetch(m) {
        Err(error) => Err(error),
        Ok((op, next)) => perform(m, op, next),
    }
}

/// How a run of the machine ended.
pub enum ExitView {
    /// The last frame has returned.
    Halted,
    /// A primitive is called: the host is to run it and hand its result back.
    Primitive { id: u32, frame: FrameView },
    /// The steps that were allowed are used up.
    OutOfBudget,
}

/// A run of at most `budget` steps: the machine steps until its last frame
/// returns, a primitive is called, a step is an error or the steps are used
/// up. The machine is given as it is then.
pub open spec fn run(m: MachineView, budget: nat) -> (MachineView, Result<ExitView, RuntimeError>)
    decreases budget,
{
    if budget == 0 {
        (m, Ok(ExitView::OutOfBudget))
    } else {
        match step(m) {
            Err(error) => (m, Err(error)),
            Ok((after, EventView::Continue)) => run(after, (budget - 1) as nat),
            Ok((after, EventView::Halt)) => (after, Ok(ExitView::Halted)),
            Ok((after, EventView::Primitive { id, frame })) => (
                after,
                Ok(ExitView::Primitive { id: id, frame: frame }),
            ),
        }
    }
}

/// The machine after the host has run a primitive: the value that the
/// primitive has given is on the stack, or the null pointer where it has
/// given none, so that a call leaves one value whatever was called.
pub open spec fn resumed(m: MachineView, result: Option<u64>) -> MachineView {
    MachineView {
        stack: m.stack.push(
            match result {
                Some(value) => value,
                None => NULL,
            },
        ),
        ..m
    }
}

} // verus!
