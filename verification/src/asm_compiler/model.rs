use crate::assembly::view::{CallView, StatementView, ValueView};
use crate::assembly::{is_const_name, join, AssignmentOp};
use crate::vm::bytecode::ops::{
    BBranchIfNot, BCall, BFnEntry, BGetLocal, BLoadConst, BPushAddress, BSetLocal, BOp,
};
use vstd::prelude::*;

verus! {

/// An op that other records can point at: its number in the module's list of
/// shared ops, and the op itself.
#[derive(Clone, Copy, Debug, PartialEq, Eq, Structural)]
pub struct SharedOp {
    pub id: usize,
    pub op: BOp,
}

/// An op of a function under compilation. A shared op has an identity, so
/// that two emitted ops with the same bytes can be told apart.
#[derive(Clone, Copy, Debug, PartialEq, Eq, Structural)]
pub enum Op {
    Owned(BOp),
    Shared(SharedOp),
}

impl Op {
    /// The op that is emitted.
    pub open spec fn bop(self) -> BOp {
        match self {
            Op::Owned(op) => op,
            Op::Shared(shared) => shared.op,
        }
    }
}

/// What a relocation target holds.
pub enum TargetView {
    InternalBranchAddress(SharedOp),
    InternalFunctionAddress(int),
    ExternalFunctionPath(Seq<char>),
    ConstPath(Seq<char>),
}

/// What a relocation holds.
pub struct RelocationView {
    pub site: SharedOp,
    pub target: TargetView,
}

/// What a function of a module under compilation holds; no name stands for an
/// anonymous function.
pub struct FunctionView {
    pub name: Option<Seq<char>>,
    pub ops: Seq<Op>,
}

/// What a compile error holds.
pub enum CompileErrorView {
    DuplicateLocal(Seq<char>),
    UnknownLocal(Seq<char>),
    UnsupportedValueForm(Seq<char>),
    ModRedefinition(Seq<char>),
    UnsupportedStatement,
    TooManyLocals,
    TooManyArguments,
}

/// What a module under compilation holds.
pub struct ModuleView {
    pub name: Seq<char>,
    pub relocations: Seq<RelocationView>,
    pub functions: Seq<FunctionView>,
    pub consts: Seq<(Seq<char>, Seq<char>, Option<Seq<char>>)>,
    pub statics: Seq<Seq<char>>,
    pub shared: Seq<BOp>,
}

impl ModuleView {
    /// The module before anything is compiled into it.
    pub open spec fn empty() -> ModuleView {
        ModuleView {
            name: Seq::empty(),
            relocations: Seq::empty(),
            functions: Seq::empty(),
            consts: Seq::empty(),
            statics: Seq::empty(),
            shared: Seq::empty(),
        }
    }

    /// The shared op that `share` would make of `op`.
    pub open spec fn next_shared(self, op: BOp) -> SharedOp {
        SharedOp { id: self.shared.len() as usize, op: op }
    }

    /// The module with one more shared op.
    pub open spec fn share(self, op: BOp) -> ModuleView {
        ModuleView { shared: self.shared.push(op), ..self }
    }

    /// The module with one more relocation.
    pub open spec fn relocate(self, site: SharedOp, target: TargetView) -> ModuleView {
        ModuleView {
            relocations: self.relocations.push(RelocationView { site: site, target: target }),
            ..self
        }
    }

    /// The module with one more function.
    pub open spec fn define(self, function: FunctionView) -> ModuleView {
        ModuleView { functions: self.functions.push(function), ..self }
    }
}

/// Most locals that a function can have: a slot index and the number of slots
/// are 16 bits wide.
pub open spec fn max_locals() -> int {
    0xffff
}

/// Most arguments that a call can pass: their number is 8 bits wide.
pub open spec fn max_arguments() -> int {
    0xff
}

/// The position of the first `name` among `names`, or their number where it
/// is not among them.
pub open spec fn position_of(names: Seq<Seq<char>>, name: Seq<char>) -> int
    decreases names.len(),
{
    if names.len() == 0 {
        0
    } else if names[0] == name {
        0
    } else {
        1 + position_of(names.drop_first(), name)
    }
}

/// The slot of `name` among the locals of the function: its position among
/// them. It is an error where no function is being compiled, where the name
/// is not among the locals, and where its position does not fit a slot index.
pub open spec fn slot_of(locals: Option<Seq<Seq<char>>>, name: Seq<char>) -> Result<
    u16,
    CompileErrorView,
> {
    match locals {
        None => Err(CompileErrorView::UnknownLocal(name)),
        Some(names) => if position_of(names, name) >= names.len() {
            Err(CompileErrorView::UnknownLocal(name))
        } else if position_of(names, name) > max_locals() {
            Err(CompileErrorView::TooManyLocals)
        } else {
            Ok(position_of(names, name) as u16)
        },
    }
}

/// The locals with one more, which must be new and must fit.
pub open spec fn add_local(names: Seq<Seq<char>>, name: Seq<char>) -> Result<
    Seq<Seq<char>>,
    CompileErrorView,
> {
    if names.contains(name) {
        Err(CompileErrorView::DuplicateLocal(name))
    } else if names.len() >= max_locals() {
        Err(CompileErrorView::TooManyLocals)
    } else {
        Ok(names.push(name))
    }
}

/// The name that a statement makes a local of, if it makes one: a `local`
/// statement does, and an assignment with `:=`.
pub open spec fn declared_local(stmt: StatementView) -> Option<Seq<char>> {
    match stmt {
        StatementView::Local { name } => Some(name),
        StatementView::Assignment { lvalue, operator, rvalue } => match operator {
            AssignmentOp::AllocateAndAssign => Some(lvalue),
            AssignmentOp::Plain => None,
        },
        _ => None,
    }
}

/// The locals of a function with the body `stmts`, in the order in which the
/// statements of the body make them; an error at the first that is there
/// already or does not fit.
pub open spec fn collect_locals(stmts: Seq<StatementView>) -> Result<
    Seq<Seq<char>>,
    CompileErrorView,
>
    decreases stmts.len(),
{
    if stmts.len() == 0 {
        Ok(Seq::empty())
    } else {
        match collect_locals(stmts.drop_last()) {
            Err(error) => Err(error),
            Ok(names) => match declared_local(stmts.last()) {
                None => Ok(names),
                Some(name) => add_local(names, name),
            },
        }
    }
}

/// The ops with the first made a shared one, where there is a first and it is
/// not shared yet; the module takes the op into its list.
pub open spec fn promote_entry(ops: Seq<Op>, m: ModuleView) -> (Seq<Op>, ModuleView) {
    if ops.len() > 0 && ops[0] is Owned {
        (ops.update(0, Op::Shared(m.next_shared(ops[0].bop()))), m.share(ops[0].bop()))
    } else {
        (ops, m)
    }
}

/// The ops that push the arguments of a call: one `GetLocal` for each, in
/// order; an error at the first argument that has no slot.
pub open spec fn lower_arguments(
    arguments: Seq<Seq<char>>,
    locals: Option<Seq<Seq<char>>>,
) -> Result<Seq<Op>, CompileErrorView>
    decreases arguments.len(),
{
    if arguments.len() == 0 {
        Ok(Seq::empty())
    } else {
        match lower_arguments(arguments.drop_last(), locals) {
            Err(error) => Err(error),
            Ok(ops) => match slot_of(locals, arguments.last()) {
                Err(error) => Err(error),
                Ok(idx) => Ok(ops.push(Op::Owned(BOp::GetLocal(BGetLocal { idx: idx })))),
            },
        }
    }
}

/// A call as a value: the arguments are pushed, then a shared `Call` follows
/// whose address is left to a relocation by the path of the callee.
pub open spec fn lower_call(
    call: CallView,
    locals: Option<Seq<Seq<char>>>,
    m: ModuleView,
) -> Result<(Seq<Op>, ModuleView), CompileErrorView> {
    match lower_arguments(call.arguments, locals) {
        Err(error) => Err(error),
        Ok(ops) => if call.arguments.len() > max_arguments() {
            Err(CompileErrorView::TooManyArguments)
        } else {
            let op = BOp::Call(BCall { addr: 0, num_args: call.arguments.len() as u8 });
            let site = m.next_shared(op);
            Ok(
                (
                    ops.push(Op::Shared(site)),
                    m.share(op).relocate(
                        site,
                        TargetView::ExternalFunctionPath(join(call.path, '.')),
                    ),
                ),
            )
        },
    }
}

/// A value: ops that push exactly one value.
pub open spec fn lower_value(
    value: ValueView,
    locals: Option<Seq<Seq<char>>>,
    m: ModuleView,
) -> Result<(Seq<Op>, ModuleView), CompileErrorView>
    decreases value, 0nat,
{
    match value {
        ValueView::Name(name) => match slot_of(locals, name) {
            Err(error) => Err(error),
            Ok(idx) => Ok((seq![Op::Owned(BOp::GetLocal(BGetLocal { idx: idx }))], m)),
        },
        ValueView::Path(path) => if path.len() > 0 && is_const_name(path.last()) {
            let op = BOp::LoadConst(BLoadConst { id: 0 });
            let site = m.next_shared(op);
            Ok(
                (
                    seq![Op::Shared(site)],
                    m.share(op).relocate(site, TargetView::ConstPath(join(path, '.'))),
                ),
            )
        } else {
            Err(CompileErrorView::UnsupportedValueForm(join(path, '.')))
        },
        ValueView::Fn(f) => match lower_function_body(f.body, m) {
            Err(error) => Err(error),
            Ok((body, m1)) => {
                let op = BOp::PushAddress(BPushAddress { addr: 0 });
                let m2 = m1.define(FunctionView { name: None, ops: body });
                let site = m2.next_shared(op);
                Ok(
                    (
                        seq![Op::Shared(site)],
                        m2.share(op).relocate(
                            site,
                            TargetView::InternalFunctionAddress(m1.functions.len() as int),
                        ),
                    ),
                )
            },
        },
        ValueView::Call(call) => lower_call(call, locals, m),
    }
}

/// The body of a function: `FnEntry` with the number of its locals, then its
/// statements.
pub open spec fn lower_function_body(body: Seq<StatementView>, m: ModuleView) -> Result<
    (Seq<Op>, ModuleView),
    CompileErrorView,
>
    decreases body, 1nat,
{
    match collect_locals(body) {
        Err(error) => Err(error),
        Ok(names) => match lower_block(body, Some(names), m) {
            Err(error) => Err(error),
            Ok((ops, m1)) => Ok(
                (
                    seq![Op::Owned(BOp::FnEntry(BFnEntry { num_locals: names.len() as u16 }))]
                        + ops,
                    m1,
                ),
            ),
        },
    }
}

/// A block: its statements, one after the other.
pub open spec fn lower_block(
    stmts: Seq<StatementView>,
    locals: Option<Seq<Seq<char>>>,
    m: ModuleView,
) -> Result<(Seq<Op>, ModuleView), CompileErrorView>
    decreases stmts, 0nat,
{
    if stmts.len() == 0 {
        Ok((Seq::empty(), m))
    } else {
        match lower_block(stmts.drop_last(), locals, m) {
            Err(error) => Err(error),
            Ok((ops, m1)) => match lower_statement(stmts.last(), locals, m1) {
                Err(error) => Err(error),
                Ok((more, m2)) => Ok((ops + more, m2)),
            },
        }
    }
}

/// A statement: the ops that it puts into the function around it, and what it
/// adds to the module.
pub open spec fn lower_statement(
    stmt: StatementView,
    locals: Option<Seq<Seq<char>>>,
    m: ModuleView,
) -> Result<(Seq<Op>, ModuleView), CompileErrorView>
    decreases stmt, 0nat,
{
    match stmt {
        StatementView::Mod { path } => if m.name.len() == 0 {
            Ok((Seq::empty(), ModuleView { name: join(path, '.'), ..m }))
        } else {
            Err(CompileErrorView::ModRedefinition(m.name))
        },
        StatementView::Extern { path } => Ok((Seq::empty(), m)),
        StatementView::Const { name, constructor, argument } => Ok(
            (
                Seq::empty(),
                ModuleView { consts: m.consts.push((name, join(constructor, '.'), argument)), ..m },
            ),
        ),
        StatementView::Static { name } => Ok(
            (Seq::empty(), ModuleView { statics: m.statics.push(name), ..m }),
        ),
        StatementView::Local { name } => Ok((Seq::empty(), m)),
        StatementView::Assignment { lvalue, operator, rvalue } => match slot_of(locals, lvalue) {
            Err(error) => Err(error),
            Ok(idx) => match lower_value(rvalue, locals, m) {
                Err(error) => Err(error),
                Ok((ops, m1)) => Ok(
                    (ops.push(Op::Owned(BOp::SetLocal(BSetLocal { idx: idx }))), m1),
                ),
            },
        },
        StatementView::Defn { name, parameters, body } => match lower_function_body(body, m) {
            Err(error) => Err(error),
            Ok((ops, m1)) => Ok(
                (Seq::empty(), m1.define(FunctionView { name: Some(name), ops: ops })),
            ),
        },
        StatementView::Return { value } => Ok((seq![Op::Owned(BOp::Return)], m)),
        StatementView::Call(call) => match lower_call(call, locals, m) {
            Err(error) => Err(error),
            Ok((ops, m1)) => Ok((ops.push(Op::Owned(BOp::Pop)), m1)),
        },
        StatementView::Test { name } => match slot_of(locals, name) {
            Err(error) => Err(error),
            Ok(idx) => Ok((seq![Op::Owned(BOp::GetLocal(BGetLocal { idx: idx }))], m)),
        },
        StatementView::If { condition, then_sibling } => match lower_block(
            condition,
            locals,
            m,
        ) {
            Err(error) => Err(error),
            Ok((tested, m1)) => {
                let (entry, m2) = promote_entry(tested, m1);
                match lower_block(then_sibling.body, locals, m2) {
                    Err(error) => Err(error),
                    Ok((body, m3)) => {
                        let branch_op = BOp::BranchIfNot(BBranchIfNot { dest: 0 });
                        let branch = m3.next_shared(branch_op);
                        let m4 = m3.share(branch_op);
                        let noop = m4.next_shared(BOp::Noop);
                        let m5 = m4.share(BOp::Noop);
                        Ok(
                            (
                                entry.push(Op::Shared(branch)) + body.push(Op::Shared(noop)),
                                m5.relocate(branch, TargetView::InternalBranchAddress(noop)),
                            ),
                        )
                    },
                }
            },
        },
        StatementView::Then(t) => Ok((Seq::empty(), m)),
        StatementView::Else { body } => Ok((Seq::empty(), m)),
        StatementView::Fn(f) => Err(CompileErrorView::UnsupportedStatement),
        StatementView::While(w) => Err(CompileErrorView::UnsupportedStatement),
        StatementView::Do(d) => Err(CompileErrorView::UnsupportedStatement),
        StatementView::Break => Err(CompileErrorView::UnsupportedStatement),
    }
}


/// What the target of a compiled relocation holds.
pub enum CompiledTargetView {
    InternalAddress(u64),
    ExternalFunctionPath(Seq<char>),
    ConstPath(Seq<char>),
}

/// What a compiled module holds.
pub struct CompiledModuleView {
    pub name: Seq<char>,
    pub code: Seq<u8>,
    pub functions: Seq<(Seq<char>, u64)>,
    pub consts: Seq<(Seq<char>, Seq<char>, Option<Seq<char>>)>,
    pub statics: Seq<Seq<char>>,
    pub relocations: Seq<(u64, CompiledTargetView)>,
}

/// Whether an address operand begins at `site` in `code`: the byte before
/// starts an op with an address field, whose eight bytes lie within `code`.
pub open spec fn is_site(code: Seq<u8>, site: u64) -> bool {
    &&& 1 <= site
    &&& site + 8 <= code.len()
    &&& BOp::decoding(code.skip(site - 1)) matches Ok(op) && op.addr_fields() > 0
}

/// Whether no two relocations have sites whose eight bytes overlap.
pub open spec fn sites_apart(relocations: Seq<(u64, CompiledTargetView)>) -> bool {
    forall|i: int, j: int|
        0 <= i < relocations.len() && 0 <= j < relocations.len() && i != j ==> (
        #[trigger] relocations[i]).0 + 8 <= (#[trigger] relocations[j]).0 || relocations[j].0 + 8
            <= relocations[i].0
}

impl CompiledModuleView {
    /// Whether the module can be loaded: the eight bytes at each site lie
    /// within its code, and so does every offset.
    pub open spec fn loadable(self) -> bool {
        &&& forall|i: int|
            0 <= i < self.functions.len() ==> (#[trigger] self.functions[i]).1 <= self.code.len()
        &&& forall|i: int|
            0 <= i < self.relocations.len() ==> (#[trigger] self.relocations[i]).0 + 8
                <= self.code.len()
        &&& forall|i: int|
            0 <= i < self.relocations.len() ==> (
            (#[trigger] self.relocations[i]).1 matches CompiledTargetView::InternalAddress(offset)
                ==> offset <= self.code.len())
    }

    /// Whether the offsets in the module stay within its code: each function
    /// starts within it, each relocation has its site at the address operand
    /// of an op, no two sites overlap, and each internal target lies within
    /// the code.
    pub open spec fn well_formed(self) -> bool {
        &&& sites_apart(self.relocations)
        &&& forall|i: int|
            0 <= i < self.functions.len() ==> (#[trigger] self.functions[i]).1 <= self.code.len()
        &&& forall|i: int|
            0 <= i < self.relocations.len() ==> is_site(
                self.code,
                (#[trigger] self.relocations[i]).0,
            )
        &&& forall|i: int|
            0 <= i < self.relocations.len() ==> (
            (#[trigger] self.relocations[i]).1 matches CompiledTargetView::InternalAddress(offset)
                ==> offset <= self.code.len())
    }
}

/// How many bytes the ops take when encoded.
pub open spec fn ops_size(ops: Seq<Op>) -> int
    decreases ops.len(),
{
    if ops.len() == 0 {
        0
    } else {
        ops_size(ops.drop_last()) + ops.last().bop().spec_size()
    }
}

/// The ops as bytes, one after the other.
pub open spec fn ops_encoding(ops: Seq<Op>) -> Seq<u8>
    decreases ops.len(),
{
    if ops.len() == 0 {
        Seq::empty()
    } else {
        ops_encoding(ops.drop_last()) + ops.last().bop().encoding()
    }
}

/// The addresses of the shared ops, by their ids, after the ops are put at
/// `base`: `known` with the address of each shared op among `ops` added, a
/// later op with the same id taking the place of an earlier one.
pub open spec fn op_addresses(ops: Seq<Op>, base: int, known: Map<usize, u64>) -> Map<usize, u64>
    decreases ops.len(),
{
    if ops.len() == 0 {
        known
    } else {
        let before = op_addresses(ops.drop_last(), base, known);
        match ops.last() {
            Op::Owned(_) => before,
            Op::Shared(shared) => before.insert(
                shared.id,
                (base + ops_size(ops.drop_last())) as u64,
            ),
        }
    }
}

/// How many bytes the functions take when encoded.
pub open spec fn functions_size(functions: Seq<FunctionView>) -> int
    decreases functions.len(),
{
    if functions.len() == 0 {
        0
    } else {
        functions_size(functions.drop_last()) + ops_size(functions.last().ops)
    }
}

/// The functions as bytes, one after the other.
pub open spec fn functions_encoding(functions: Seq<FunctionView>) -> Seq<u8>
    decreases functions.len(),
{
    if functions.len() == 0 {
        Seq::empty()
    } else {
        functions_encoding(functions.drop_last()) + ops_encoding(functions.last().ops)
    }
}

/// The addresses of the shared ops of the functions, the functions put one
/// after the other from `base` on.
pub open spec fn functions_op_addresses(
    functions: Seq<FunctionView>,
    base: int,
    known: Map<usize, u64>,
) -> Map<usize, u64>
    decreases functions.len(),
{
    if functions.len() == 0 {
        known
    } else {
        op_addresses(
            functions.last().ops,
            base + functions_size(functions.drop_last()),
            functions_op_addresses(functions.drop_last(), base, known),
        )
    }
}

/// The address of each function by its number, the functions put one after
/// the other from `base` on.
pub open spec fn function_addresses(functions: Seq<FunctionView>, base: int) -> Map<usize, u64> {
    Map::new(
        |k: usize| k < functions.len(),
        |k: usize| (base + functions_size(functions.take(k as int))) as u64,
    )
}

/// The name of a function of the module `module`.
pub open spec fn qualified(module: Seq<char>, name: Seq<char>) -> Seq<char> {
    module + seq!['.'] + name
}

/// The named functions with their addresses, in order.
pub open spec fn named_functions(functions: Seq<FunctionView>, base: int, module: Seq<char>) -> Seq<
    (Seq<char>, u64),
>
    decreases functions.len(),
{
    if functions.len() == 0 {
        Seq::empty()
    } else {
        let before = named_functions(functions.drop_last(), base, module);
        match functions.last().name {
            None => before,
            Some(name) => before.push(
                (qualified(module, name), (base + functions_size(functions.drop_last())) as u64),
            ),
        }
    }
}

/// Whether the maps hold what a relocation needs: the address of its site,
/// and that of its target where the target is an op or a function.
pub open spec fn resolvable(
    relocation: RelocationView,
    op_map: Map<usize, u64>,
    function_map: Map<usize, u64>,
) -> bool {
    &&& op_map.contains_key(relocation.site.id)
    &&& op_map[relocation.site.id] < u64::MAX
    &&& relocation.site.op.addr_fields() > 0
    &&& match relocation.target {
        TargetView::InternalBranchAddress(op) => op_map.contains_key(op.id),
        TargetView::InternalFunctionAddress(k) => 0 <= k <= usize::MAX && function_map.contains_key(
            k as usize,
        ),
        _ => true,
    }
}

/// A relocation by addresses: the site is the address field of the op, one
/// byte after its start.
pub open spec fn resolve(
    relocation: RelocationView,
    op_map: Map<usize, u64>,
    function_map: Map<usize, u64>,
) -> (u64, CompiledTargetView) {
    (
        (op_map[relocation.site.id] + 1) as u64,
        match relocation.target {
            TargetView::InternalBranchAddress(op) => CompiledTargetView::InternalAddress(
                op_map[op.id],
            ),
            TargetView::InternalFunctionAddress(k) => CompiledTargetView::InternalAddress(
                function_map[k as usize],
            ),
            TargetView::ExternalFunctionPath(path) => CompiledTargetView::ExternalFunctionPath(
                path,
            ),
            TargetView::ConstPath(path) => CompiledTargetView::ConstPath(path),
        },
    )
}

/// The relocations by addresses, in order.
pub open spec fn resolve_all(
    relocations: Seq<RelocationView>,
    op_map: Map<usize, u64>,
    function_map: Map<usize, u64>,
) -> Seq<(u64, CompiledTargetView)> {
    Seq::new(relocations.len(), |i: int| resolve(relocations[i], op_map, function_map))
}

/// The compiled module: the ops of the module itself, then its functions in
/// the order in which they were met, as bytes; the named functions with their
/// offsets; the relocations by offsets.
pub open spec fn assemble(module_ops: Seq<Op>, m: ModuleView) -> CompiledModuleView {
    let base = ops_size(module_ops);
    let op_map = functions_op_addresses(
        m.functions,
        base,
        op_addresses(module_ops, 0, Map::empty()),
    );
    CompiledModuleView {
        name: m.name,
        code: ops_encoding(module_ops) + functions_encoding(m.functions),
        functions: named_functions(m.functions, base, m.name),
        consts: m.consts,
        statics: m.statics,
        relocations: resolve_all(m.relocations, op_map, function_addresses(m.functions, base)),
    }
}

/// What compiling the statements of a module gives.
pub open spec fn compile_module(stmts: Seq<StatementView>) -> Result<
    CompiledModuleView,
    CompileErrorView,
> {
    match lower_block(stmts, None, ModuleView::empty()) {
        Err(error) => Err(error),
        Ok((module_ops, m)) => Ok(assemble(module_ops, m)),
    }
}

} // verus!
