use crate::assembly;
use crate::assembly::view::{
    call_view, fn_view, lemma_statements_view, statement_view, statements_view, text_view,
    then_view, StatementView,
};
use crate::assembly::AssignmentOp;
use crate::vm::bytecode::ops::{
    BBranchIfNot, BCall, BFnEntry, BGetLocal, BLoadConst, BPushAddress, BSetLocal, BOp,
    IntoOpConvertable,
};
use std::collections::HashMap;
use vstd::prelude::*;

/// What holds of every compiled module.
pub mod laws;

/// What compiling computes, over the views of the syntax tree.
pub mod model;

use laws::{
    lemma_assemble_well_formed, lemma_functions_size, lemma_lower_block_sound, lemma_ops_size,
};
use model::{
    add_local, collect_locals, compile_module, function_addresses, functions_encoding,
    functions_op_addresses, functions_size, lower_arguments, lower_block, lower_call,
    lower_function_body, lower_statement, lower_value, named_functions, op_addresses,
    ops_encoding, ops_size, position_of, promote_entry, qualified, resolvable, resolve_all,
    slot_of, CompileErrorView, CompiledModuleView, CompiledTargetView, FunctionView, ModuleView,
    Op, RelocationView, SharedOp, TargetView,
};
use vstd::string::StringExecFns;

verus! {

pub type OpVec = Vec<Op>;

/// Pushes of the two kinds of ops.
pub trait OpVecExt: Sized {
    /// The ops pushed so far.
    spec fn pushed(&self) -> Seq<Op>;

    fn push_owned(&mut self, op: BOp)
        ensures
            final(self).pushed() == old(self).pushed().push(Op::Owned(op)),
    ;

    fn push_shared(&mut self, op: SharedOp)
        ensures
            final(self).pushed() == old(self).pushed().push(Op::Shared(op)),
    ;
}

impl OpVecExt for OpVec {
    open spec fn pushed(&self) -> Seq<Op> {
        self@
    }

    fn push_owned(&mut self, op: BOp) {
        self.push(Op::Owned(op))
    }

    fn push_shared(&mut self, op: SharedOp) {
        self.push(Op::Shared(op))
    }
}

/// Why a module could not be compiled.
#[derive(Debug, PartialEq)]
pub enum CompileError {
    /// A function makes a local of a name twice.
    DuplicateLocal(String),
    /// A name is used that is no local of the function around it.
    UnknownLocal(String),
    /// A path is used as a value that does not name a constant.
    UnsupportedValueForm(String),
    /// The module is named a second time; the name that it has is given.
    ModRedefinition(String),
    /// A statement for which there is no bytecode.
    UnsupportedStatement,
    /// A function has more locals than slot indexes.
    TooManyLocals,
    /// A call passes more arguments than an op can count.
    TooManyArguments,
}

impl View for CompileError {
    type V = CompileErrorView;

    open spec fn view(&self) -> CompileErrorView {
        match self {
            CompileError::DuplicateLocal(name) => CompileErrorView::DuplicateLocal(name@),
            CompileError::UnknownLocal(name) => CompileErrorView::UnknownLocal(name@),
            CompileError::UnsupportedValueForm(path) => CompileErrorView::UnsupportedValueForm(
                path@,
            ),
            CompileError::ModRedefinition(name) => CompileErrorView::ModRedefinition(name@),
            CompileError::UnsupportedStatement => CompileErrorView::UnsupportedStatement,
            CompileError::TooManyLocals => CompileErrorView::TooManyLocals,
            CompileError::TooManyArguments => CompileErrorView::TooManyArguments,
        }
    }
}

/// The position of the first `name` among `names`, or their number where it
/// is not among them.
fn position(names: &Vec<String>, name: &String) -> (at: usize)
    ensures
        at == position_of(names.deep_view(), name@),
        at <= names.len(),
        at < names.len() <==> names.deep_view().contains(name@),
{
    let ghost all = names.deep_view();
    let mut i: usize = 0;
    assert(all.skip(0) =~= all);
    while i < names.len()
        invariant
            i <= names.len(),
            all == names.deep_view(),
            position_of(all, name@) == i + position_of(all.skip(i as int), name@),
            !all.take(i as int).contains(name@),
        decreases names.len() - i,
    {
        assert(all.skip(i as int)[0] == names@[i as int]@);
        if names[i] == *name {
            assert(all[i as int] == name@);
            return i;
        }
        proof {
            assert(all.skip(i as int).drop_first() =~= all.skip(i + 1));
            let longer = all.take(i + 1);
            assert forall|j: int| 0 <= j < longer.len() implies longer[j] != name@ by {
                if j < i {
                    assert(all.take(i as int)[j] == longer[j]);
                }
            }
        }
        i = i + 1;
    }
    assert(all.take(i as int) =~= all);
    i
}

/// Internal storage for all the locals in a LocalContext.
pub struct Locals {
    pub locals: Vec<String>,
}

impl View for Locals {
    type V = Seq<Seq<char>>;

    /// The names of the locals, in the order of their slots.
    open spec fn view(&self) -> Seq<Seq<char>> {
        self.locals.deep_view()
    }
}

impl Locals {
    pub fn new() -> (locals: Locals)
        ensures
            locals@ == Seq::<Seq<char>>::empty(),
    {
        let locals = Locals { locals: Vec::new() };
        assert(locals@ =~= Seq::<Seq<char>>::empty());
        locals
    }

    /// Makes `local` the next local and gives its slot. A name that is a
    /// local already is refused, and so is one more local than there are slot
    /// indexes; the locals then stay as they were.
    pub fn add(&mut self, local: String) -> (result: Result<u16, CompileError>)
        ensures
            match add_local(old(self)@, local@) {
                Ok(names) => final(self)@ == names && result == Ok::<u16, CompileError>(
                    old(self)@.len() as u16,
                ),
                Err(error) => result matches Err(e) && e@ == error && final(self)@ == old(self)@,
            },
    {
        let at: usize = position(&self.locals, &local);
        if at < self.locals.len() {
            return Err(CompileError::DuplicateLocal(local));
        }
        let len: usize = self.locals.len();
        if len >= 0xffff {
            return Err(CompileError::TooManyLocals);
        }
        self.locals.push(local);
        assert(self@ =~= old(self)@.push(local@));
        Ok(len as u16)
    }

    pub fn len(&self) -> (len: usize)
        ensures
            len == self@.len(),
    {
        self.locals.len()
    }

    /// The slot of `local`: its position among the locals.
    pub fn find(&self, local: String) -> (result: Result<u16, CompileError>)
        ensures
            match slot_of(Some(self@), local@) {
                Ok(idx) => result == Ok::<u16, CompileError>(idx),
                Err(error) => result matches Err(e) && e@ == error,
            },
    {
        let at: usize = position(&self.locals, &local);
        if at >= self.locals.len() {
            Err(CompileError::UnknownLocal(local))
        } else if at > 0xffff {
            Err(CompileError::TooManyLocals)
        } else {
            Ok(at as u16)
        }
    }
}

/// Set of locals variables/slots and other values related to functions. Every function has its
/// own `LocalContext`.
pub struct LocalContext {
    pub locals: Locals,
}

pub type LocalContextRef<'a> = Option<&'a LocalContext>;

/// The names of the locals of the function that is being compiled, if one is.
pub open spec fn locals_of(lc: LocalContextRef) -> Option<Seq<Seq<char>>> {
    match lc {
        None => None,
        Some(context) => Some(context.locals@),
    }
}

/// The slot of `name` in the function that is being compiled.
fn find_local(lc: LocalContextRef, name: &String) -> (result: Result<u16, CompileError>)
    ensures
        match slot_of(locals_of(lc), name@) {
            Ok(idx) => result == Ok::<u16, CompileError>(idx),
            Err(error) => result matches Err(e) && e@ == error,
        },
{
    match lc {
        None => Err(CompileError::UnknownLocal(name.clone())),
        Some(context) => context.locals.find(name.clone()),
    }
}

pub enum RelocationTarget {
    /// Internal address for a jump
    InternalBranchAddress(SharedOp),
    /// Internal address of a function (for anonymous functions), by the
    /// number of the function in the module
    InternalFunctionAddress(usize),
    /// Absolute string version of the path to the external function
    ExternalFunctionPath(String),
    ConstPath(String),
}

impl View for RelocationTarget {
    type V = TargetView;

    open spec fn view(&self) -> TargetView {
        match self {
            RelocationTarget::InternalBranchAddress(op) => TargetView::InternalBranchAddress(*op),
            RelocationTarget::InternalFunctionAddress(k) => TargetView::InternalFunctionAddress(
                *k as int,
            ),
            RelocationTarget::ExternalFunctionPath(path) => TargetView::ExternalFunctionPath(
                path@,
            ),
            RelocationTarget::ConstPath(path) => TargetView::ConstPath(path@),
        }
    }
}

/// Links sites in the code that need to have their addresses updated (relocated) with a
/// locator for where that address will eventually be.
///
/// At module load time the relocations of that module are scanned and the sites in the code
/// updated to point at the correct final address.
pub struct Relocation {
    /// Site that must have its address relocated
    pub site: SharedOp,
    /// Where this site should eventually point to
    pub target: RelocationTarget,
}

impl View for Relocation {
    type V = RelocationView;

    open spec fn view(&self) -> RelocationView {
        RelocationView { site: self.site, target: self.target@ }
    }
}

#[derive(Debug)]
pub enum FunctionName {
    Named(String),
    Anonymous,
}

/// Representation of named and anonymous functions in a compiled module.
#[derive(Debug)]
pub struct Function {
    pub name: FunctionName,
    pub ops: OpVec,
}

impl View for Function {
    type V = FunctionView;

    open spec fn view(&self) -> FunctionView {
        FunctionView {
            name: match self.name {
                FunctionName::Named(name) => Some(name@),
                FunctionName::Anonymous => None,
            },
            ops: self.ops@,
        }
    }
}

/// 3-tuple of the name, constructor path, and optional argument.
pub type CompiledConst = (String, String, Option<String>);

/// What a compiled constant holds.
pub open spec fn const_view(c: CompiledConst) -> (Seq<char>, Seq<char>, Option<Seq<char>>) {
    (c.0@, c.1@, text_view(c.2))
}

/// What the compiled constants hold, in order.
pub open spec fn consts_view(consts: Seq<CompiledConst>) -> Seq<
    (Seq<char>, Seq<char>, Option<Seq<char>>),
> {
    Seq::new(consts.len(), |i: int| const_view(consts[i]))
}

/// What the relocations hold, in order.
pub open spec fn relocations_view(relocations: Seq<Relocation>) -> Seq<RelocationView> {
    Seq::new(relocations.len(), |i: int| relocations[i]@)
}

/// What the functions hold, in order.
pub open spec fn functions_view(functions: Seq<Function>) -> Seq<FunctionView> {
    Seq::new(functions.len(), |i: int| functions[i]@)
}

/// A module under compilation: what the statements compiled so far have
/// added to it.
pub struct Module {
    /// Fully-qualified name of the module
    pub name: String,
    /// All the relocations in this module
    pub relocations: Vec<Relocation>,
    /// All the functions in this module
    pub functions: Vec<Function>,
    pub consts: Vec<CompiledConst>,
    pub statics: Vec<String>,
    /// The ops that have an identity: a shared op is known by its place here
    pub shared: Vec<BOp>,
}

impl View for Module {
    type V = ModuleView;

    open spec fn view(&self) -> ModuleView {
        ModuleView {
            name: self.name@,
            relocations: relocations_view(self.relocations@),
            functions: functions_view(self.functions@),
            consts: consts_view(self.consts@),
            statics: self.statics.deep_view(),
            shared: self.shared@,
        }
    }
}

impl Module {
    pub fn new() -> (module: Module)
        ensures
            module@ == ModuleView::empty(),
    {
        let module = Module {
            name: String::new(),
            relocations: Vec::new(),
            functions: Vec::new(),
            consts: Vec::new(),
            statics: Vec::new(),
            shared: Vec::new(),
        };
        assert(module@.relocations =~= Seq::empty());
        assert(module@.functions =~= Seq::empty());
        assert(module@.consts =~= Seq::empty());
        assert(module@.statics =~= Seq::empty());
        module
    }

    /// Gives `op` an identity: the op is taken into the list of the shared
    /// ops, and its place there is its id.
    pub fn share(&mut self, op: BOp) -> (shared: SharedOp)
        ensures
            shared == old(self)@.next_shared(op),
            final(self)@ == old(self)@.share(op),
    {
        let id: usize = self.shared.len();
        self.shared.push(op);
        SharedOp { id: id, op: op }
    }

    /// Takes an anonymous function into the module and gives its number.
    pub fn add_fn(&mut self, f: Function) -> (number: usize)
        ensures
            number == old(self)@.functions.len(),
            final(self)@ == old(self)@.define(f@),
    {
        let number: usize = self.functions.len();
        self.functions.push(f);
        assert(final(self)@.functions =~= old(self)@.functions.push(f@));
        number
    }

    /// Takes a named function into the module and gives its number.
    pub fn add_defn(&mut self, f: Function) -> (number: usize)
        ensures
            number == old(self)@.functions.len(),
            final(self)@ == old(self)@.define(f@),
    {
        let number: usize = self.functions.len();
        self.functions.push(f);
        assert(final(self)@.functions =~= old(self)@.functions.push(f@));
        number
    }

    pub fn add_function_relocation(&mut self, site: SharedOp, target: usize)
        ensures
            final(self)@ == old(self)@.relocate(
                site,
                TargetView::InternalFunctionAddress(target as int),
            ),
    {
        self.relocations.push(
            Relocation { site: site, target: RelocationTarget::InternalFunctionAddress(target) },
        );
        assert(final(self)@.relocations =~= old(self)@.relocations.push(
            RelocationView {
                site: site,
                target: TargetView::InternalFunctionAddress(target as int),
            },
        ));
    }

    pub fn add_call_relocation(&mut self, site: SharedOp, target: String)
        ensures
            final(self)@ == old(self)@.relocate(site, TargetView::ExternalFunctionPath(target@)),
    {
        self.relocations.push(
            Relocation { site: site, target: RelocationTarget::ExternalFunctionPath(target) },
        );
        assert(final(self)@.relocations =~= old(self)@.relocations.push(
            RelocationView { site: site, target: TargetView::ExternalFunctionPath(target@) },
        ));
    }

    pub fn add_branch_relocation(&mut self, site: SharedOp, target: SharedOp)
        ensures
            final(self)@ == old(self)@.relocate(site, TargetView::InternalBranchAddress(target)),
    {
        self.relocations.push(
            Relocation { site: site, target: RelocationTarget::InternalBranchAddress(target) },
        );
        assert(final(self)@.relocations =~= old(self)@.relocations.push(
            RelocationView { site: site, target: TargetView::InternalBranchAddress(target) },
        ));
    }

    pub fn add_const_relocation(&mut self, site: SharedOp, target: String)
        ensures
            final(self)@ == old(self)@.relocate(site, TargetView::ConstPath(target@)),
    {
        self.relocations.push(
            Relocation { site: site, target: RelocationTarget::ConstPath(target) },
        );
        assert(final(self)@.relocations =~= old(self)@.relocations.push(
            RelocationView { site: site, target: TargetView::ConstPath(target@) },
        ));
    }
}

/// Whether `result` and the module after it are what compiling is to give.
pub open spec fn lowered(
    result: Result<OpVec, CompileError>,
    after: ModuleView,
    expected: Result<(Seq<Op>, ModuleView), CompileErrorView>,
) -> bool {
    match expected {
        Ok((ops, m)) => result matches Ok(v) && v@ == ops && after == m,
        Err(error) => result matches Err(e) && e@ == error,
    }
}

pub trait Compile {
    /// The ops that the node puts into the function around it, and the
    /// module with what the node adds to it.
    spec fn lowering(&self, locals: Option<Seq<Seq<char>>>, m: ModuleView) -> Result<
        (Seq<Op>, ModuleView),
        CompileErrorView,
    >;

    fn compile(&self, lc: LocalContextRef, m: &mut Module) -> (result: Result<OpVec, CompileError>)
        ensures
            lowered(result, final(m)@, self.lowering(locals_of(lc), old(m)@)),
    ;
}

pub trait CompileToValue {
    /// The ops that push the value of the node, and the module with what the
    /// node adds to it.
    spec fn value_lowering(&self, locals: Option<Seq<Seq<char>>>, m: ModuleView) -> Result<
        (Seq<Op>, ModuleView),
        CompileErrorView,
    >;

    /// Generate a series of ops guaranteeing the introduction of 1 value at the top of the
    /// stack (to be consumed by subsequent op).
    fn compile_to_value(&self, lc: LocalContextRef, m: &mut Module) -> (result: Result<
        OpVec,
        CompileError,
    >)
        ensures
            lowered(result, final(m)@, self.value_lowering(locals_of(lc), old(m)@)),
    ;
}

/// An error in the first statements of a block is the error of the block.
proof fn lemma_lower_block_error(
    stmts: Seq<StatementView>,
    n: int,
    locals: Option<Seq<Seq<char>>>,
    m: ModuleView,
)
    requires
        0 <= n <= stmts.len(),
        lower_block(stmts.take(n), locals, m) is Err,
    ensures
        lower_block(stmts, locals, m) == lower_block(stmts.take(n), locals, m),
    decreases stmts.len() - n,
{
    if n < stmts.len() {
        assert(stmts.take(n + 1).drop_last() =~= stmts.take(n));
        lemma_lower_block_error(stmts, n + 1, locals, m);
    } else {
        assert(stmts.take(n) =~= stmts);
    }
}

/// An error in the first statements of a body is the error of collecting
/// its locals.
proof fn lemma_collect_locals_error(stmts: Seq<StatementView>, n: int)
    requires
        0 <= n <= stmts.len(),
        collect_locals(stmts.take(n)) is Err,
    ensures
        collect_locals(stmts) == collect_locals(stmts.take(n)),
    decreases stmts.len() - n,
{
    if n < stmts.len() {
        assert(stmts.take(n + 1).drop_last() =~= stmts.take(n));
        lemma_collect_locals_error(stmts, n + 1);
    } else {
        assert(stmts.take(n) =~= stmts);
    }
}

/// An error in the first arguments of a call is the error of the call.
proof fn lemma_lower_arguments_error(
    arguments: Seq<Seq<char>>,
    n: int,
    locals: Option<Seq<Seq<char>>>,
)
    requires
        0 <= n <= arguments.len(),
        lower_arguments(arguments.take(n), locals) is Err,
    ensures
        lower_arguments(arguments, locals) == lower_arguments(arguments.take(n), locals),
    decreases arguments.len() - n,
{
    if n < arguments.len() {
        assert(arguments.take(n + 1).drop_last() =~= arguments.take(n));
        lemma_lower_arguments_error(arguments, n + 1, locals);
    } else {
        assert(arguments.take(n) =~= arguments);
    }
}

impl assembly::BasicBlock {
    /// The locals of a function with this body, in the order in which its
    /// statements make them.
    pub fn collect_locals(&self) -> (result: Result<Locals, CompileError>)
        ensures
            match collect_locals(self@) {
                Ok(names) => result matches Ok(locals) && locals@ == names,
                Err(error) => result matches Err(e) && e@ == error,
            },
    {
        let mut locals = Locals::new();
        let ghost all = self@;
        proof {
            lemma_statements_view(self.stmts, self.stmts.len() as nat);
        }
        let mut i: usize = 0;
        while i < self.stmts.len()
            invariant
                i <= self.stmts.len(),
                all == self@,
                all.len() == self.stmts.len(),
                forall|j: int| 0 <= j < all.len() ==> #[trigger] all[j] == self.stmts@[j]@,
                collect_locals(all.take(i as int)) == Ok::<Seq<Seq<char>>, CompileErrorView>(
                    locals@,
                ),
            decreases self.stmts.len() - i,
        {
            proof {
                assert(all.take(i + 1).drop_last() =~= all.take(i as int));
                assert(all[i as int] == self.stmts@[i as int]@);
            }
            let added: Result<u16, CompileError> = match &self.stmts[i] {
                assembly::Statement::StatementAssignment(assg) => match assg.operator {
                    AssignmentOp::AllocateAndAssign => locals.add(assg.lvalue.clone()),
                    AssignmentOp::Plain => Ok(0),
                },
                assembly::Statement::StatementLocal(local) => locals.add(local.name.clone()),
                _ => Ok(0),
            };
            match added {
                Ok(_) => {},
                Err(error) => {
                    proof {
                        lemma_collect_locals_error(all, i + 1);
                    }
                    return Err(error);
                },
            }
            i = i + 1;
        }
        assert(all.take(i as int) =~= all);
        Ok(locals)
    }
}

/// The ops of a call as a value.
fn compile_call_to_value(call: &assembly::Call, lc: LocalContextRef, m: &mut Module) -> (result:
    Result<OpVec, CompileError>)
    ensures
        lowered(result, final(m)@, lower_call(call_view(*call), locals_of(lc), old(m)@)),
{
    let mut ops: OpVec = Vec::new();
    let ghost arguments = call.arguments.deep_view();
    let mut i: usize = 0;
    while i < call.arguments.len()
        invariant
            i <= call.arguments.len(),
            arguments == call.arguments.deep_view(),
            lower_arguments(arguments.take(i as int), locals_of(lc)) == Ok::<
                Seq<Op>,
                CompileErrorView,
            >(ops@),
            *m == *old(m),
        decreases call.arguments.len() - i,
    {
        proof {
            assert(arguments.take(i + 1).drop_last() =~= arguments.take(i as int));
            assert(arguments[i as int] == call.arguments@[i as int]@);
        }
        match find_local(lc, &call.arguments[i]) {
            Ok(idx) => {
                ops.push_owned(BGetLocal { idx: idx }.into_op());
            },
            Err(error) => {
                proof {
                    lemma_lower_arguments_error(arguments, i + 1, locals_of(lc));
                }
                return Err(error);
            },
        }
        i = i + 1;
    }
    assert(arguments.take(i as int) =~= arguments);
    if call.arguments.len() > 0xff {
        return Err(CompileError::TooManyArguments);
    }
    let num_args: u8 = call.arguments.len() as u8;
    let op = m.share(BCall { addr: 0, num_args: num_args }.into_op());
    m.add_call_relocation(op, call.path.to_string());
    ops.push_shared(op);
    Ok(ops)
}

/// The ops of the body of a function.
fn compile_function_body(body: &assembly::BasicBlock, m: &mut Module) -> (result: Result<
    OpVec,
    CompileError,
>)
    ensures
        lowered(result, final(m)@, lower_function_body(body@, old(m)@)),
    decreases body, 3nat,
{
    let locals = match body.collect_locals() {
        Ok(locals) => locals,
        Err(error) => {
            return Err(error);
        },
    };
    assert(locals@.len() <= 0xffff) by {
        lemma_collect_locals_fit(body@);
    }
    let entry = BFnEntry { num_locals: locals.len() as u16 };
    let mut ops: OpVec = Vec::new();
    ops.push_owned(entry.into_op());
    let lc = LocalContext { locals: locals };
    match compile_statements(&body.stmts, Some(&lc), m) {
        Ok(mut more) => {
            ops.append(&mut more);
            Ok(ops)
        },
        Err(error) => Err(error),
    }
}

/// The locals of a function fit its slots.
pub proof fn lemma_collect_locals_fit(stmts: Seq<StatementView>)
    ensures
        collect_locals(stmts) matches Ok(names) ==> names.len() <= 0xffff,
    decreases stmts.len(),
{
    if stmts.len() > 0 {
        lemma_collect_locals_fit(stmts.drop_last());
    }
}

/// The ops of a name as a value: the local of that name is pushed.
fn compile_name_to_value(name: &assembly::Name, lc: LocalContextRef) -> (result: Result<
    OpVec,
    CompileError,
>)
    ensures
        match slot_of(locals_of(lc), name@) {
            Ok(idx) => result matches Ok(ops) && ops@ == seq![
                Op::Owned(BOp::GetLocal(BGetLocal { idx: idx })),
            ],
            Err(error) => result matches Err(e) && e@ == error,
        },
{
    match find_local(lc, name) {
        Ok(idx) => {
            let mut ops: OpVec = Vec::new();
            ops.push_owned(BGetLocal { idx: idx }.into_op());
            assert(ops@ =~= seq![Op::Owned(BOp::GetLocal(BGetLocal { idx: idx }))]);
            Ok(ops)
        },
        Err(error) => Err(error),
    }
}

/// The ops of a value.
fn compile_value(value: &assembly::Value, lc: LocalContextRef, m: &mut Module) -> (result: Result<
    OpVec,
    CompileError,
>)
    ensures
        lowered(result, final(m)@, lower_value(value@, locals_of(lc), old(m)@)),
    decreases value, 0nat,
{
    match value {
        assembly::Value::Name(name) => compile_name_to_value(name, lc),
        assembly::Value::Path(path) => compile_path_to_value(path, m),
        assembly::Value::Fn(f) => compile_fn_to_value(f, m),
        assembly::Value::Call(call) => compile_call_to_value(call, lc, m),
    }
}

/// The ops of a path as a value: the path of a constant is loaded, and no
/// other path is a value.
fn compile_path_to_value(path: &assembly::Path, m: &mut Module) -> (result: Result<
    OpVec,
    CompileError,
>)
    ensures
        lowered(
            result,
            final(m)@,
            lower_value(crate::assembly::view::ValueView::Path(path@), None, old(m)@),
        ),
{
    let segments = path.segments();
    if !path.ends_with_const() {
        return Err(CompileError::UnsupportedValueForm(path.to_string()));
    }
    let op = m.share(BLoadConst { id: 0 }.into_op());
    m.add_const_relocation(op, path.to_string());
    let mut ops: OpVec = Vec::new();
    ops.push_shared(op);
    assert(ops@ =~= seq![Op::Shared(op)]);
    Ok(ops)
}

/// The ops of an anonymous function as a value: the function joins the
/// module, and its address is pushed.
fn compile_fn_to_value(f: &assembly::Fn, m: &mut Module) -> (result: Result<OpVec, CompileError>)
    ensures
        lowered(
            result,
            final(m)@,
            lower_value(crate::assembly::view::ValueView::Fn(fn_view(*f)), None, old(m)@),
        ),
    decreases f, 4nat,
{
    let body = match compile_function_body(&f.body, m) {
        Ok(body) => body,
        Err(error) => {
            return Err(error);
        },
    };
    let number = m.add_fn(Function { name: FunctionName::Anonymous, ops: body });
    let op = m.share(BPushAddress { addr: 0 }.into_op());
    m.add_function_relocation(op, number);
    let mut ops: OpVec = Vec::new();
    ops.push_shared(op);
    assert(ops@ =~= seq![Op::Shared(op)]);
    Ok(ops)
}

/// The ops of the statements, one after the other.
fn compile_statements(
    stmts: &Vec<assembly::Statement>,
    lc: LocalContextRef,
    m: &mut Module,
) -> (result: Result<OpVec, CompileError>)
    ensures
        lowered(
            result,
            final(m)@,
            lower_block(statements_view(*stmts, stmts.len() as nat), locals_of(lc), old(m)@),
        ),
    decreases stmts, 1nat,
{
    let ghost all = statements_view(*stmts, stmts.len() as nat);
    proof {
        lemma_statements_view(*stmts, stmts.len() as nat);
    }
    let mut ops: OpVec = Vec::new();
    let mut i: usize = 0;
    while i < stmts.len()
        invariant
            i <= stmts.len(),
            all == statements_view(*stmts, stmts.len() as nat),
            all.len() == stmts.len(),
            forall|j: int| 0 <= j < all.len() ==> #[trigger] all[j] == stmts@[j]@,
            lower_block(all.take(i as int), locals_of(lc), old(m)@) == Ok::<
                (Seq<Op>, ModuleView),
                CompileErrorView,
            >((ops@, m@)),
        decreases stmts.len() - i,
    {
        proof {
            assert(all.take(i + 1).drop_last() =~= all.take(i as int));
            assert(all[i as int] == stmts@[i as int]@);
        }
        match compile_statement(&stmts[i], lc, m) {
            Ok(mut more) => {
                ops.append(&mut more);
            },
            Err(error) => {
                proof {
                    lemma_lower_block_error(all, i + 1, locals_of(lc), old(m)@);
                }
                return Err(error);
            },
        }
        i = i + 1;
    }
    assert(all.take(i as int) =~= all);
    Ok(ops)
}

/// Compiles the body of the if condition. Since the `test` statement is last it will
/// push a value to the top of the stack. The first op is made a shared one.
fn compile_if_to_value(branch: &assembly::If, lc: LocalContextRef, m: &mut Module) -> (result:
    Result<OpVec, CompileError>)
    ensures
        match lower_block(branch.condition@, locals_of(lc), old(m)@) {
            Ok((tested, m1)) => result matches Ok(ops) && (ops@, final(m)@) == promote_entry(
                tested,
                m1,
            ),
            Err(error) => result matches Err(e) && e@ == error,
        },
    decreases branch, 2nat,
{
    let mut ops = match compile_statements(&branch.condition.stmts, lc, m) {
        Ok(ops) => ops,
        Err(error) => {
            return Err(error);
        },
    };
    if ops.len() > 0 {
        match ops[0] {
            Op::Owned(plain_entry) => {
                let entry = m.share(plain_entry);
                ops.set(0, Op::Shared(entry));
            },
            Op::Shared(_) => {},
        }
    }
    Ok(ops)
}

/// The ops of an `if` with its `then`.
fn compile_if(branch: &assembly::If, lc: LocalContextRef, m: &mut Module) -> (result: Result<
    OpVec,
    CompileError,
>)
    ensures
        lowered(
            result,
            final(m)@,
            lower_statement(
                StatementView::If {
                    condition: branch.condition@,
                    then_sibling: then_view(branch.then_sibling),
                },
                locals_of(lc),
                old(m)@,
            ),
        ),
    decreases branch, 3nat,
{
    let mut ops = match compile_if_to_value(branch, lc, m) {
        Ok(ops) => ops,
        Err(error) => {
            return Err(error);
        },
    };
    let ghost entered = ops@;
    let mut body = match compile_statements(&branch.then_sibling.body.stmts, lc, m) {
        Ok(body) => body,
        Err(error) => {
            return Err(error);
        },
    };
    let ghost then_ops = body@;
    let branch_if_not = m.share(BBranchIfNot { dest: 0 }.into_op());
    let noop = m.share(BOp::Noop);
    ops.push_shared(branch_if_not);  // Branch to the noop if it fails
    ops.append(&mut body);
    ops.push_shared(noop);  // Target if branch fails
    // Track that the branch-if-not needs to eventually point to the noop
    m.add_branch_relocation(branch_if_not, noop);
    assert(ops@ =~= entered.push(Op::Shared(branch_if_not)) + then_ops.push(Op::Shared(noop)));
    Ok(ops)
}

/// A `mod` statement names the module, once.
fn compile_mod(module: &assembly::Mod, m: &mut Module) -> (result: Result<OpVec, CompileError>)
    ensures
        lowered(
            result,
            final(m)@,
            lower_statement(module@, None, old(m)@),
        ),
{
    let fully_qualified_name = module.path.to_string();
    if m.name.as_str().is_empty() {
        m.name = fully_qualified_name;
        Ok(Vec::new())
    } else {
        Err(CompileError::ModRedefinition(m.name.clone()))
    }
}

/// A `const` statement joins the constants of the module.
fn compile_const(c: &assembly::Const, m: &mut Module) -> (result: Result<OpVec, CompileError>)
    ensures
        lowered(
            result,
            final(m)@,
            lower_statement(c@, None, old(m)@),
        ),
{
    let compiled: CompiledConst = (
        c.name.clone(),
        c.constructor.to_string(),
        match &c.argument {
            None => None,
            Some(text) => Some(text.clone()),
        },
    );
    m.consts.push(compiled);
    assert(final(m)@.consts =~= old(m)@.consts.push(const_view(compiled)));
    Ok(Vec::new())
}

/// A `static` statement joins the statics of the module.
fn compile_static(s: &assembly::Static, m: &mut Module) -> (result: Result<OpVec, CompileError>)
    ensures
        lowered(
            result,
            final(m)@,
            lower_statement(s@, None, old(m)@),
        ),
{
    m.statics.push(s.name.clone());
    assert(final(m)@.statics =~= old(m)@.statics.push(s.name@));
    Ok(Vec::new())
}

/// A `return` statement: the op alone. A value that the statement names is
/// not evaluated.
fn compile_return(r: &assembly::Return, m: &mut Module) -> (result: Result<OpVec, CompileError>)
    ensures
        lowered(
            result,
            final(m)@,
            lower_statement(r@, None, old(m)@),
        ),
{
    let mut ops: OpVec = Vec::new();
    ops.push_owned(BOp::Return);
    assert(ops@ =~= seq![Op::Owned(BOp::Return)]);
    Ok(ops)
}

/// An assignment: the value, then the store into the slot of the name.
fn compile_assignment(a: &assembly::Assignment, lc: LocalContextRef, m: &mut Module) -> (result:
    Result<OpVec, CompileError>)
    ensures
        lowered(
            result,
            final(m)@,
            lower_statement(a@, locals_of(lc), old(m)@),
        ),
    decreases a, 1nat,
{
    let idx = match find_local(lc, &a.lvalue) {
        Ok(idx) => idx,
        Err(error) => {
            return Err(error);
        },
    };
    match compile_value(&a.rvalue, lc, m) {
        Ok(mut ops) => {
            ops.push_owned(BSetLocal { idx: idx }.into_op());
            Ok(ops)
        },
        Err(error) => Err(error),
    }
}

/// A named function: its body joins the functions of the module, and
/// nothing is put into the function around it.
fn compile_defn(d: &assembly::Defn, m: &mut Module) -> (result: Result<OpVec, CompileError>)
    ensures
        lowered(
            result,
            final(m)@,
            lower_statement(d@, None, old(m)@),
        ),
    decreases d, 4nat,
{
    match compile_function_body(&d.body, m) {
        Ok(ops) => {
            m.add_defn(Function { name: FunctionName::Named(d.name.clone()), ops: ops });
            Ok(Vec::new())
        },
        Err(error) => Err(error),
    }
}

/// A call as a statement: the call, then its value is dropped.
fn compile_call(c: &assembly::Call, lc: LocalContextRef, m: &mut Module) -> (result: Result<
    OpVec,
    CompileError,
>)
    ensures
        lowered(
            result,
            final(m)@,
            lower_statement(StatementView::Call(call_view(*c)), locals_of(lc), old(m)@),
        ),
{
    match compile_call_to_value(c, lc, m) {
        Ok(mut ops) => {
            ops.push_owned(BOp::Pop);  // Pop the value since it won't be used
            Ok(ops)
        },
        Err(error) => Err(error),
    }
}

/// A `test` pushes its value onto the stack to be consumed by its condition
/// parent (if/while) node.
fn compile_test(t: &assembly::Test, lc: LocalContextRef, m: &mut Module) -> (result: Result<
    OpVec,
    CompileError,
>)
    ensures
        lowered(
            result,
            final(m)@,
            lower_statement(StatementView::Test { name: t.name@ }, locals_of(lc), old(m)@),
        ),
{
    compile_name_to_value(&t.name, lc)
}

/// The ops of a statement.
fn compile_statement(stmt: &assembly::Statement, lc: LocalContextRef, m: &mut Module) -> (result:
    Result<OpVec, CompileError>)
    ensures
        lowered(result, final(m)@, lower_statement(stmt@, locals_of(lc), old(m)@)),
    decreases stmt, 0nat,
{
    match stmt {
        assembly::Statement::StatementMod(module) => compile_mod(module, m),
        assembly::Statement::StatementExtern(_) => Ok(Vec::new()),
        assembly::Statement::StatementConst(c) => compile_const(c, m),
        assembly::Statement::StatementStatic(s) => compile_static(s, m),
        // No-op since we'll have already collected locals
        assembly::Statement::StatementLocal(_) => Ok(Vec::new()),
        assembly::Statement::StatementAssignment(a) => compile_assignment(a, lc, m),
        assembly::Statement::StatementDefn(d) => compile_defn(d, m),
        assembly::Statement::StatementCall(c) => compile_call(c, lc, m),
        assembly::Statement::StatementReturn(r) => compile_return(r, m),
        assembly::Statement::StatementTest(t) => compile_test(t, lc, m),
        assembly::Statement::StatementIf(i) => compile_if(i, lc, m),
        // Both `then` and `else` are handled by `if`
        assembly::Statement::StatementThen(_) => Ok(Vec::new()),
        assembly::Statement::StatementElse(_) => Ok(Vec::new()),
        assembly::Statement::StatementFn(_) => Err(CompileError::UnsupportedStatement),
        assembly::Statement::StatementWhile(_) => Err(CompileError::UnsupportedStatement),
        assembly::Statement::StatementDo(_) => Err(CompileError::UnsupportedStatement),
        assembly::Statement::StatementBreak => Err(CompileError::UnsupportedStatement),
    }
}

impl Compile for assembly::BasicBlock {
    open spec fn lowering(&self, locals: Option<Seq<Seq<char>>>, m: ModuleView) -> Result<
        (Seq<Op>, ModuleView),
        CompileErrorView,
    > {
        lower_block(self@, locals, m)
    }

    fn compile(
        &self,
        lc: LocalContextRef,
        m: &mut Module,
    ) -> (result: Result<OpVec, CompileError>) {
        compile_statements(&self.stmts, lc, m)
    }
}

impl Compile for assembly::Statement {
    open spec fn lowering(&self, locals: Option<Seq<Seq<char>>>, m: ModuleView) -> Result<
        (Seq<Op>, ModuleView),
        CompileErrorView,
    > {
        lower_statement(self@, locals, m)
    }

    fn compile(
        &self,
        lc: LocalContextRef,
        m: &mut Module,
    ) -> (result: Result<OpVec, CompileError>) {
        compile_statement(self, lc, m)
    }
}

impl Compile for assembly::Mod {
    open spec fn lowering(&self, locals: Option<Seq<Seq<char>>>, m: ModuleView) -> Result<
        (Seq<Op>, ModuleView),
        CompileErrorView,
    > {
        lower_statement(self@, locals, m)
    }

    fn compile(
        &self,
        lc: LocalContextRef,
        m: &mut Module,
    ) -> (result: Result<OpVec, CompileError>) {
        compile_mod(self, m)
    }
}

impl Compile for assembly::Const {
    open spec fn lowering(&self, locals: Option<Seq<Seq<char>>>, m: ModuleView) -> Result<
        (Seq<Op>, ModuleView),
        CompileErrorView,
    > {
        lower_statement(self@, locals, m)
    }

    fn compile(
        &self,
        lc: LocalContextRef,
        m: &mut Module,
    ) -> (result: Result<OpVec, CompileError>) {
        compile_const(self, m)
    }
}

impl Compile for assembly::Static {
    open spec fn lowering(&self, locals: Option<Seq<Seq<char>>>, m: ModuleView) -> Result<
        (Seq<Op>, ModuleView),
        CompileErrorView,
    > {
        lower_statement(self@, locals, m)
    }

    fn compile(
        &self,
        lc: LocalContextRef,
        m: &mut Module,
    ) -> (result: Result<OpVec, CompileError>) {
        compile_static(self, m)
    }
}

impl Compile for assembly::Call {
    open spec fn lowering(&self, locals: Option<Seq<Seq<char>>>, m: ModuleView) -> Result<
        (Seq<Op>, ModuleView),
        CompileErrorView,
    > {
        lower_statement(StatementView::Call(call_view(*self)), locals, m)
    }

    fn compile(
        &self,
        lc: LocalContextRef,
        m: &mut Module,
    ) -> (result: Result<OpVec, CompileError>) {
        compile_call(self, lc, m)
    }
}

impl Compile for assembly::Return {
    open spec fn lowering(&self, locals: Option<Seq<Seq<char>>>, m: ModuleView) -> Result<
        (Seq<Op>, ModuleView),
        CompileErrorView,
    > {
        lower_statement(self@, locals, m)
    }

    fn compile(
        &self,
        lc: LocalContextRef,
        m: &mut Module,
    ) -> (result: Result<OpVec, CompileError>) {
        compile_return(self, m)
    }
}

impl Compile for assembly::Assignment {
    open spec fn lowering(&self, locals: Option<Seq<Seq<char>>>, m: ModuleView) -> Result<
        (Seq<Op>, ModuleView),
        CompileErrorView,
    > {
        lower_statement(self@, locals, m)
    }

    fn compile(
        &self,
        lc: LocalContextRef,
        m: &mut Module,
    ) -> (result: Result<OpVec, CompileError>) {
        compile_assignment(self, lc, m)
    }
}

impl Compile for assembly::Defn {
    open spec fn lowering(&self, locals: Option<Seq<Seq<char>>>, m: ModuleView) -> Result<
        (Seq<Op>, ModuleView),
        CompileErrorView,
    > {
        lower_statement(self@, locals, m)
    }

    fn compile(
        &self,
        lc: LocalContextRef,
        m: &mut Module,
    ) -> (result: Result<OpVec, CompileError>) {
        compile_defn(self, m)
    }
}

impl Compile for assembly::If {
    open spec fn lowering(&self, locals: Option<Seq<Seq<char>>>, m: ModuleView) -> Result<
        (Seq<Op>, ModuleView),
        CompileErrorView,
    > {
        lower_statement(
            StatementView::If {
                condition: self.condition@,
                then_sibling: then_view(self.then_sibling),
            },
            locals,
            m,
        )
    }

    fn compile(
        &self,
        lc: LocalContextRef,
        m: &mut Module,
    ) -> (result: Result<OpVec, CompileError>) {
        compile_if(self, lc, m)
    }
}

impl Compile for assembly::Then {
    open spec fn lowering(&self, locals: Option<Seq<Seq<char>>>, m: ModuleView) -> Result<
        (Seq<Op>, ModuleView),
        CompileErrorView,
    > {
        lower_block(self.body@, locals, m)
    }

    fn compile(
        &self,
        lc: LocalContextRef,
        m: &mut Module,
    ) -> (result: Result<OpVec, CompileError>) {
        compile_statements(&self.body.stmts, lc, m)
    }
}

impl Compile for assembly::Test {
    open spec fn lowering(&self, locals: Option<Seq<Seq<char>>>, m: ModuleView) -> Result<
        (Seq<Op>, ModuleView),
        CompileErrorView,
    > {
        lower_statement(StatementView::Test { name: self.name@ }, locals, m)
    }

    fn compile(
        &self,
        lc: LocalContextRef,
        m: &mut Module,
    ) -> (result: Result<OpVec, CompileError>) {
        compile_test(self, lc, m)
    }
}

impl CompileToValue for assembly::Value {
    open spec fn value_lowering(&self, locals: Option<Seq<Seq<char>>>, m: ModuleView) -> Result<
        (Seq<Op>, ModuleView),
        CompileErrorView,
    > {
        lower_value(self@, locals, m)
    }

    fn compile_to_value(&self, lc: LocalContextRef, m: &mut Module) -> (result: Result<
        OpVec,
        CompileError,
    >) {
        compile_value(self, lc, m)
    }
}

impl CompileToValue for assembly::Path {
    open spec fn value_lowering(&self, locals: Option<Seq<Seq<char>>>, m: ModuleView) -> Result<
        (Seq<Op>, ModuleView),
        CompileErrorView,
    > {
        lower_value(crate::assembly::view::ValueView::Path(self@), locals, m)
    }

    fn compile_to_value(&self, lc: LocalContextRef, m: &mut Module) -> (result: Result<
        OpVec,
        CompileError,
    >) {
        compile_path_to_value(self, m)
    }
}

impl CompileToValue for assembly::Call {
    open spec fn value_lowering(&self, locals: Option<Seq<Seq<char>>>, m: ModuleView) -> Result<
        (Seq<Op>, ModuleView),
        CompileErrorView,
    > {
        lower_call(call_view(*self), locals, m)
    }

    fn compile_to_value(&self, lc: LocalContextRef, m: &mut Module) -> (result: Result<
        OpVec,
        CompileError,
    >) {
        compile_call_to_value(self, lc, m)
    }
}

impl CompileToValue for assembly::Fn {
    open spec fn value_lowering(&self, locals: Option<Seq<Seq<char>>>, m: ModuleView) -> Result<
        (Seq<Op>, ModuleView),
        CompileErrorView,
    > {
        lower_value(crate::assembly::view::ValueView::Fn(fn_view(*self)), locals, m)
    }

    fn compile_to_value(&self, lc: LocalContextRef, m: &mut Module) -> (result: Result<
        OpVec,
        CompileError,
    >) {
        compile_fn_to_value(self, m)
    }
}

pub enum CompiledRelocationTarget {
    InternalAddress(u64),
    ExternalFunctionPath(String),
    ConstPath(String),
}

impl View for CompiledRelocationTarget {
    type V = CompiledTargetView;

    open spec fn view(&self) -> CompiledTargetView {
        match self {
            CompiledRelocationTarget::InternalAddress(offset) => CompiledTargetView::InternalAddress(
                *offset,
            ),
            CompiledRelocationTarget::ExternalFunctionPath(
                path,
            ) => CompiledTargetView::ExternalFunctionPath(path@),
            CompiledRelocationTarget::ConstPath(path) => CompiledTargetView::ConstPath(path@),
        }
    }
}

pub struct CompiledModule {
    pub name: String,
    pub code: Vec<u8>,
    pub functions: Vec<(String, u64)>,
    pub consts: Vec<CompiledConst>,
    pub statics: Vec<String>,
    pub relocations: Vec<(u64, CompiledRelocationTarget)>,
}

pub type OpMap = HashMap<usize, u64>;

pub type FunctionMap = HashMap<usize, u64>;

pub type CompiledRelocationVec = Vec<(u64, CompiledRelocationTarget)>;

/// What the compiled relocations hold, in order.
pub open spec fn compiled_relocations_view(
    relocations: Seq<(u64, CompiledRelocationTarget)>,
) -> Seq<(u64, CompiledTargetView)> {
    Seq::new(relocations.len(), |i: int| (relocations[i].0, relocations[i].1@))
}

/// What the named functions hold, in order.
pub open spec fn named_view(functions: Seq<(String, u64)>) -> Seq<(Seq<char>, u64)> {
    Seq::new(functions.len(), |i: int| (functions[i].0@, functions[i].1))
}

impl View for CompiledModule {
    type V = CompiledModuleView;

    open spec fn view(&self) -> CompiledModuleView {
        CompiledModuleView {
            name: self.name@,
            code: self.code@,
            functions: named_view(self.functions@),
            consts: consts_view(self.consts@),
            statics: self.statics.deep_view(),
            relocations: compiled_relocations_view(self.relocations@),
        }
    }
}

pub trait CompileModule {
    /// What compiling gives.
    spec fn compiled(&self) -> Result<CompiledModuleView, CompileErrorView>;

    /// Compiles the module: an error where a statement cannot be compiled,
    /// else the compiled module, which is well formed.
    fn compile(&self) -> (result: Result<CompiledModule, CompileError>)
        ensures
            match self.compiled() {
                Ok(module) => result matches Ok(compiled) && compiled@ == module
                    && module.well_formed(),
                Err(error) => result matches Err(e) && e@ == error,
            },
    ;
}

/// A copy of the ops.
fn copy_ops(ops: &OpVec) -> (copy: OpVec)
    ensures
        copy@ == ops@,
{
    let mut copy: OpVec = Vec::new();
    let mut i: usize = 0;
    while i < ops.len()
        invariant
            i <= ops.len(),
            copy@ == ops@.take(i as int),
        decreases ops.len() - i,
    {
        copy.push(ops[i]);
        assert(copy@ =~= ops@.take(i + 1));
        i = i + 1;
    }
    assert(ops@.take(i as int) =~= ops@);
    copy
}

impl CompileModule for assembly::Module {
    open spec fn compiled(&self) -> Result<CompiledModuleView, CompileErrorView> {
        compile_module(self@)
    }

    fn compile(&self) -> (result: Result<CompiledModule, CompileError>) {
        let mut module = Module::new();
        let mut op_map: OpMap = HashMap::new();
        let mut function_map: FunctionMap = HashMap::new();
        let mut code: Vec<u8> = Vec::new();
        let mut functions: Vec<(String, u64)> = Vec::new();

        // Compile and ingest the top-level module statements
        let module_ops = match compile_statements(&self.stmts, None, &mut module) {
            Ok(ops) => ops,
            Err(error) => {
                return Err(error);
            },
        };
        let ghost top = module_ops@;
        let ghost m = module@;
        let ghost base = ops_size(top);
        self.ingest_ops(&mut code, module_ops, &mut op_map);
        let ghost first = op_map@;
        proof {
            lemma_ops_size(top);
            assert(code@ =~= ops_encoding(top));
            assert(function_map@ =~= function_addresses(m.functions.take(0), base));
            assert(named_view(functions@) =~= named_functions(m.functions.take(0), base, m.name));
        }

        // Ingest all the compiled functions; track their entry addresses in `function_map` and
        // in the module's symbol list
        let mut k: usize = 0;
        while k < module.functions.len()
            invariant
                k <= module.functions.len(),
                m == module@,
                base == ops_size(top),
                first == op_addresses(top, 0, Map::empty()),
                code@ == ops_encoding(top) + functions_encoding(m.functions.take(k as int)),
                code@.len() == base + functions_size(m.functions.take(k as int)),
                op_map@ == functions_op_addresses(m.functions.take(k as int), base, first),
                function_map@ == function_addresses(m.functions.take(k as int), base),
                named_view(functions@) == named_functions(
                    m.functions.take(k as int),
                    base,
                    m.name,
                ),
            decreases module.functions.len() - k,
        {
            let ghost before = m.functions.take(k as int);
            let ghost longer = m.functions.take(k + 1);
            // This will be the address of the `BFnEntry` op
            let addr: u64 = code.len() as u64;
            function_map.insert(k, addr);
            let f = &module.functions[k];
            proof {
                assert(longer.drop_last() =~= before);
                assert(longer.last() == m.functions[k as int]);
                assert(m.functions[k as int] == f@);
                lemma_functions_size(before);
                lemma_ops_size(f@.ops);
                assert forall|j: int| 0 <= j <= k implies #[trigger] longer.take(j) == m.functions.take(
                    j,
                ) by {
                    assert(longer.take(j) =~= m.functions.take(j));
                }
                assert forall|j: int| 0 <= j < k implies #[trigger] before.take(j) == m.functions.take(
                    j,
                ) by {
                    assert(before.take(j) =~= m.functions.take(j));
                }
                assert(function_map@ =~= function_addresses(longer, base));
            }
            match &f.name {
                FunctionName::Named(name) => {
                    let mut full: String = module.name.clone();
                    full.append(".");
                    full.append(name.as_str());
                    proof {
                        reveal_strlit(".");
                        assert(full@ =~= qualified(m.name, name@));
                    }
                    let ghost listed = named_view(functions@);
                    functions.push((full, addr));
                    assert(named_view(functions@) =~= listed.push((full@, addr)));
                },
                FunctionName::Anonymous => {},
            }
            let function_ops = copy_ops(&f.ops);
            self.ingest_ops(&mut code, function_ops, &mut op_map);
            assert(code@ =~= ops_encoding(top) + functions_encoding(longer));
            k = k + 1;
        }
        let code_len: usize = code.len();
        let shared_len: usize = module.shared.len();
        proof {
            assert(m.functions.take(k as int) =~= m.functions);
            lemma_lower_block_sound(self@, None, ModuleView::empty());
            lemma_assemble_well_formed(top, m);
            assert forall|i: int| 0 <= i < module.relocations@.len() implies resolvable(
                (#[trigger] module.relocations@[i])@,
                op_map@,
                function_map@,
            ) by {
                assert(m.relocations[i] == module.relocations@[i]@);
            }
        }
        let relocations = self.resolve_relocations(module.relocations, &op_map, &function_map);
        Ok(
            CompiledModule {
                name: module.name,
                code: code,
                functions: functions,
                consts: module.consts,
                statics: module.statics,
                relocations: relocations,
            },
        )
    }
}

impl assembly::Module {
    /// Take a vector of higher-level owned and shared `Op`s and compile them down to bytecode.
    /// Also notes the module-local addresses of shared `Op`s for later relocation in an `OpMap`.
    pub fn ingest_ops(&self, bytecode: &mut Vec<u8>, ops: OpVec, op_map: &mut OpMap)
        ensures
            final(bytecode)@ == old(bytecode)@ + ops_encoding(ops@),
            final(op_map)@ == op_addresses(ops@, old(bytecode)@.len() as int, old(op_map)@),
    {
        let ghost base = bytecode@.len() as int;
        let mut i: usize = 0;
        assert(bytecode@ =~= old(bytecode)@ + ops_encoding(ops@.take(0)));
        while i < ops.len()
            invariant
                i <= ops.len(),
                base == old(bytecode)@.len(),
                bytecode@ == old(bytecode)@ + ops_encoding(ops@.take(i as int)),
                op_map@ == op_addresses(ops@.take(i as int), base, old(op_map)@),
            decreases ops.len() - i,
        {
            proof {
                assert(ops@.take(i + 1).drop_last() =~= ops@.take(i as int));
                lemma_ops_size(ops@.take(i as int));
            }
            match ops[i] {
                Op::Owned(op) => {
                    let mut encoded = op.to_binary();
                    bytecode.append(&mut encoded);
                },
                Op::Shared(shared) => {
                    // Length of the vec will be the first address of the op we're inserting
                    let addr: u64 = bytecode.len() as u64;
                    op_map.insert(shared.id, addr);
                    let mut encoded = shared.op.to_binary();
                    bytecode.append(&mut encoded);
                },
            }
            assert(bytecode@ =~= old(bytecode)@ + ops_encoding(ops@.take(i + 1)));
            i = i + 1;
        }
        assert(ops@.take(i as int) =~= ops@);
    }

    /// Resolves abstract relocations (`Relocation`) into a vector of concrete, address-based
    /// relocations (`CompiledRelocationVec`) suitable for loading and linking into a
    /// virtual machine instance. Each relocation must find in the maps the
    /// address of its site, and that of its target where that is an op or a
    /// function.
    pub fn resolve_relocations(
        &self,
        relocations: Vec<Relocation>,
        op_map: &OpMap,
        function_map: &FunctionMap,
    ) -> (compiled: CompiledRelocationVec)
        requires
            forall|i: int|
                0 <= i < relocations@.len() ==> resolvable(
                    (#[trigger] relocations@[i])@,
                    op_map@,
                    function_map@,
                ),
        ensures
            compiled_relocations_view(compiled@) == resolve_all(
                relocations_view(relocations@),
                op_map@,
                function_map@,
            ),
    {
        // Resolve all the relocations
        let mut compiled_relocations: CompiledRelocationVec = Vec::new();
        let mut relocations = relocations;
        let ghost all = relocations@;
        let ghost expected = resolve_all(relocations_view(all), op_map@, function_map@);
        let mut i: usize = 0;
        while i < relocations.len()
            invariant
                i <= relocations.len(),
                relocations@.len() == all.len(),
                forall|j: int| i <= j < all.len() ==> relocations@[j] == all[j],
                forall|j: int|
                    0 <= j < all.len() ==> resolvable(
                        (#[trigger] all[j])@,
                        op_map@,
                        function_map@,
                    ),
                expected == resolve_all(relocations_view(all), op_map@, function_map@),
                compiled_relocations@.len() == i,
                forall|j: int|
                    0 <= j < i ==> (
                    (#[trigger] compiled_relocations@[j]).0,
                    compiled_relocations@[j].1@,
                    ) == expected[j],
            decreases relocations.len() - i,
        {
            let relocation = &relocations[i];
            assert(resolvable(all[i as int]@, op_map@, function_map@));
            let site = relocation.site;
            let site_base_address: u64 = match op_map.get(&site.id) {
                Some(addr) => *addr,
                None => 0,
            };
            // Right now all ops have a max of 1 address
            let site_address: u64 = site_base_address + site.op.addr_field_offset(0);
            let target = match &relocation.target {
                RelocationTarget::InternalBranchAddress(op) => {
                    let target_addr: u64 = match op_map.get(&op.id) {
                        Some(addr) => *addr,
                        None => 0,
                    };
                    CompiledRelocationTarget::InternalAddress(target_addr)
                },
                RelocationTarget::InternalFunctionAddress(number) => {
                    let target_addr: u64 = match function_map.get(number) {
                        Some(addr) => *addr,
                        None => 0,
                    };
                    CompiledRelocationTarget::InternalAddress(target_addr)
                },
                RelocationTarget::ExternalFunctionPath(path) => {
                    CompiledRelocationTarget::ExternalFunctionPath(path.clone())
                },
                RelocationTarget::ConstPath(path) => CompiledRelocationTarget::ConstPath(
                    path.clone(),
                ),
            };
            compiled_relocations.push((site_address, target));
            i = i + 1;
        }
        assert(compiled_relocations_view(compiled_relocations@) =~= expected);
        compiled_relocations
    }
}

} // verus!
