use super::bytecode::types::Addr;
use super::bytecode::util::patch_addr;
use super::model::{
    bind_consts, bind_functions, bind_statics, load, loaded_symbols, relocate_all, relocated,
    resolve_constructors, static_symbol, value_at, with_static_cells, FrameView, LoadErrorView,
    MachineView, PRIMITIVE_BASE,
};
pub use super::model::{PrimitiveFn, SymbolKind, TableValue};
use crate::asm_compiler::model::{qualified, CompiledTargetView};
use crate::asm_compiler::{
    const_view, consts_view, CompiledConst, CompiledModule, CompiledRelocationTarget,
};
use crate::assembly::view::text_view;
use crate::assembly::starts_with_char;
use vstd::prelude::*;
use vstd::string::StringExecFns;

verus! {

/// A value on the heap of the host.
pub type ValueBox<T> = Box<T>;

/// Untyped pointer to a value: a word that the machine hands on and never
/// looks into, but to tell the null pointer from the others.
pub type ValuePointer = u64;

/// The fully-qualified name of a symbol.
pub type TableKey = String;

/// The map that a list of bindings stands for: a later binding of a name
/// takes the place of an earlier one.
pub open spec fn bindings_map(bindings: Seq<(TableKey, TableValue)>) -> Map<Seq<char>, TableValue>
    decreases bindings.len(),
{
    if bindings.len() == 0 {
        Map::empty()
    } else {
        bindings_map(bindings.drop_last()).insert(bindings.last().0@, bindings.last().1)
    }
}

impl TableValue {
    /// The address at which the value is called: that of a defined function,
    /// or the one that stands for a primitive; none for a constant or a
    /// static.
    pub fn as_addr(&self) -> (addr: Option<u64>)
        ensures
            addr == self.spec_as_addr(),
    {
        match self {
            TableValue::Defn(addr) => Some(*addr),
            TableValue::Primitive(f) => Some(PRIMITIVE_BASE + f.0 as u64),
            _ => None,
        }
    }

    /// The pointer of the value: that of a constant or of a static; none for
    /// a function.
    pub fn as_pointer(&self) -> (pointer: Option<u64>)
        ensures
            pointer == self.spec_as_pointer(),
    {
        match self {
            TableValue::Const(pointer) => Some(*pointer),
            TableValue::Static(pointer) => Some(*pointer),
            _ => None,
        }
    }

    /// The kind of the value.
    pub fn kind(&self) -> (kind: SymbolKind)
        ensures
            kind == self.spec_kind(),
    {
        match self {
            TableValue::Const(_) => SymbolKind::Const,
            TableValue::Static(_) => SymbolKind::Static,
            TableValue::Defn(_) => SymbolKind::Defn,
            TableValue::Primitive(_) => SymbolKind::Primitive,
        }
    }

    pub fn with_fn(f: PrimitiveFn) -> (value: Self)
        ensures
            value == TableValue::Primitive(f),
    {
        TableValue::Primitive(f)
    }
}

/// Maps keys (fully-qualified paths) to various values (consts, statics, defined functions, and
/// primitive functions)
pub struct SymbolTable {
    table: Vec<(TableKey, TableValue)>,
}

impl View for SymbolTable {
    type V = Map<Seq<char>, TableValue>;

    closed spec fn view(&self) -> Map<Seq<char>, TableValue> {
        bindings_map(self.table@)
    }
}

impl Clone for SymbolTable {
    fn clone(&self) -> (copy: Self)
        ensures
            copy@ == self@,
    {
        let mut table: Vec<(TableKey, TableValue)> = Vec::new();
        let mut i: usize = 0;
        while i < self.table.len()
            invariant
                i <= self.table.len(),
                table.len() == i,
                bindings_map(table@) == bindings_map(self.table@.take(i as int)),
            decreases self.table.len() - i,
        {
            let ghost before = table@;
            table.push((self.table[i].0.clone(), self.table[i].1));
            proof {
                assert(table@.drop_last() =~= before);
                assert(self.table@.take(i + 1).drop_last() =~= self.table@.take(i as int));
            }
            i = i + 1;
        }
        assert(self.table@.take(i as int) =~= self.table@);
        SymbolTable { table: table }
    }
}

impl SymbolTable {
    pub fn new() -> (table: SymbolTable)
        ensures
            table@ == Map::<Seq<char>, TableValue>::empty(),
    {
        SymbolTable { table: Vec::new() }
    }

    /// The place of the binding of `symbol` that counts: the last one.
    fn position(&self, symbol: &TableKey) -> (at: Option<usize>)
        ensures
            match at {
                Some(i) => i < self.table@.len() && self@.contains_key(symbol@) && self@[symbol@]
                    == self.table@[i as int].1,
                None => !self@.contains_key(symbol@),
            },
    {
        let mut i: usize = self.table.len();
        assert(self.table@.take(i as int) =~= self.table@);
        while i > 0
            invariant
                i <= self.table.len(),
                self@.contains_key(symbol@) == bindings_map(self.table@.take(i as int)).contains_key(
                    symbol@,
                ),
                self@.contains_key(symbol@) ==> self@[symbol@] == bindings_map(
                    self.table@.take(i as int),
                )[symbol@],
            decreases i,
        {
            proof {
                assert(self.table@.take(i as int).drop_last() =~= self.table@.take(i - 1));
            }
            if self.table[i - 1].0 == *symbol {
                return Some(i - 1);
            }
            i = i - 1;
        }
        None
    }

    pub fn has_symbol(&self, symbol: &TableKey) -> (has: bool)
        ensures
            has == self@.contains_key(symbol@),
    {
        self.position(symbol).is_some()
    }

    /// The value that `symbol` is bound to, if it is bound.
    pub fn find_symbol(&self, symbol: &TableKey) -> (value: Option<TableValue>)
        ensures
            match value {
                Some(v) => self@.contains_key(symbol@) && self@[symbol@] == v,
                None => !self@.contains_key(symbol@),
            },
    {
        match self.position(symbol) {
            Some(i) => Some(self.table[i].1),
            None => None,
        }
    }

    /// The value that `symbol` is bound to, for a symbol that is bound.
    pub fn lookup_symbol(&self, symbol: &TableKey) -> (value: &TableValue)
        requires
            self@.contains_key(symbol@),
        ensures
            *value == self@[symbol@],
    {
        match self.position(symbol) {
            Some(i) => &self.table[i].1,
            None => &self.table[0].1,
        }
    }

    pub fn set_symbol(&mut self, symbol: &TableKey, value: TableValue)
        ensures
            final(self)@ == old(self)@.insert(symbol@, value),
    {
        self.table.push((symbol.clone(), value));
        assert(self.table@.drop_last() =~= old(self).table@);
    }
}

/// Frame on the call stack
pub struct Frame {
    pub return_addr: Addr,
    pub args: Vec<ValuePointer>,
    pub slots: Vec<ValuePointer>,
}

impl View for Frame {
    type V = FrameView;

    open spec fn view(&self) -> FrameView {
        FrameView { return_addr: self.return_addr, args: self.args@, slots: self.slots@ }
    }
}

/// What the frames hold, in order.
pub open spec fn frames_view(frames: Seq<Frame>) -> Seq<FrameView> {
    Seq::new(frames.len(), |i: int| frames[i]@)
}

/// The actual virtual machine
pub struct Machine {
    /// Bytecode stored in the virtual machine
    pub code: Vec<u8>,
    pub call_stack: Vec<Frame>,
    /// Instruction pointer (address of the instruction to be/being executed)
    pub ip: Addr,
    pub stack: Vec<ValuePointer>,
    pub symbol_table: SymbolTable,
    /// The cells of the machine's own memory: the boxed addresses and the
    /// statics. The pointer of a cell is its place here plus one.
    pub cells: Vec<u64>,
}

impl View for Machine {
    type V = MachineView;

    open spec fn view(&self) -> MachineView {
        MachineView {
            code: self.code@,
            call_stack: frames_view(self.call_stack@),
            ip: self.ip,
            stack: self.stack@,
            symbols: self.symbol_table@,
            cells: self.cells@,
        }
    }
}

/// Why a module could not be loaded.
#[derive(Debug, PartialEq)]
pub enum LoadError {
    /// No symbol is bound under the path.
    UnresolvedSymbol(String),
    /// The symbol under the path is of another kind than the one that is
    /// needed there: the path, the kind that is needed, the kind that it is.
    WrongSymbolKind(String, SymbolKind, SymbolKind),
    /// The constructor of the constant with this name gave no value.
    ConstructorDidNotProduceValue(String),
}

impl View for LoadError {
    type V = LoadErrorView;

    open spec fn view(&self) -> LoadErrorView {
        match self {
            LoadError::UnresolvedSymbol(path) => LoadErrorView::UnresolvedSymbol(path@),
            LoadError::WrongSymbolKind(path, expected, actual) => LoadErrorView::WrongSymbolKind(
                path@,
                *expected,
                *actual,
            ),
            LoadError::ConstructorDidNotProduceValue(name) => LoadErrorView::ConstructorDidNotProduceValue(
                name@,
            ),
        }
    }
}

/// A constant to be made: its name, the primitive that makes it, and the
/// argument of the primitive.
pub type ConstConstructor = (String, PrimitiveFn, Option<String>);

/// What the constructors hold, in order.
pub open spec fn constructors_view(constructors: Seq<ConstConstructor>) -> Seq<
    (Seq<char>, PrimitiveFn, Option<Seq<char>>),
> {
    Seq::new(
        constructors.len(),
        |i: int| (constructors[i].0@, constructors[i].1, text_view(constructors[i].2)),
    )
}

/// The name of an item of a module: the name of the module, a period, the
/// name of the item.
fn qualify(module: &String, name: &String) -> (full: String)
    ensures
        full@ == qualified(module@, name@),
{
    let mut full: String = module.clone();
    full.append(".");
    full.append(name.as_str());
    proof {
        reveal_strlit(".");
        assert(full@ =~= qualified(module@, name@));
    }
    full
}

/// The name under which a static of a module is bound.
fn static_name(module: &String, name: &String) -> (full: String)
    ensures
        full@ == static_symbol(module@, name@),
{
    if starts_with_char(name, '$') {
        qualify(module, name)
    } else {
        let mut full: String = module.clone();
        full.append(".$");
        full.append(name.as_str());
        proof {
            reveal_strlit(".$");
            assert(full@ =~= module@ + seq!['.', '$'] + name@);
        }
        full
    }
}

/// An error in the first constants is the error of them all.
proof fn lemma_resolve_constructors_error(
    symbols: Map<Seq<char>, TableValue>,
    consts: Seq<(Seq<char>, Seq<char>, Option<Seq<char>>)>,
    n: int,
)
    requires
        0 <= n <= consts.len(),
        resolve_constructors(symbols, consts.take(n)) is Err,
    ensures
        resolve_constructors(symbols, consts) == resolve_constructors(symbols, consts.take(n)),
    decreases consts.len() - n,
{
    if n < consts.len() {
        assert(consts.take(n + 1).drop_last() =~= consts.take(n));
        lemma_resolve_constructors_error(symbols, consts, n + 1);
    } else {
        assert(consts.take(n) =~= consts);
    }
}

proof fn lemma_bind_consts_error(
    symbols: Map<Seq<char>, TableValue>,
    module: Seq<char>,
    consts: Seq<(Seq<char>, Seq<char>, Option<Seq<char>>)>,
    values: Seq<Option<u64>>,
    n: int,
)
    requires
        0 <= n <= consts.len(),
        bind_consts(symbols, module, consts.take(n), values) is Err,
    ensures
        bind_consts(symbols, module, consts, values) == bind_consts(
            symbols,
            module,
            consts.take(n),
            values,
        ),
    decreases consts.len() - n,
{
    if n < consts.len() {
        assert(consts.take(n + 1).drop_last() =~= consts.take(n));
        lemma_bind_consts_error(symbols, module, consts, values, n + 1);
    } else {
        assert(consts.take(n) =~= consts);
    }
}

proof fn lemma_relocate_all_error(
    code: Seq<u8>,
    base: int,
    module: Seq<char>,
    relocations: Seq<(u64, CompiledTargetView)>,
    symbols: Map<Seq<char>, TableValue>,
    n: int,
)
    requires
        0 <= n <= relocations.len(),
        relocate_all(code, base, module, relocations.take(n), symbols) is Err,
    ensures
        relocate_all(code, base, module, relocations, symbols) == relocate_all(
            code,
            base,
            module,
            relocations.take(n),
            symbols,
        ),
    decreases relocations.len() - n,
{
    if n < relocations.len() {
        assert(relocations.take(n + 1).drop_last() =~= relocations.take(n));
        lemma_relocate_all_error(code, base, module, relocations, symbols, n + 1);
    } else {
        assert(relocations.take(n) =~= relocations);
    }
}

/// The address that a relocation puts at its site.
fn resolve_target(
    target: &CompiledRelocationTarget,
    base: u64,
    module: &String,
    symbols: &SymbolTable,
) -> (result: Result<u64, LoadError>)
    requires
        target@ matches CompiledTargetView::InternalAddress(offset) ==> base + offset <= u64::MAX,
    ensures
        match relocated(target@, base as int, module@, symbols@) {
            Ok(addr) => result == Ok::<u64, LoadError>(addr),
            Err(error) => result matches Err(e) && e@ == error,
        },
{
    match target {
        CompiledRelocationTarget::InternalAddress(offset) => Ok(base + *offset),
        CompiledRelocationTarget::ExternalFunctionPath(path) => match symbols.find_symbol(path) {
            None => Err(LoadError::UnresolvedSymbol(path.clone())),
            Some(value) => match value.as_addr() {
                Some(addr) => Ok(addr),
                None => Err(
                    LoadError::WrongSymbolKind(path.clone(), SymbolKind::Defn, value.kind()),
                ),
            },
        },
        CompiledRelocationTarget::ConstPath(path) => {
            let is_local = starts_with_char(path, '@') || starts_with_char(path, '$');
            let full: String = if is_local {
                qualify(module, path)
            } else {
                path.clone()
            };
            match symbols.find_symbol(&full) {
                None => Err(LoadError::UnresolvedSymbol(full)),
                Some(value) => match value.as_pointer() {
                    Some(pointer) => Ok(pointer),
                    None => Err(LoadError::WrongSymbolKind(full, SymbolKind::Const, value.kind())),
                },
            }
        },
    }
}

impl CompiledModule {
    /// Whether the module can be loaded: the eight bytes at each site lie
    /// within its code, and so does every offset.
    pub fn is_loadable(&self) -> (loadable: bool)
        ensures
            loadable == self@.loadable(),
    {
        let len: usize = self.code.len();
        let mut i: usize = 0;
        while i < self.functions.len()
            invariant
                i <= self.functions.len(),
                len == self.code@.len(),
                forall|j: int| 0 <= j < i ==> (#[trigger] self@.functions[j]).1 <= len,
            decreases self.functions.len() - i,
        {
            if self.functions[i].1 > len as u64 {
                assert(self@.functions[i as int].1 > len);
                return false;
            }
            assert(self@.functions[i as int].1 <= len);
            i = i + 1;
        }
        let mut k: usize = 0;
        while k < self.relocations.len()
            invariant
                k <= self.relocations.len(),
                len == self.code@.len(),
                forall|j: int| 0 <= j < self@.functions.len() ==> (#[trigger] self@.functions[j]).1 <= len,
                forall|j: int| 0 <= j < k ==> (#[trigger] self@.relocations[j]).0 + 8 <= len,
                forall|j: int|
                    0 <= j < k ==> (
                    (#[trigger] self@.relocations[j]).1 matches CompiledTargetView::InternalAddress(
                        offset,
                    ) ==> offset <= len),
            decreases self.relocations.len() - k,
        {
            let site: u64 = self.relocations[k].0;
            assert(self@.relocations[k as int].0 == site);
            assert(self@.relocations[k as int].1 == self.relocations@[k as int].1@);
            if len < 8 || site > (len - 8) as u64 {
                return false;
            }
            match &self.relocations[k].1 {
                CompiledRelocationTarget::InternalAddress(offset) => {
                    if *offset > len as u64 {
                        return false;
                    }
                },
                _ => {},
            }
            k = k + 1;
        }
        true
    }
}

impl Machine {
    /// A machine with nothing in it.
    pub fn empty() -> (machine: Machine)
        ensures
            machine@ == (MachineView {
                code: Seq::empty(),
                call_stack: Seq::empty(),
                ip: 0,
                stack: Seq::empty(),
                symbols: Map::empty(),
                cells: Seq::empty(),
            }),
    {
        let machine = Machine {
            code: Vec::new(),
            call_stack: Vec::new(),
            ip: 0,
            stack: Vec::new(),
            symbol_table: SymbolTable::new(),
            cells: Vec::new(),
        };
        assert(machine@.call_stack =~= Seq::empty());
        machine
    }

    /// The constructors of the constants, in order: each constant with the
    /// primitive that its constructor path is bound to. The first path that is
    /// not bound, or not to a primitive, is an error.
    pub fn resolve_const_constructors(
        symbol_table: &SymbolTable,
        consts: &Vec<CompiledConst>,
    ) -> (result: Result<Vec<ConstConstructor>, LoadError>)
        ensures
            match resolve_constructors(symbol_table@, consts_view(consts@)) {
                Ok(constructors) => result matches Ok(found) && constructors_view(found@)
                    == constructors,
                Err(error) => result matches Err(e) && e@ == error,
            },
    {
        let ghost all = consts_view(consts@);
        let mut constructors: Vec<ConstConstructor> = Vec::new();
        let mut i: usize = 0;
        assert(constructors_view(constructors@) =~= Seq::empty());
        while i < consts.len()
            invariant
                i <= consts.len(),
                all == consts_view(consts@),
                resolve_constructors(symbol_table@, all.take(i as int)) == Ok::<
                    Seq<(Seq<char>, PrimitiveFn, Option<Seq<char>>)>,
                    LoadErrorView,
                >(constructors_view(constructors@)),
            decreases consts.len() - i,
        {
            proof {
                assert(all.take(i + 1).drop_last() =~= all.take(i as int));
                assert(all[i as int] == const_view(consts@[i as int]));
            }
            let compiled_const = &consts[i];
            let constructor: PrimitiveFn = match symbol_table.find_symbol(&compiled_const.1) {
                None => {
                    proof {
                        lemma_resolve_constructors_error(symbol_table@, all, i + 1);
                    }
                    return Err(LoadError::UnresolvedSymbol(compiled_const.1.clone()));
                },
                Some(TableValue::Primitive(primitive_fn)) => primitive_fn,
                Some(other) => {
                    proof {
                        lemma_resolve_constructors_error(symbol_table@, all, i + 1);
                    }
                    return Err(
                        LoadError::WrongSymbolKind(
                            compiled_const.1.clone(),
                            SymbolKind::Primitive,
                            other.kind(),
                        ),
                    );
                },
            };
            let argument: Option<String> = match &compiled_const.2 {
                None => None,
                Some(text) => Some(text.clone()),
            };
            let ghost before = constructors_view(constructors@);
            constructors.push((compiled_const.0.clone(), constructor, argument));
            assert(constructors_view(constructors@) =~= before.push(
                (all[i as int].0, constructor, all[i as int].2),
            ));
            i = i + 1;
        }
        assert(all.take(i as int) =~= all);
        Ok(constructors)
    }

    /// Binds the constants of the module to the values that their
    /// constructors have given, the constant number `i` to the value number
    /// `i`. The first constant without a value is an error, and nothing is
    /// bound then.
    pub fn load_consts(
        &mut self,
        compiled_module: &CompiledModule,
        values: &Vec<Option<ValuePointer>>,
    ) -> (result: Result<(), LoadError>)
        ensures
            match bind_consts(
                old(self)@.symbols,
                compiled_module@.name,
                compiled_module@.consts,
                values@,
            ) {
                Ok(symbols) => result is Ok && final(self)@ == (MachineView {
                    symbols: symbols,
                    ..old(self)@
                }),
                Err(error) => result matches Err(e) && e@ == error && final(self)@ == old(self)@,
            },
    {
        let mut symbols = self.symbol_table.clone();
        match bind_consts_in(&mut symbols, compiled_module, values) {
            Ok(()) => {
                self.symbol_table = symbols;
                Ok(())
            },
            Err(error) => Err(error),
        }
    }
}

/// Binds the constants of the module in `symbols`.
fn bind_consts_in(
    symbols: &mut SymbolTable,
    compiled_module: &CompiledModule,
    values: &Vec<Option<ValuePointer>>,
) -> (result: Result<(), LoadError>)
    ensures
        match bind_consts(
            old(symbols)@,
            compiled_module@.name,
            compiled_module@.consts,
            values@,
        ) {
            Ok(bound) => result is Ok && final(symbols)@ == bound,
            Err(error) => result matches Err(e) && e@ == error,
        },
{
    let ghost all = consts_view(compiled_module.consts@);
    let ghost start = symbols@;
    let mut i: usize = 0;
    while i < compiled_module.consts.len()
        invariant
            i <= compiled_module.consts.len(),
            all == consts_view(compiled_module.consts@),
            start == old(symbols)@,
            bind_consts(start, compiled_module@.name, all.take(i as int), values@) == Ok::<
                Map<Seq<char>, TableValue>,
                LoadErrorView,
            >(symbols@),
        decreases compiled_module.consts.len() - i,
    {
        proof {
            assert(all.take(i + 1).drop_last() =~= all.take(i as int));
            assert(all[i as int] == const_view(compiled_module.consts@[i as int]));
            assert(all.take(i + 1).last() == all[i as int]);
            assert(all.take(i + 1).len() == i + 1);
        }
        // Build a fully-qualified name
        let name = qualify(&compiled_module.name, &compiled_module.consts[i].0);
        let value: Option<ValuePointer> = if i < values.len() {
            values[i]
        } else {
            None
        };
        match value {
            Some(pointer) => {
                symbols.set_symbol(&name, TableValue::Const(pointer));
            },
            None => {
                proof {
                    assert(value_at(values@, i as int) is None);
                    assert(bind_consts(start, compiled_module@.name, all.take(i + 1), values@)
                        == Err::<Map<Seq<char>, TableValue>, LoadErrorView>(
                        LoadErrorView::ConstructorDidNotProduceValue(name@),
                    ));
                    lemma_bind_consts_error(start, compiled_module@.name, all, values@, i + 1);
                }
                return Err(LoadError::ConstructorDidNotProduceValue(name));
            },
        }
        i = i + 1;
    }
    assert(all.take(i as int) =~= all);
    Ok(())
}

/// Ways for modules to be loaded into machines.
pub trait ModuleLoad {
    /// What the machine holds.
    spec fn machine(&self) -> MachineView;

    /// Load a compiled module into a machine. Performs the following operations:
    ///
    /// - Adds module's bytecode to the machine's program data storage
    /// - Adds module's exported symbols (functions, consts, statics) to machine's symbol table
    /// - Resolves the modules relocations into concrete addresses/indices
    ///
    /// The constants are bound to `values`, which are what their
    /// constructors have given: the constant number `i` to the value number
    /// `i`. Where the module cannot be loaded the machine stays as it was.
    fn load_module(
        &mut self,
        compiled: &CompiledModule,
        values: &Vec<Option<ValuePointer>>,
    ) -> (result: Result<(), LoadError>)
        requires
            compiled@.loadable(),
        ensures
            match load(old(self).machine(), compiled@, values@) {
                Ok(machine) => result is Ok && final(self).machine() == machine,
                Err(error) => result matches Err(e) && e@ == error && final(self).machine() == old(
                    self,
                ).machine(),
            },
    ;
}

impl ModuleLoad for Machine {
    open spec fn machine(&self) -> MachineView {
        self@
    }

    fn load_module(
        &mut self,
        compiled: &CompiledModule,
        values: &Vec<Option<ValuePointer>>,
    ) -> (result: Result<(), LoadError>) {
        let ghost before = self@;
        let ghost module = compiled@;
        match Machine::resolve_const_constructors(&self.symbol_table, &compiled.consts) {
            Ok(_) => {},
            Err(error) => {
                return Err(error);
            },
        }
        let mut symbols = self.symbol_table.clone();
        match bind_consts_in(&mut symbols, compiled, values) {
            Ok(()) => {},
            Err(error) => {
                return Err(error);
            },
        }
        let base: usize = self.code.len();
        let cells_before: usize = self.cells.len();
        let mut i: usize = 0;
        while i < compiled.code.len()
            invariant
                i <= compiled.code.len(),
                base == before.code.len(),
                self.code@ == before.code + compiled.code@.take(i as int),
                self.call_stack == old(self).call_stack,
                self.ip == old(self).ip,
                self.stack == old(self).stack,
                self.symbol_table == old(self).symbol_table,
                self.cells == old(self).cells,
            decreases compiled.code.len() - i,
        {
            self.code.push(compiled.code[i]);
            assert(self.code@ =~= before.code + compiled.code@.take(i + 1));
            i = i + 1;
        }
        assert(compiled.code@.take(i as int) =~= compiled.code@);
        let total: usize = self.code.len();
        let ghost bound = symbols@;

        let mut f: usize = 0;
        while f < compiled.functions.len()
            invariant
                f <= compiled.functions.len(),
                module == compiled@,
                module.loadable(),
                total == base + compiled.code@.len(),
                symbols@ == bind_functions(bound, module.functions.take(f as int), base as int),
            decreases compiled.functions.len() - f,
        {
            proof {
                assert(module.functions.take(f + 1).drop_last() =~= module.functions.take(f as int));
                assert(module.functions[f as int] == (
                    compiled.functions@[f as int].0@,
                    compiled.functions@[f as int].1,
                ));
            }
            let addr: u64 = base as u64 + compiled.functions[f].1;
            symbols.set_symbol(&compiled.functions[f].0, TableValue::Defn(addr));
            f = f + 1;
        }
        assert(module.functions.take(f as int) =~= module.functions);
        let ghost with_functions = symbols@;

        let mut s: usize = 0;
        while s < compiled.statics.len()
            invariant
                s <= compiled.statics.len(),
                module == compiled@,
                cells_before == before.cells.len(),
                self.cells@ == with_static_cells(before.cells, s as int),
                symbols@ == bind_statics(
                    with_functions,
                    module.name,
                    module.statics.take(s as int),
                    cells_before as int,
                ),
                self.code@ == before.code + compiled.code@,
                self.call_stack == old(self).call_stack,
                self.ip == old(self).ip,
                self.stack == old(self).stack,
                self.symbol_table == old(self).symbol_table,
            decreases compiled.statics.len() - s,
        {
            proof {
                assert(module.statics.take(s + 1).drop_last() =~= module.statics.take(s as int));
                assert(module.statics[s as int] == compiled.statics@[s as int]@);
            }
            self.cells.push(0);
            let pointer: u64 = self.cells.len() as u64;
            let name = static_name(&compiled.name, &compiled.statics[s]);
            symbols.set_symbol(&name, TableValue::Static(pointer));
            assert(self.cells@ =~= with_static_cells(before.cells, s + 1));
            s = s + 1;
        }
        assert(module.statics.take(s as int) =~= module.statics);
        assert(symbols@ == loaded_symbols(before, module, values@)->Ok_0);

        let ghost start = before.code + module.code;
        assert(start.subrange(0, base as int) =~= before.code);
        let mut r: usize = 0;
        while r < compiled.relocations.len()
            invariant
                r <= compiled.relocations.len(),
                module == compiled@,
                module.loadable(),
                base == before.code.len(),
                total == base + module.code.len(),
                start == before.code + module.code,
                self.code@.len() == total,
                self.code@.subrange(0, base as int) == before.code,
                before == old(self)@,
                loaded_symbols(before, module, values@) == Ok::<
                    Map<Seq<char>, TableValue>,
                    LoadErrorView,
                >(symbols@),
                relocate_all(
                    start,
                    base as int,
                    module.name,
                    module.relocations.take(r as int),
                    symbols@,
                ) == Ok::<Seq<u8>, LoadErrorView>(self.code@),
                self.cells@ == with_static_cells(before.cells, module.statics.len() as int),
                cells_before == before.cells.len(),
                self.call_stack == old(self).call_stack,
                self.ip == old(self).ip,
                self.stack == old(self).stack,
                self.symbol_table == old(self).symbol_table,
            decreases compiled.relocations.len() - r,
        {
            proof {
                assert(module.relocations.take(r + 1).drop_last() =~= module.relocations.take(
                    r as int,
                ));
                assert(module.relocations[r as int] == (
                    compiled.relocations@[r as int].0,
                    compiled.relocations@[r as int].1@,
                ));
            }
            let relocation = &compiled.relocations[r];
            let module_addr: u64 = relocation.0;
            let final_addr: usize = base + module_addr as usize;
            match resolve_target(&relocation.1, base as u64, &compiled.name, &symbols) {
                Ok(addr) => {
                    let ghost unpatched = self.code@;
                    patch_addr(&mut self.code, final_addr, addr);
                    assert(self.code@.subrange(0, base as int) =~= unpatched.subrange(
                        0,
                        base as int,
                    ));
                },
                Err(error) => {
                    proof {
                        lemma_relocate_all_error(
                            start,
                            base as int,
                            module.name,
                            module.relocations,
                            symbols@,
                            r + 1,
                        );
                    }
                    self.code.truncate(base);
                    self.cells.truncate(cells_before);
                    assert(self.code@ =~= before.code);
                    assert(self.cells@ =~= before.cells);
                    return Err(error);
                },
            }
            r = r + 1;
        }
        assert(module.relocations.take(r as int) =~= module.relocations);
        self.symbol_table = symbols;
        Ok(())
    }
}

} // verus!
