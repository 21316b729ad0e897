use hivm2::asm_compiler::{CompileModule, CompiledModule, CompiledRelocationTarget};
use hivm2::assembly::{
    Assignment, AssignmentOp, BasicBlock, Call, Const, Defn, If, Local, Mod, Module, Path,
    Return, Statement, Static, Test, Then, Value,
};
use hivm2::vm::bytecode::ops::{
    BBranchIf, BBranchIfNot, BCall, BFnEntry, BGetLocal, BInvoke, BLoadConst, BOp, BPushAddress,
    BSetLocal,
};
use hivm2::vm::bytecode::util::{Cursor, ReadTypesExt};
use hivm2::vm::interpreter::{Event, Execute, Exit, PRINTLN};
use hivm2::vm::machine::{Frame, LoadError, SymbolTable};
use hivm2::vm::model::{PrimitiveFn, RuntimeError, SymbolKind, TableValue, PRIMITIVE_BASE};
use hivm2::vm::{Machine, ModuleLoad};

fn module_named(name: &str, mut stmts: Vec<Statement>) -> Module {
    let mut all = vec![Statement::StatementMod(Mod::new(Path::from_str(name).unwrap()))];
    all.append(&mut stmts);
    Module::with_stmts(all)
}

fn defn(name: &str, stmts: Vec<Statement>) -> Statement {
    Statement::StatementDefn(Defn::new(
        name.to_owned(),
        vec![],
        BasicBlock::with_stmts(stmts),
    ))
}

fn local(name: &str) -> Statement {
    Statement::StatementLocal(Local::new(name.to_owned()))
}

fn ret() -> Statement {
    Statement::StatementReturn(Return::new(None))
}

fn call(path: &str, arguments: Vec<&str>) -> Statement {
    Statement::StatementCall(Call::new(
        Path::from_str(path).unwrap(),
        arguments.iter().map(|a| a.to_string()).collect(),
    ))
}

fn addr_at(code: &Vec<u8>, at: u64) -> u64 {
    let mut cursor = Cursor::new(code);
    cursor.set_position(at);
    cursor.read_addr()
}

fn decode_all(code: &Vec<u8>) -> Vec<BOp> {
    let mut cursor = Cursor::new(code);
    let mut ops = Vec::new();
    while cursor.remaining() > 0 {
        ops.push(BOp::from_binary(&mut cursor).unwrap());
    }
    ops
}

fn machine_with(ops: Vec<BOp>) -> Machine {
    let mut machine = Machine::new();
    machine.code = BOp::compile_ops(ops);
    machine
}

fn frame(return_addr: u64, slots: Vec<u64>) -> Frame {
    Frame {
        return_addr: return_addr,
        args: vec![],
        slots: slots,
    }
}

fn step_ok(machine: &mut Machine) {
    assert!(matches!(machine.step(), Ok(Event::Continue)));
}

fn call_with_const() -> CompiledModule {
    module_named(
        "foo",
        vec![
            Statement::StatementConst(Const::new(
                "@h".to_owned(),
                Path::from_str("_.std.string.new").unwrap(),
                Some("hi".to_owned()),
            )),
            defn(
                "main",
                vec![
                    Statement::StatementAssignment(Assignment::new(
                        "val".to_owned(),
                        AssignmentOp::AllocateAndAssign,
                        Value::Path(Path::with_name("@h".to_owned())),
                    )),
                    call("bar", vec![]),
                ],
            ),
            defn("bar", vec![ret()]),
        ],
    )
    .compile()
    .unwrap()
}

#[test]
fn symbols_are_bound_and_found() {
    let mut table = SymbolTable::new();
    let key = "a.b".to_owned();
    assert!(!table.has_symbol(&key));
    assert_eq!(table.find_symbol(&key), None);

    table.set_symbol(&key, TableValue::Defn(7));
    table.set_symbol(&"a.c".to_owned(), TableValue::Const(9));
    assert!(table.has_symbol(&key));
    assert_eq!(*table.lookup_symbol(&key), TableValue::Defn(7));
    assert_eq!(table.find_symbol(&"a.c".to_owned()), Some(TableValue::Const(9)));

    // A later binding takes the place of an earlier one
    table.set_symbol(&key, TableValue::Static(8));
    assert_eq!(*table.lookup_symbol(&key), TableValue::Static(8));
    assert_eq!(table.find_symbol(&"a.c".to_owned()), Some(TableValue::Const(9)));

    let copy = table.clone();
    assert_eq!(copy.find_symbol(&key), Some(TableValue::Static(8)));
    assert_eq!(copy.find_symbol(&"a".to_owned()), None);
}

#[test]
fn table_values_have_kinds_and_addresses() {
    assert_eq!(TableValue::Const(1).kind(), SymbolKind::Const);
    assert_eq!(TableValue::Static(1).kind(), SymbolKind::Static);
    assert_eq!(TableValue::Defn(1).kind(), SymbolKind::Defn);
    assert_eq!(
        TableValue::with_fn(PrimitiveFn(1)).kind(),
        SymbolKind::Primitive
    );

    assert_eq!(TableValue::Defn(12).as_addr(), Some(12));
    assert_eq!(
        TableValue::with_fn(PrimitiveFn(3)).as_addr(),
        Some(0x8000_0000_0000_0003)
    );
    assert_eq!(
        TableValue::with_fn(PrimitiveFn(u32::MAX)).as_addr(),
        Some(PRIMITIVE_BASE + 0xffff_ffff)
    );
    assert_eq!(TableValue::Const(12).as_addr(), None);
    assert_eq!(TableValue::Static(12).as_addr(), None);

    assert_eq!(TableValue::Const(12).as_pointer(), Some(12));
    assert_eq!(TableValue::Static(13).as_pointer(), Some(13));
    assert_eq!(TableValue::Defn(12).as_pointer(), None);
    assert_eq!(TableValue::with_fn(PrimitiveFn(3)).as_pointer(), None);
}

#[test]
fn std_binds_println() {
    let mut machine = Machine::new();
    machine.add_std();
    assert_eq!(
        machine
            .symbol_table
            .find_symbol(&"_.std.println".to_owned()),
        Some(TableValue::Primitive(PrimitiveFn(PRINTLN)))
    );
}

#[test]
fn constructors_are_resolved_in_order() {
    let mut table = SymbolTable::new();
    table.set_symbol(
        &"_.std.string.new".to_owned(),
        TableValue::with_fn(PrimitiveFn(5)),
    );
    table.set_symbol(&"_.std.int.new".to_owned(), TableValue::with_fn(PrimitiveFn(6)));
    table.set_symbol(&"foo.f".to_owned(), TableValue::Defn(0));

    let consts = vec![
        (
            "@a".to_owned(),
            "_.std.string.new".to_owned(),
            Some("text".to_owned()),
        ),
        ("@b".to_owned(), "_.std.int.new".to_owned(), None),
    ];
    assert_eq!(
        Machine::resolve_const_constructors(&table, &consts),
        Ok(vec![
            ("@a".to_owned(), PrimitiveFn(5), Some("text".to_owned())),
            ("@b".to_owned(), PrimitiveFn(6), None),
        ])
    );

    let consts = vec![
        ("@a".to_owned(), "_.std.string.new".to_owned(), None),
        ("@b".to_owned(), "nowhere".to_owned(), None),
        ("@c".to_owned(), "foo.f".to_owned(), None),
    ];
    assert_eq!(
        Machine::resolve_const_constructors(&table, &consts),
        Err(LoadError::UnresolvedSymbol("nowhere".to_owned()))
    );

    let consts = vec![
        ("@c".to_owned(), "foo.f".to_owned(), None),
        ("@b".to_owned(), "nowhere".to_owned(), None),
    ];
    assert_eq!(
        Machine::resolve_const_constructors(&table, &consts),
        Err(LoadError::WrongSymbolKind(
            "foo.f".to_owned(),
            SymbolKind::Primitive,
            SymbolKind::Defn
        ))
    );
}

#[test]
fn consts_are_bound_to_the_values_of_their_constructors() {
    let compiled = call_with_const();
    let mut machine = Machine::new();
    assert_eq!(
        machine.load_consts(&compiled, &vec![None]),
        Err(LoadError::ConstructorDidNotProduceValue("foo.@h".to_owned()))
    );
    assert!(!machine.symbol_table.has_symbol(&"foo.@h".to_owned()));
    assert_eq!(
        machine.load_consts(&compiled, &vec![]),
        Err(LoadError::ConstructorDidNotProduceValue("foo.@h".to_owned()))
    );
    assert_eq!(machine.load_consts(&compiled, &vec![Some(0x77)]), Ok(()));
    assert_eq!(
        machine.symbol_table.find_symbol(&"foo.@h".to_owned()),
        Some(TableValue::Const(0x77))
    );
}

#[test]
fn cross_function_call_with_a_const() {
    let compiled = call_with_const();
    let mut machine = Machine::new();
    machine.symbol_table.set_symbol(
        &"_.std.string.new".to_owned(),
        TableValue::with_fn(PrimitiveFn(5)),
    );
    // The call names `bar` as it is, so that is what must be bound
    let bar = compiled.functions[1].1;
    assert_eq!(compiled.functions[1].0, "foo.bar");
    machine
        .symbol_table
        .set_symbol(&"bar".to_owned(), TableValue::Defn(bar));

    let constructors =
        Machine::resolve_const_constructors(&machine.symbol_table, &compiled.consts).unwrap();
    assert_eq!(
        constructors,
        vec![("@h".to_owned(), PrimitiveFn(5), Some("hi".to_owned()))]
    );
    // The pointer that the constructor has made on a machine of its own
    let hi: u64 = 0x5000;
    assert!(compiled.is_loadable());
    assert_eq!(machine.load_module(&compiled, &vec![Some(hi)]), Ok(()));

    let const_site = compiled.relocations[0].0;
    let call_site = compiled.relocations[1].0;
    assert_eq!(addr_at(&machine.code, const_site), hi);
    assert_eq!(addr_at(&machine.code, call_site), 26);
    assert_ne!(addr_at(&machine.code, const_site), 0);
    assert_ne!(addr_at(&machine.code, call_site), 0);
    assert_eq!(
        machine.symbol_table.find_symbol(&"foo.main".to_owned()),
        Some(TableValue::Defn(0))
    );
    assert_eq!(
        machine.symbol_table.find_symbol(&"foo.bar".to_owned()),
        Some(TableValue::Defn(26))
    );
    assert_eq!(
        machine.symbol_table.find_symbol(&"foo.@h".to_owned()),
        Some(TableValue::Const(hi))
    );

    // Run `main` up to the return of `bar`
    machine.ip = 0;
    machine.call_stack.push(frame(0, vec![]));
    assert!(matches!(machine.execute(6), Ok(Exit::OutOfBudget)));
    assert!(machine.stack.is_empty());
    assert_eq!(machine.call_stack.len(), 1);
    assert_eq!(machine.call_stack[0].slots, vec![hi]);
    assert_eq!(machine.ip, 25);
    // `bar` has pushed nothing, so the `Pop` after the call finds nothing
    assert_eq!(machine.fetch(), Ok((BOp::Pop, 26)));
    assert_eq!(machine.execute(1).err(), Some(RuntimeError::StackUnderflow));
    assert_eq!(machine.ip, 25);
    assert_eq!(machine.call_stack.len(), 1);
}

#[test]
fn if_then_is_relocated_to_its_noop() {
    let module = module_named(
        "foo",
        vec![
            defn("first", vec![ret()]),
            defn(
                "p",
                vec![
                    local("c"),
                    Statement::StatementIf(If {
                        condition: BasicBlock::with_stmts(vec![Statement::StatementTest(Test {
                            name: "c".to_owned(),
                        })]),
                        then_sibling: Then {
                            body: BasicBlock::with_stmts(vec![ret()]),
                            else_sibling: None,
                        },
                    }),
                    ret(),
                ],
            ),
        ],
    );
    let compiled = module.compile().unwrap();
    let mut machine = machine_with(vec![BOp::Noop, BOp::Noop, BOp::Noop]);
    assert_eq!(machine.load_module(&compiled, &vec![]), Ok(()));
    assert_eq!(
        decode_all(&machine.code),
        vec![
            BOp::Noop,
            BOp::Noop,
            BOp::Noop,
            BOp::FnEntry(BFnEntry { num_locals: 0 }),
            BOp::Return,
            BOp::FnEntry(BFnEntry { num_locals: 1 }),
            BOp::GetLocal(BGetLocal { idx: 0 }),
            BOp::BranchIfNot(BBranchIfNot { dest: 3 + 4 + 16 }),
            BOp::Return,
            BOp::Noop,
            BOp::Return,
        ]
    );
    assert_eq!(
        machine.symbol_table.find_symbol(&"foo.p".to_owned()),
        Some(TableValue::Defn(7))
    );

    // A null local: the branch is not taken, and the body returns
    machine.ip = 7;
    machine.call_stack.push(frame(0, vec![]));
    assert!(matches!(machine.execute(100), Ok(Exit::Halted)));
    assert!(machine.stack.is_empty());
    assert!(machine.call_stack.is_empty());

    // A local that is not null: the branch goes to the noop
    machine.ip = 7;
    machine.call_stack.push(frame(0, vec![]));
    step_ok(&mut machine);
    machine.call_stack[0].slots[0] = 1;
    step_ok(&mut machine);
    step_ok(&mut machine);
    assert_eq!(machine.ip, 3 + 4 + 16);
    assert_eq!(machine.fetch(), Ok((BOp::Noop, 24)));
}

#[test]
fn primitive_is_invoked() {
    let module = module_named(
        "app",
        vec![defn(
            "main",
            vec![local("x"), call("_.std.println", vec!["x"]), ret()],
        )],
    );
    let compiled = module.compile().unwrap();
    let mut machine = Machine::new();
    machine.add_std();
    assert_eq!(machine.load_module(&compiled, &vec![]), Ok(()));
    assert_eq!(
        addr_at(&machine.code, compiled.relocations[0].0),
        PRIMITIVE_BASE + PRINTLN as u64
    );

    machine.ip = 0;
    machine.call_stack.push(frame(0, vec![]));
    let mut printed: Vec<Vec<u64>> = Vec::new();
    let mut exit = machine.execute(100);
    loop {
        match exit {
            Ok(Exit::Primitive { id, frame }) => {
                assert_eq!(id, PRINTLN);
                // The primitive reads its argument and gives no value
                printed.push(frame.args);
                machine.resume(None);
                exit = machine.execute(100);
            }
            Ok(Exit::Halted) => break,
            _ => panic!("the run went wrong"),
        }
    }
    assert_eq!(printed, vec![vec![0]]);
    assert!(machine.stack.is_empty());
    assert!(machine.call_stack.is_empty());
}

#[test]
fn statics_get_cells_of_their_own() {
    let module = module_named(
        "m",
        vec![
            Statement::StatementStatic(Static::new("$a".to_owned())),
            Statement::StatementStatic(Static::new("b".to_owned())),
        ],
    );
    let compiled = module.compile().unwrap();
    let mut machine = Machine::new();
    machine.cells.push(42);
    assert_eq!(machine.load_module(&compiled, &vec![]), Ok(()));
    assert_eq!(machine.cells, vec![42, 0, 0]);
    assert_eq!(
        machine.symbol_table.find_symbol(&"m.$a".to_owned()),
        Some(TableValue::Static(2))
    );
    assert_eq!(
        machine.symbol_table.find_symbol(&"m.$b".to_owned()),
        Some(TableValue::Static(3))
    );
}

fn handmade(relocations: Vec<(u64, CompiledRelocationTarget)>) -> CompiledModule {
    CompiledModule {
        name: "m".to_owned(),
        code: BOp::compile_ops(vec![
            BOp::FnEntry(BFnEntry { num_locals: 0 }),
            BOp::LoadConst(BLoadConst { id: 0 }),
            BOp::Call(BCall {
                addr: 0,
                num_args: 0,
            }),
            BOp::Return,
        ]),
        functions: vec![("m.f".to_owned(), 0)],
        consts: vec![],
        statics: vec!["$s".to_owned()],
        relocations: relocations,
    }
}

#[test]
fn failed_load_leaves_the_machine_as_it_was() {
    let mut machine = machine_with(vec![BOp::Noop]);
    machine
        .symbol_table
        .set_symbol(&"m.$t".to_owned(), TableValue::Static(1));
    machine.cells.push(5);

    let compiled = handmade(vec![
        (4, CompiledRelocationTarget::ConstPath("$s".to_owned())),
        (
            13,
            CompiledRelocationTarget::ExternalFunctionPath("gone".to_owned()),
        ),
    ]);
    assert!(compiled.is_loadable());
    assert_eq!(
        machine.load_module(&compiled, &vec![]),
        Err(LoadError::UnresolvedSymbol("gone".to_owned()))
    );
    assert_eq!(machine.code, vec![10]);
    assert_eq!(machine.cells, vec![5]);
    assert!(!machine.symbol_table.has_symbol(&"m.f".to_owned()));
    assert!(!machine.symbol_table.has_symbol(&"m.$s".to_owned()));

    let compiled = handmade(vec![(
        13,
        CompiledRelocationTarget::ExternalFunctionPath("m.$s".to_owned()),
    )]);
    assert_eq!(
        machine.load_module(&compiled, &vec![]),
        Err(LoadError::WrongSymbolKind(
            "m.$s".to_owned(),
            SymbolKind::Defn,
            SymbolKind::Static
        ))
    );
    let compiled = handmade(vec![(
        4,
        CompiledRelocationTarget::ConstPath("m.f".to_owned()),
    )]);
    assert_eq!(
        machine.load_module(&compiled, &vec![]),
        Err(LoadError::WrongSymbolKind(
            "m.f".to_owned(),
            SymbolKind::Const,
            SymbolKind::Defn
        ))
    );
    let compiled = handmade(vec![(
        4,
        CompiledRelocationTarget::ConstPath("@none".to_owned()),
    )]);
    assert_eq!(
        machine.load_module(&compiled, &vec![]),
        Err(LoadError::UnresolvedSymbol("m.@none".to_owned()))
    );
    assert_eq!(machine.code, vec![10]);
    assert_eq!(machine.cells, vec![5]);
}

#[test]
fn loading_rebases_and_resolves() {
    let mut machine = machine_with(vec![BOp::Noop, BOp::Noop]);
    machine
        .symbol_table
        .set_symbol(&"lib.f".to_owned(), TableValue::Defn(1));
    let compiled = handmade(vec![
        (4, CompiledRelocationTarget::ConstPath("$s".to_owned())),
        (
            13,
            CompiledRelocationTarget::ExternalFunctionPath("lib.f".to_owned()),
        ),
    ]);
    assert_eq!(machine.load_module(&compiled, &vec![]), Ok(()));
    assert_eq!(
        decode_all(&machine.code),
        vec![
            BOp::Noop,
            BOp::Noop,
            BOp::FnEntry(BFnEntry { num_locals: 0 }),
            BOp::LoadConst(BLoadConst { id: 1 }),
            BOp::Call(BCall {
                addr: 1,
                num_args: 0
            }),
            BOp::Return,
        ]
    );
    assert_eq!(
        machine.symbol_table.find_symbol(&"m.f".to_owned()),
        Some(TableValue::Defn(2))
    );

    // Its own function, by its full name, and an internal address
    let compiled = handmade(vec![
        (4, CompiledRelocationTarget::InternalAddress(22)),
        (
            13,
            CompiledRelocationTarget::ExternalFunctionPath("m.f".to_owned()),
        ),
    ]);
    let base = machine.code.len() as u64;
    assert_eq!(machine.load_module(&compiled, &vec![]), Ok(()));
    assert_eq!(addr_at(&machine.code, base + 4), base + 22);
    assert_eq!(addr_at(&machine.code, base + 13), base);
}

#[test]
fn modules_that_point_outside_their_code_are_not_loadable() {
    assert!(handmade(vec![]).is_loadable());
    assert!(handmade(vec![(15, CompiledRelocationTarget::InternalAddress(23))]).is_loadable());
    assert!(!handmade(vec![(16, CompiledRelocationTarget::InternalAddress(0))]).is_loadable());
    assert!(!handmade(vec![(4, CompiledRelocationTarget::InternalAddress(24))]).is_loadable());
    let mut module = handmade(vec![]);
    module.functions.push(("m.g".to_owned(), 24));
    assert!(!module.is_loadable());
}

#[test]
fn locals_are_set_and_got() {
    let mut machine = machine_with(vec![
        BOp::FnEntry(BFnEntry { num_locals: 2 }),
        BOp::LoadConst(BLoadConst { id: 0x99 }),
        BOp::SetLocal(BSetLocal { idx: 1 }),
        BOp::GetLocal(BGetLocal { idx: 1 }),
        BOp::GetLocal(BGetLocal { idx: 0 }),
        BOp::GetLocal(BGetLocal { idx: 2 }),
    ]);
    machine.call_stack.push(frame(0, vec![7, 8, 9]));
    step_ok(&mut machine);
    assert_eq!(machine.call_stack[0].slots, vec![7, 8]);
    step_ok(&mut machine);
    step_ok(&mut machine);
    assert_eq!(machine.call_stack[0].slots, vec![7, 0x99]);
    assert!(machine.stack.is_empty());
    step_ok(&mut machine);
    step_ok(&mut machine);
    assert_eq!(machine.stack, vec![0x99, 7]);
    let ip = machine.ip;
    assert_eq!(
        machine.step().err(),
        Some(RuntimeError::LocalIndexOutOfRange(2))
    );
    assert_eq!(machine.ip, ip);
    assert_eq!(machine.stack, vec![0x99, 7]);
}

#[test]
fn entry_makes_null_slots() {
    let mut machine = machine_with(vec![BOp::FnEntry(BFnEntry { num_locals: 3 })]);
    machine.call_stack.push(frame(0, vec![]));
    step_ok(&mut machine);
    assert_eq!(machine.call_stack[0].slots, vec![0, 0, 0]);
    assert_eq!(machine.ip, 3);
}

#[test]
fn call_takes_its_arguments_in_push_order() {
    let mut machine = machine_with(vec![
        BOp::Call(BCall {
            addr: 10,
            num_args: 2,
        }),
        BOp::Return,
    ]);
    machine.stack = vec![1, 2, 3];
    machine.call_stack.push(frame(99, vec![]));
    step_ok(&mut machine);
    assert_eq!(machine.stack, vec![1]);
    assert_eq!(machine.ip, 10);
    assert_eq!(machine.call_stack.len(), 2);
    assert_eq!(machine.call_stack[1].return_addr, 10);
    assert_eq!(machine.call_stack[1].args, vec![2, 3]);
    assert!(machine.call_stack[1].slots.is_empty());

    // The return goes back behind the call, and the outer one ends the run
    step_ok(&mut machine);
    assert_eq!(machine.ip, 10);
    assert_eq!(machine.call_stack.len(), 1);
    assert!(matches!(machine.step(), Ok(Event::Halt)));
    assert_eq!(machine.ip, 99);
    assert!(machine.call_stack.is_empty());
    machine.ip = 10;
    assert_eq!(machine.step().err(), Some(RuntimeError::StackUnderflow));
}

#[test]
fn call_needs_its_arguments() {
    let mut machine = machine_with(vec![BOp::Call(BCall {
        addr: 10,
        num_args: 2,
    })]);
    machine.stack = vec![1];
    assert_eq!(machine.step().err(), Some(RuntimeError::StackUnderflow));
    assert_eq!(machine.stack, vec![1]);
    assert!(machine.call_stack.is_empty());
    assert_eq!(machine.ip, 0);
}

#[test]
fn call_of_a_primitive_hands_the_frame_out() {
    let mut machine = machine_with(vec![BOp::Call(BCall {
        addr: PRIMITIVE_BASE + 17,
        num_args: 1,
    })]);
    machine.stack = vec![1, 2];
    match machine.step() {
        Ok(Event::Primitive { id, frame }) => {
            assert_eq!(id, 17);
            assert_eq!(frame.args, vec![2]);
            assert_eq!(frame.return_addr, 10);
        }
        _ => panic!("no primitive was called"),
    }
    assert_eq!(machine.stack, vec![1]);
    assert_eq!(machine.ip, 10);
    assert!(machine.call_stack.is_empty());
    machine.resume(Some(0x1234));
    assert_eq!(machine.stack, vec![1, 0x1234]);
    machine.resume(None);
    assert_eq!(machine.stack, vec![1, 0x1234, 0]);
}

#[test]
fn invoke_calls_the_boxed_address() {
    let mut machine = machine_with(vec![
        BOp::PushAddress(BPushAddress { addr: 30 }),
        BOp::LoadConst(BLoadConst { id: 5 }),
        BOp::Invoke(BInvoke { num_args: 1 }),
    ]);
    step_ok(&mut machine);
    assert_eq!(machine.cells, vec![30]);
    assert_eq!(machine.stack, vec![1]);
    step_ok(&mut machine);
    step_ok(&mut machine);
    assert!(machine.stack.is_empty());
    assert_eq!(machine.ip, 30);
    assert_eq!(machine.call_stack.len(), 1);
    assert_eq!(machine.call_stack[0].args, vec![5]);
    assert_eq!(machine.call_stack[0].return_addr, 20);
}

#[test]
fn invoke_needs_a_boxed_address() {
    let code = vec![BOp::Invoke(BInvoke { num_args: 1 })];
    let mut machine = machine_with(code.clone());
    machine.stack = vec![5];
    assert_eq!(machine.step().err(), Some(RuntimeError::StackUnderflow));

    let mut machine = machine_with(code.clone());
    machine.stack = vec![0, 5];
    assert_eq!(machine.step().err(), Some(RuntimeError::NullDereference));
    assert_eq!(machine.stack, vec![0, 5]);

    let mut machine = machine_with(code.clone());
    machine.stack = vec![2, 5];
    machine.cells = vec![30];
    assert_eq!(
        machine.step().err(),
        Some(RuntimeError::InvalidPointer(2))
    );
    assert_eq!(machine.stack, vec![2, 5]);
    assert!(machine.call_stack.is_empty());

    let mut machine = machine_with(code);
    machine.stack = vec![1, 5];
    machine.cells = vec![PRIMITIVE_BASE];
    assert!(matches!(
        machine.step(),
        Ok(Event::Primitive { id: 0, frame: _ })
    ));
    assert!(machine.stack.is_empty());
    assert_eq!(machine.ip, 2);
}

#[test]
fn branches_test_for_null() {
    let code = vec![
        BOp::BranchIf(BBranchIf { dest: 40 }),
        BOp::BranchIfNot(BBranchIfNot { dest: 50 }),
    ];
    let mut machine = machine_with(code.clone());
    machine.stack = vec![0, 0];
    step_ok(&mut machine);
    assert_eq!(machine.ip, 40);
    machine.ip = 9;
    step_ok(&mut machine);
    assert_eq!(machine.ip, 18);
    assert!(machine.stack.is_empty());

    let mut machine = machine_with(code);
    machine.stack = vec![3, 3];
    step_ok(&mut machine);
    assert_eq!(machine.ip, 9);
    step_ok(&mut machine);
    assert_eq!(machine.ip, 50);
    assert!(machine.stack.is_empty());
    machine.ip = 0;
    assert_eq!(machine.step().err(), Some(RuntimeError::StackUnderflow));
    machine.ip = 9;
    assert_eq!(machine.step().err(), Some(RuntimeError::StackUnderflow));
}

#[test]
fn pop_and_noop() {
    let mut machine = machine_with(vec![BOp::Noop, BOp::Pop, BOp::Pop]);
    machine.stack = vec![4];
    step_ok(&mut machine);
    assert_eq!(machine.ip, 1);
    step_ok(&mut machine);
    assert!(machine.stack.is_empty());
    assert_eq!(machine.step().err(), Some(RuntimeError::StackUnderflow));
    assert_eq!(machine.ip, 2);
}

#[test]
fn ops_need_a_frame() {
    for op in [
        BOp::FnEntry(BFnEntry { num_locals: 1 }),
        BOp::GetLocal(BGetLocal { idx: 0 }),
        BOp::SetLocal(BSetLocal { idx: 0 }),
        BOp::Return,
    ] {
        let mut machine = machine_with(vec![op]);
        machine.stack = vec![1];
        assert_eq!(machine.step().err(), Some(RuntimeError::StackUnderflow));
        assert_eq!(machine.stack, vec![1]);
    }
    let mut machine = machine_with(vec![BOp::SetLocal(BSetLocal { idx: 0 })]);
    machine.call_stack.push(frame(0, vec![0]));
    assert_eq!(machine.step().err(), Some(RuntimeError::StackUnderflow));
    machine.stack = vec![1];
    machine.call_stack[0].slots.clear();
    assert_eq!(
        machine.step().err(),
        Some(RuntimeError::LocalIndexOutOfRange(0))
    );
    assert_eq!(machine.stack, vec![1]);
}

#[test]
fn bad_code_stops_the_machine() {
    let mut machine = Machine::new();
    machine.code = vec![10, 77];
    assert_eq!(machine.execute(5).err(), Some(RuntimeError::UnknownOpcode(77)));
    assert_eq!(machine.ip, 1);

    machine.code = vec![10, 3, 0, 0];
    machine.ip = 0;
    assert_eq!(
        machine.execute(5).err(),
        Some(RuntimeError::UnexpectedEndOfCode)
    );
    assert_eq!(machine.ip, 1);

    machine.ip = 4;
    assert_eq!(
        machine.execute(5).err(),
        Some(RuntimeError::UnexpectedEndOfCode)
    );
    machine.ip = 400;
    assert_eq!(
        machine.fetch(),
        Err(RuntimeError::UnexpectedEndOfCode)
    );
}

#[test]
fn budget_bounds_the_run() {
    // A branch to itself, fed by a local that is never null
    let mut machine = machine_with(vec![
        BOp::GetLocal(BGetLocal { idx: 0 }),
        BOp::BranchIfNot(BBranchIfNot { dest: 0 }),
    ]);
    machine.call_stack.push(frame(0, vec![1]));
    assert!(matches!(machine.execute(0), Ok(Exit::OutOfBudget)));
    assert_eq!(machine.ip, 0);
    assert!(matches!(machine.execute(1001), Ok(Exit::OutOfBudget)));
    assert_eq!(machine.ip, 3);
    assert_eq!(machine.stack, vec![1]);
}

#[test]
fn frames_are_built_from_the_stack() {
    let mut machine = Machine::empty();
    machine.stack = vec![1, 2, 3, 4];
    assert_eq!(machine.pop_stack_into_vec(0), vec![]);
    assert_eq!(machine.pop_stack_into_vec(2), vec![3, 4]);
    assert_eq!(machine.stack, vec![1, 2]);
    let built = machine.build_frame(8, 1);
    assert_eq!(built.return_addr, 8);
    assert_eq!(built.args, vec![2]);
    assert!(built.slots.is_empty());
    assert_eq!(machine.stack, vec![1]);

    machine.call_stack.push(built);
    machine.call_stack.push(frame(9, vec![]));
    assert_eq!(machine.get_stack_top().return_addr, 9);
    machine.get_stack_top_mut().return_addr = 10;
    assert_eq!(machine.call_stack[1].return_addr, 10);
    assert_eq!(machine.call_stack[0].return_addr, 8);
}
