use hivm2::asm_compiler::model::{Op, SharedOp};
use hivm2::asm_compiler::{
    Compile, CompileError, CompileModule, CompileToValue, CompiledModule,
    CompiledRelocationTarget, Function, FunctionName, LocalContext, Locals,
};
use hivm2::assembly::{
    Assignment, AssignmentOp, BasicBlock, Call, Const, Defn, Do, Extern, Fn, If, Local, Mod,
    Module, Path, Return, Statement, Static, Test, Then, Value, While,
};
use hivm2::vm::bytecode::ops::{
    BBranchIfNot, BCall, BFnEntry, BGetLocal, BLoadConst, BOp, BPushAddress, BSetLocal,
};
use hivm2::vm::bytecode::util::Cursor;
use std::collections::HashMap;

fn decode_all(code: &Vec<u8>) -> Vec<BOp> {
    let mut cursor = Cursor::new(code);
    let mut ops = Vec::new();
    while cursor.remaining() > 0 {
        ops.push(BOp::from_binary(&mut cursor).unwrap());
    }
    ops
}

fn module_named(name: &str, mut stmts: Vec<Statement>) -> Module {
    let mut all = vec![Statement::StatementMod(Mod::new(Path::from_str(name).unwrap()))];
    all.append(&mut stmts);
    Module::with_stmts(all)
}

fn defn(name: &str, stmts: Vec<Statement>) -> Statement {
    Statement::StatementDefn(Defn::new(
        name.to_owned(),
        vec![],
        BasicBlock::with_stmts(stmts),
    ))
}

fn local(name: &str) -> Statement {
    Statement::StatementLocal(Local::new(name.to_owned()))
}

fn ret() -> Statement {
    Statement::StatementReturn(Return::new(None))
}

fn assign(lvalue: &str, op: AssignmentOp, rvalue: Value) -> Statement {
    Statement::StatementAssignment(Assignment::new(lvalue.to_owned(), op, rvalue))
}

fn call(path: &str, arguments: Vec<&str>) -> Call {
    Call::new(
        Path::from_str(path).unwrap(),
        arguments.iter().map(|a| a.to_string()).collect(),
    )
}

fn well_formed(compiled: &CompiledModule) {
    assert!(compiled.is_loadable());
    let ops = decode_all(&compiled.code);
    let total: usize = ops.iter().map(|op| op.size()).sum();
    assert_eq!(compiled.code.len(), total);
    for (site, _) in compiled.relocations.iter() {
        let mut cursor = Cursor::new(&compiled.code);
        cursor.set_position(*site - 1);
        let op = BOp::from_binary(&mut cursor).unwrap();
        assert!(op.has_addr_field());
        assert!(*site as usize + 8 <= compiled.code.len());
    }
    for (i, (first, _)) in compiled.relocations.iter().enumerate() {
        for (second, _) in compiled.relocations.iter().skip(i + 1) {
            assert!(*first + 8 <= *second || *second + 8 <= *first);
        }
    }
}

#[test]
fn test_compile_module() {
    let module = Module::with_stmts(vec![Statement::StatementDefn(Defn::new(
        "a".to_owned(),
        vec![],
        BasicBlock::with_stmts(vec![Statement::StatementReturn(Return::new(None))]),
    ))]);
    let compiled = module.compile().unwrap();

    assert!(compiled.code.len() > 0);
    assert_eq!(compiled.functions.len(), 1);
}

#[test]
fn empty_defn_compiles() {
    let module = module_named("foo", vec![defn("a", vec![ret()])]);
    let compiled = module.compile().unwrap();

    assert_eq!(compiled.name, "foo");
    assert_eq!(
        decode_all(&compiled.code),
        vec![BOp::FnEntry(BFnEntry { num_locals: 0 }), BOp::Return]
    );
    assert_eq!(compiled.functions, vec![("foo.a".to_owned(), 0)]);
    assert!(compiled.relocations.is_empty());
    assert!(compiled.consts.is_empty());
    assert!(compiled.statics.is_empty());
    well_formed(&compiled);
}

#[test]
fn local_assignment_compiles() {
    let body = vec![
        local("y"),
        assign(
            "x",
            AssignmentOp::AllocateAndAssign,
            Value::from_name_str("y"),
        ),
        ret(),
    ];
    let block = BasicBlock::with_stmts(body.clone());
    let locals = block.collect_locals().unwrap();
    assert_eq!(locals.locals, ["y", "x"]);

    let module = module_named("foo", vec![defn("a", body)]);
    let compiled = module.compile().unwrap();
    assert_eq!(
        decode_all(&compiled.code),
        vec![
            BOp::FnEntry(BFnEntry { num_locals: 2 }),
            BOp::GetLocal(BGetLocal { idx: 0 }),
            BOp::SetLocal(BSetLocal { idx: 1 }),
            BOp::Return,
        ]
    );
    well_formed(&compiled);
}

#[test]
fn plain_assignment_makes_no_local() {
    let body = vec![
        local("y"),
        assign("x", AssignmentOp::Plain, Value::from_name_str("y")),
    ];
    let block = BasicBlock::with_stmts(body.clone());
    assert_eq!(block.collect_locals().unwrap().locals, ["y"]);
    let module = module_named("foo", vec![defn("a", body)]);
    assert_eq!(
        module.compile().err(),
        Some(CompileError::UnknownLocal("x".to_owned()))
    );
}

fn call_with_const() -> Module {
    module_named(
        "foo",
        vec![
            Statement::StatementConst(Const::new(
                "@h".to_owned(),
                Path::from_str("_.std.string.new").unwrap(),
                Some("hi".to_owned()),
            )),
            defn(
                "main",
                vec![
                    assign(
                        "val",
                        AssignmentOp::AllocateAndAssign,
                        Value::Path(Path::with_name("@h".to_owned())),
                    ),
                    Statement::StatementCall(call("bar", vec![])),
                ],
            ),
            defn("bar", vec![ret()]),
        ],
    )
}

#[test]
fn call_with_const_compiles_to_two_relocations() {
    let compiled = call_with_const().compile().unwrap();
    assert_eq!(
        decode_all(&compiled.code),
        vec![
            BOp::FnEntry(BFnEntry { num_locals: 1 }),
            BOp::LoadConst(BLoadConst { id: 0 }),
            BOp::SetLocal(BSetLocal { idx: 0 }),
            BOp::Call(BCall {
                addr: 0,
                num_args: 0
            }),
            BOp::Pop,
            BOp::FnEntry(BFnEntry { num_locals: 0 }),
            BOp::Return,
        ]
    );
    assert_eq!(
        compiled.functions,
        vec![("foo.main".to_owned(), 0), ("foo.bar".to_owned(), 26)]
    );
    assert_eq!(
        compiled.consts,
        vec![(
            "@h".to_owned(),
            "_.std.string.new".to_owned(),
            Some("hi".to_owned())
        )]
    );
    assert_eq!(compiled.relocations.len(), 2);
    assert_eq!(compiled.relocations[0].0, 4);
    assert!(matches!(
        &compiled.relocations[0].1,
        CompiledRelocationTarget::ConstPath(path) if path == "@h"
    ));
    assert_eq!(compiled.relocations[1].0, 16);
    assert!(matches!(
        &compiled.relocations[1].1,
        CompiledRelocationTarget::ExternalFunctionPath(path) if path == "bar"
    ));
    well_formed(&compiled);
}

fn if_then() -> Module {
    module_named(
        "foo",
        vec![defn(
            "p",
            vec![
                local("c"),
                Statement::StatementIf(If {
                    condition: BasicBlock::with_stmts(vec![Statement::StatementTest(Test {
                        name: "c".to_owned(),
                    })]),
                    then_sibling: Then {
                        body: BasicBlock::with_stmts(vec![ret()]),
                        else_sibling: None,
                    },
                }),
                ret(),
            ],
        )],
    )
}

#[test]
fn if_then_branches_to_a_noop() {
    let compiled = if_then().compile().unwrap();
    assert_eq!(
        decode_all(&compiled.code),
        vec![
            BOp::FnEntry(BFnEntry { num_locals: 1 }),
            BOp::GetLocal(BGetLocal { idx: 0 }),
            BOp::BranchIfNot(BBranchIfNot { dest: 0 }),
            BOp::Return,
            BOp::Noop,
            BOp::Return,
        ]
    );
    // The branch is to go to the noop, 16 bytes into the function
    assert_eq!(compiled.relocations.len(), 1);
    assert_eq!(compiled.relocations[0].0, 7);
    assert!(matches!(
        compiled.relocations[0].1,
        CompiledRelocationTarget::InternalAddress(16)
    ));
    well_formed(&compiled);
}

#[test]
fn if_inside_a_later_function_branches_within_the_module() {
    let mut module = if_then();
    module.stmts.insert(1, defn("first", vec![ret()]));
    let compiled = module.compile().unwrap();
    assert_eq!(
        compiled.functions,
        vec![("foo.first".to_owned(), 0), ("foo.p".to_owned(), 4)]
    );
    assert_eq!(compiled.relocations[0].0, 4 + 7);
    assert!(matches!(
        compiled.relocations[0].1,
        CompiledRelocationTarget::InternalAddress(20)
    ));
    well_formed(&compiled);
}

#[test]
fn duplicate_local_is_rejected() {
    let module = module_named("foo", vec![defn("x", vec![local("a"), local("a")])]);
    assert_eq!(
        module.compile().err(),
        Some(CompileError::DuplicateLocal("a".to_owned()))
    );

    let module = module_named(
        "foo",
        vec![defn(
            "x",
            vec![
                local("a"),
                assign(
                    "a",
                    AssignmentOp::AllocateAndAssign,
                    Value::from_name_str("a"),
                ),
            ],
        )],
    );
    assert_eq!(
        module.compile().err(),
        Some(CompileError::DuplicateLocal("a".to_owned()))
    );
}

#[test]
fn unknown_names_are_rejected() {
    let module = module_named(
        "foo",
        vec![defn("x", vec![Statement::StatementCall(call("f", vec!["a"]))])],
    );
    assert_eq!(
        module.compile().err(),
        Some(CompileError::UnknownLocal("a".to_owned()))
    );

    let module = module_named(
        "foo",
        vec![defn(
            "x",
            vec![Statement::StatementTest(Test {
                name: "t".to_owned(),
            })],
        )],
    );
    assert_eq!(
        module.compile().err(),
        Some(CompileError::UnknownLocal("t".to_owned()))
    );

    // No function is around a statement at the top level
    let module = module_named(
        "foo",
        vec![assign("x", AssignmentOp::Plain, Value::from_name_str("x"))],
    );
    assert_eq!(
        module.compile().err(),
        Some(CompileError::UnknownLocal("x".to_owned()))
    );
}

#[test]
fn paths_that_are_no_constants_are_no_values() {
    for path in ["a.b", "a.$s", "$s"] {
        let module = module_named(
            "foo",
            vec![defn(
                "x",
                vec![assign(
                    "v",
                    AssignmentOp::AllocateAndAssign,
                    Value::Path(Path::from_str(path).unwrap()),
                )],
            )],
        );
        assert_eq!(
            module.compile().err(),
            Some(CompileError::UnsupportedValueForm(path.to_owned()))
        );
    }
}

#[test]
fn module_is_named_once() {
    let module = Module::with_stmts(vec![
        Statement::StatementMod(Mod::new(Path::from_str("a.b").unwrap())),
        Statement::StatementMod(Mod::new(Path::from_str("c").unwrap())),
    ]);
    assert_eq!(
        module.compile().err(),
        Some(CompileError::ModRedefinition("a.b".to_owned()))
    );
}

#[test]
fn statements_without_bytecode_are_rejected() {
    let stmts = vec![
        Statement::StatementBreak,
        Statement::StatementWhile(While {
            body: BasicBlock::new(),
            do_sibling: None,
        }),
        Statement::StatementDo(Do {
            body: BasicBlock::new(),
            while_sibling: None,
        }),
        Statement::StatementFn(Fn::new(vec![], BasicBlock::new())),
    ];
    for stmt in stmts {
        let module = module_named("foo", vec![defn("x", vec![stmt])]);
        assert_eq!(
            module.compile().err(),
            Some(CompileError::UnsupportedStatement)
        );
    }
}

#[test]
fn too_many_arguments_are_rejected() {
    let mut body: Vec<Statement> = vec![local("a")];
    let arguments: Vec<&str> = (0..256).map(|_| "a").collect();
    body.push(Statement::StatementCall(call("f", arguments)));
    let module = module_named("foo", vec![defn("x", body)]);
    assert_eq!(module.compile().err(), Some(CompileError::TooManyArguments));

    let mut body: Vec<Statement> = vec![local("a")];
    let arguments: Vec<&str> = (0..255).map(|_| "a").collect();
    body.push(Statement::StatementCall(call("f", arguments)));
    let module = module_named("foo", vec![defn("x", body)]);
    let compiled = module.compile().unwrap();
    let ops = decode_all(&compiled.code);
    assert_eq!(ops.len(), 258);
    assert_eq!(
        ops[256],
        BOp::Call(BCall {
            addr: 0,
            num_args: 255
        })
    );
    well_formed(&compiled);
}

#[test]
fn too_many_locals_are_rejected() {
    let mut locals = Locals::new();
    for i in 0..0xffff {
        assert_eq!(locals.add(format!("l{}", i)), Ok(i as u16));
    }
    assert_eq!(locals.len(), 0xffff);
    assert_eq!(
        locals.add("one_more".to_owned()),
        Err(CompileError::TooManyLocals)
    );
    assert_eq!(locals.len(), 0xffff);
    assert_eq!(locals.find("l65534".to_owned()), Ok(0xfffe));
}

#[test]
fn slots_are_positions_in_discovery_order() {
    let names = ["zeta", "alpha", "mid", "beta"];
    let body: Vec<Statement> = vec![
        local("zeta"),
        assign(
            "alpha",
            AssignmentOp::AllocateAndAssign,
            Value::from_name_str("zeta"),
        ),
        assign("zeta", AssignmentOp::Plain, Value::from_name_str("alpha")),
        ret(),
        local("mid"),
        assign(
            "beta",
            AssignmentOp::AllocateAndAssign,
            Value::from_name_str("mid"),
        ),
    ];
    let locals = BasicBlock::with_stmts(body).collect_locals().unwrap();
    assert_eq!(locals.locals, names);
    for (position, name) in names.iter().enumerate() {
        assert_eq!(locals.find(name.to_string()), Ok(position as u16));
    }
    assert_eq!(
        locals.find("gamma".to_owned()),
        Err(CompileError::UnknownLocal("gamma".to_owned()))
    );
}

#[test]
fn locals_refuse_a_second_add() {
    let mut locals = Locals::new();
    assert_eq!(locals.add("a".to_owned()), Ok(0));
    assert_eq!(locals.add("b".to_owned()), Ok(1));
    assert_eq!(
        locals.add("a".to_owned()),
        Err(CompileError::DuplicateLocal("a".to_owned()))
    );
    assert_eq!(locals.locals, ["a", "b"]);
}

#[test]
fn consts_statics_and_externs_emit_nothing() {
    let module = module_named(
        "m.n",
        vec![
            Statement::StatementExtern(Extern::new(Path::from_str("other.f").unwrap())),
            Statement::StatementStatic(Static::new("$s".to_owned())),
            Statement::StatementConst(Const::new(
                "@c".to_owned(),
                Path::from_str("a.make").unwrap(),
                None,
            )),
            Statement::StatementStatic(Static::new("$t".to_owned())),
        ],
    );
    let compiled = module.compile().unwrap();
    assert_eq!(compiled.name, "m.n");
    assert!(compiled.code.is_empty());
    assert!(compiled.functions.is_empty());
    assert_eq!(compiled.statics, ["$s", "$t"]);
    assert_eq!(
        compiled.consts,
        vec![("@c".to_owned(), "a.make".to_owned(), None)]
    );
}

#[test]
fn anonymous_function_is_pushed_by_address() {
    let inner = Fn::new(
        vec![],
        BasicBlock::with_stmts(vec![local("i"), ret()]),
    );
    let module = module_named(
        "foo",
        vec![defn(
            "outer",
            vec![
                assign("f", AssignmentOp::AllocateAndAssign, Value::Fn(inner)),
                ret(),
            ],
        )],
    );
    let compiled = module.compile().unwrap();
    // The anonymous function is met first, so it comes first in the code
    assert_eq!(
        decode_all(&compiled.code),
        vec![
            BOp::FnEntry(BFnEntry { num_locals: 1 }),
            BOp::Return,
            BOp::FnEntry(BFnEntry { num_locals: 1 }),
            BOp::PushAddress(BPushAddress { addr: 0 }),
            BOp::SetLocal(BSetLocal { idx: 0 }),
            BOp::Return,
        ]
    );
    assert_eq!(compiled.functions, vec![("foo.outer".to_owned(), 4)]);
    assert_eq!(compiled.relocations.len(), 1);
    assert_eq!(compiled.relocations[0].0, 4 + 3 + 1);
    assert!(matches!(
        compiled.relocations[0].1,
        CompiledRelocationTarget::InternalAddress(0)
    ));
    well_formed(&compiled);
}

#[test]
fn call_as_value_pushes_its_arguments() {
    let module = module_named(
        "foo",
        vec![defn(
            "x",
            vec![
                local("a"),
                local("b"),
                assign(
                    "r",
                    AssignmentOp::AllocateAndAssign,
                    Value::Call(call("lib.f", vec!["b", "a", "b"])),
                ),
            ],
        )],
    );
    let compiled = module.compile().unwrap();
    assert_eq!(
        decode_all(&compiled.code),
        vec![
            BOp::FnEntry(BFnEntry { num_locals: 3 }),
            BOp::GetLocal(BGetLocal { idx: 1 }),
            BOp::GetLocal(BGetLocal { idx: 0 }),
            BOp::GetLocal(BGetLocal { idx: 1 }),
            BOp::Call(BCall {
                addr: 0,
                num_args: 3
            }),
            BOp::SetLocal(BSetLocal { idx: 2 }),
        ]
    );
    assert_eq!(compiled.relocations[0].0, 13);
    assert!(matches!(
        &compiled.relocations[0].1,
        CompiledRelocationTarget::ExternalFunctionPath(path) if path == "lib.f"
    ));
    well_formed(&compiled);
}

#[test]
fn nodes_compile_on_their_own() {
    let mut m = hivm2::asm_compiler::Module::new();
    let mut locals = Locals::new();
    locals.add("a".to_owned()).unwrap();
    let lc = LocalContext { locals: locals };

    let ops = Test {
        name: "a".to_owned(),
    }
    .compile(Some(&lc), &mut m)
    .unwrap();
    assert_eq!(ops, vec![Op::Owned(BOp::GetLocal(BGetLocal { idx: 0 }))]);

    let ops = Value::from_name_str("a")
        .compile_to_value(Some(&lc), &mut m)
        .unwrap();
    assert_eq!(ops, vec![Op::Owned(BOp::GetLocal(BGetLocal { idx: 0 }))]);

    let ops = Path::from_str("x.@c")
        .unwrap()
        .compile_to_value(Some(&lc), &mut m)
        .unwrap();
    let load = SharedOp {
        id: 0,
        op: BOp::LoadConst(BLoadConst { id: 0 }),
    };
    assert_eq!(ops, vec![Op::Shared(load)]);
    assert_eq!(m.shared, vec![load.op]);
    assert_eq!(m.relocations.len(), 1);
    assert_eq!(m.relocations[0].site, load);

    let ops = call("f", vec!["a"]).compile(Some(&lc), &mut m).unwrap();
    let site = SharedOp {
        id: 1,
        op: BOp::Call(BCall {
            addr: 0,
            num_args: 1,
        }),
    };
    assert_eq!(
        ops,
        vec![
            Op::Owned(BOp::GetLocal(BGetLocal { idx: 0 })),
            Op::Shared(site),
            Op::Owned(BOp::Pop)
        ]
    );

    assert_eq!(
        Mod::new(Path::from_str("q").unwrap())
            .compile(None, &mut m)
            .unwrap(),
        vec![]
    );
    assert_eq!(m.name, "q");
    assert_eq!(
        Static::new("$s".to_owned()).compile(None, &mut m).unwrap(),
        vec![]
    );
    assert_eq!(m.statics, ["$s"]);
    assert_eq!(
        Return::new(None).compile(None, &mut m).unwrap(),
        vec![Op::Owned(BOp::Return)]
    );
}

#[test]
fn ingested_ops_are_encoded_and_located() {
    let module = Module::new();
    let first = SharedOp {
        id: 4,
        op: BOp::Noop,
    };
    let second = SharedOp {
        id: 2,
        op: BOp::BranchIfNot(BBranchIfNot { dest: 0 }),
    };
    let ops = vec![
        Op::Owned(BOp::Return),
        Op::Shared(second),
        Op::Owned(BOp::Pop),
        Op::Shared(first),
    ];
    let mut bytecode: Vec<u8> = vec![0xff, 0xff];
    let mut op_map: HashMap<usize, u64> = HashMap::new();
    module.ingest_ops(&mut bytecode, ops, &mut op_map);

    let mut expected: Vec<u8> = vec![0xff, 0xff, 5, 8];
    expected.extend_from_slice(&0u64.to_ne_bytes());
    expected.extend_from_slice(&[9, 10]);
    assert_eq!(bytecode, expected);
    assert_eq!(op_map.len(), 2);
    assert_eq!(op_map[&2], 3);
    assert_eq!(op_map[&4], 13);
}

#[test]
fn nested_branches_and_calls_have_sites_of_their_own() {
    let inner = If {
        condition: BasicBlock::with_stmts(vec![Statement::StatementCall(call("lib.t", vec![]))]),
        then_sibling: Then {
            body: BasicBlock::with_stmts(vec![
                assign(
                    "v",
                    AssignmentOp::Plain,
                    Value::Path(Path::from_str("lib.@c").unwrap()),
                ),
                Statement::StatementCall(call("lib.f", vec!["v"])),
            ]),
            else_sibling: None,
        },
    };
    let outer = If {
        condition: BasicBlock::with_stmts(vec![Statement::StatementTest(Test {
            name: "v".to_owned(),
        })]),
        then_sibling: Then {
            body: BasicBlock::with_stmts(vec![
                Statement::StatementIf(inner),
                assign(
                    "v",
                    AssignmentOp::Plain,
                    Value::Fn(Fn::new(vec![], BasicBlock::with_stmts(vec![ret()]))),
                ),
            ]),
            else_sibling: None,
        },
    };
    let module = module_named(
        "foo",
        vec![
            defn("a", vec![local("v"), Statement::StatementIf(outer), ret()]),
            defn("b", vec![Statement::StatementCall(call("foo.a", vec![]))]),
        ],
    );
    let compiled = module.compile().unwrap();
    assert_eq!(compiled.relocations.len(), 7);
    assert_eq!(
        compiled.functions,
        vec![("foo.a".to_owned(), 4), ("foo.b".to_owned(), 4 + 76)]
    );
    well_formed(&compiled);
}

#[test]
fn functions_keep_their_names() {
    let mut m = hivm2::asm_compiler::Module::new();
    let number = m.add_defn(Function {
        name: FunctionName::Named("f".to_owned()),
        ops: vec![],
    });
    assert_eq!(number, 0);
    let number = m.add_fn(Function {
        name: FunctionName::Anonymous,
        ops: vec![],
    });
    assert_eq!(number, 1);
    assert!(matches!(&m.functions[0].name, FunctionName::Named(name) if name == "f"));
    assert!(matches!(m.functions[1].name, FunctionName::Anonymous));
}
