use hivm2::assembly::{
    Assignment, AssignmentOp, BasicBlock, Call, Const, Defn, Extern, Local, Mod, Module,
    ParseError, Path, Return, Statement, Static, Test, ValidationError, Value,
};

fn assert_pushes<F>(block: F)
where
    F: Fn(&mut Module),
{
    let mut p = Module::new();

    block(&mut p);
    assert_eq!(p.stmts.len(), 1)
}

#[test]
fn mod_parse_path() {
    let single = Path::from_str("a").unwrap();
    assert_eq!(*single.segments(), ["a"]);

    let double = Path::from_str("a.b").unwrap();
    assert_eq!(*double.segments(), ["a", "b"]);

    // Check that it parses one with a constant at the end.
    let constant = Path::from_str("a.b.@c");
    let expected =
        Path::new(vec!["a".to_string(), "b".to_string(), "@c".to_string()]).unwrap();
    assert!(constant.is_ok());
    assert_eq!(constant.unwrap(), expected)
}

#[test]
fn errors_on_bad_path() {
    assert_eq!(Path::from_str("$a.b").is_err(), true);

    assert_eq!(Path::from_str("a.@b.c").is_err(), true)
}

#[test]
fn create_module() {
    let p = Module::new();
    assert_eq!(p.stmts.len(), 0)
}

#[test]
fn push_mod() {
    assert_pushes(|p: &mut Module| {
        let m = Mod::new(Path::from_str("test").unwrap());
        p.push_mod(m);
    })
}

#[test]
fn push_extern() {
    assert_pushes(|p: &mut Module| {
        let e = Extern::new(Path::from_str("an_extern").unwrap());
        p.push_extern(e);
    })
}

#[test]
fn push_static() {
    assert_pushes(|p: &mut Module| {
        let s = Static::new("a_static".to_string());
        p.push_static(s);
    })
}

#[test]
fn push_defn() {
    assert_pushes(|p: &mut Module| {
        let bb = BasicBlock::new();
        let d = Defn::new("a_defn".to_string(), vec![], bb);
        p.push_defn(d);
    })
}

#[test]
fn compiles_asm() {
    let function_defn = Defn::new(
        "bar".to_owned(),
        vec!["baz".to_owned()],
        BasicBlock::with_stmts(vec![Statement::StatementReturn(Return::new(Some(Value::with_name(
            "baz".to_owned(),
        ))))]),
    );
    let main_defn = Defn::new(
        "main".to_owned(),
        vec![],
        BasicBlock::with_stmts(vec![
            Statement::StatementAssignment(Assignment::new(
                "val".to_owned(),
                AssignmentOp::AllocateAndAssign,
                Value::Path(Path::with_name("@hello_world".to_owned())),
            )),
            Statement::StatementCall(Call::new(Path::with_name("bar".to_owned()), vec![])),
        ]),
    );
    let hello_world_const = Const::new(
        "@hello_world".to_owned(),
        Path::with_name("_.std.string.new".to_owned()),
        Some("Hello world!".to_owned()),
    );

    let module = Module::with_stmts(vec![
        Statement::StatementMod(Mod::new(Path::with_name("foo".to_owned()))),
        Statement::StatementConst(hello_world_const),
        Statement::StatementDefn(function_defn),
        Statement::StatementDefn(main_defn),
    ]);
    assert_eq!(module.stmts.len(), 4);
    assert!(module.validate().is_ok());
}

#[test]
fn path_with_sigil_at_the_end_keeps_it() {
    let path = Path::from_str("a.b.@c").unwrap();
    assert_eq!(path.segments().last().unwrap(), "@c");
    assert!(path.ends_with_const());
    assert!(!path.ends_with_static());

    let path = Path::from_str("a.$s").unwrap();
    assert!(path.ends_with_static());
    assert!(!path.ends_with_const());

    let path = Path::from_str("a.b").unwrap();
    assert!(!path.ends_with_static());
    assert!(!path.ends_with_const());
}

#[test]
fn path_round_trips_through_its_text() {
    for text in ["a", "a.b", "a.b.@c", "_.std.string.new", "mod.$cell", ""] {
        let path = Path::from_str(text).unwrap();
        assert_eq!(path.to_string(), text);
        assert_eq!(Path::from_str(&path.to_string()).unwrap(), path);
    }
    let path = Path::new(vec!["x".to_string(), "y".to_string(), "$z".to_string()]).unwrap();
    assert_eq!(path.to_string(), "x.y.$z");
    assert_eq!(Path::from_str("x.y.$z").unwrap(), path);
}

#[test]
fn path_splits_at_every_period() {
    let path = Path::from_str("a..b.").unwrap();
    assert_eq!(*path.segments(), ["a", "", "b", ""]);
    let path = Path::from_str(".").unwrap();
    assert_eq!(*path.segments(), ["", ""]);
}

#[test]
fn path_errors_name_the_first_segment_with_a_sigil() {
    match Path::from_str("a.@b.$c.d") {
        Err(ParseError::InvalidSegment(message)) => {
            assert_eq!(message, "Found constant '\"@b\"' inside Path")
        }
        other => panic!("unexpected result: {:?}", other),
    }
    match Path::new(vec!["$s".to_string(), "t".to_string()]) {
        Err(ParseError::InvalidSegment(message)) => {
            assert_eq!(message, "Found static '\"$s\"' inside Path")
        }
        other => panic!("unexpected result: {:?}", other),
    }
}

#[test]
fn path_needs_a_segment() {
    match Path::new(vec![]) {
        Err(ParseError::InvalidSegment(message)) => assert_eq!(message, "Path has no segments"),
        other => panic!("unexpected result: {:?}", other),
    }
}

#[test]
fn path_with_name_takes_any_name() {
    assert_eq!(*Path::with_name("@h".to_string()).segments(), ["@h"]);
    assert_eq!(
        *Path::with_name("_.std.string.new".to_string()).segments(),
        ["_.std.string.new"]
    );
}

#[test]
fn assignment_operators_are_read() {
    assert!(matches!(AssignmentOp::from_str("="), Ok(AssignmentOp::Plain)));
    assert!(matches!(
        AssignmentOp::from_str(":="),
        Ok(AssignmentOp::AllocateAndAssign)
    ));
    assert!(matches!(
        AssignmentOp::from_str("=="),
        Err(ParseError::InvalidOperator("=="))
    ));
    assert!(matches!(
        AssignmentOp::from_str(""),
        Err(ParseError::InvalidOperator(""))
    ));
    assert!(matches!(
        AssignmentOp::from_str(":"),
        Err(ParseError::InvalidOperator(":"))
    ));
}

fn named(name: &str) -> Statement {
    Statement::StatementMod(Mod::new(Path::from_str(name).unwrap()))
}

#[test]
fn module_without_mod_is_invalid() {
    let module = Module::with_stmts(vec![Statement::StatementStatic(Static::new(
        "$s".to_string(),
    ))]);
    assert!(matches!(
        module.validate(),
        Err(ValidationError::MissingModStatement)
    ));
    assert!(matches!(
        Module::new().validate(),
        Err(ValidationError::MissingModStatement)
    ));
}

#[test]
fn module_with_two_mods_is_invalid() {
    let module = Module::with_stmts(vec![named("a"), named("b")]);
    assert!(matches!(
        module.validate(),
        Err(ValidationError::MoreThanOneModStatement)
    ));
}

#[test]
fn local_at_top_level_is_invalid() {
    let local = Statement::StatementLocal(Local::new("x".to_string()));
    let module = Module::with_stmts(vec![named("a"), local.clone()]);
    match module.validate() {
        Err(ValidationError::InvalidTopLevelStatement(stmt)) => assert_eq!(stmt, local),
        _ => panic!("the local was accepted"),
    }
}

#[test]
fn first_invalid_statement_is_reported_before_the_mod_count() {
    let test = Statement::StatementTest(Test {
        name: "t".to_string(),
    });
    let module = Module::with_stmts(vec![
        named("a"),
        named("b"),
        test.clone(),
        Statement::StatementBreak,
    ]);
    match module.validate() {
        Err(ValidationError::InvalidTopLevelStatement(stmt)) => assert_eq!(stmt, test),
        _ => panic!("the test was accepted"),
    }
}

#[test]
fn module_with_one_mod_is_valid() {
    let mut module = Module::new();
    module.push_extern(Extern::new(Path::from_str("other.f").unwrap()));
    module.push_mod(Mod::new(Path::from_str("a.b").unwrap()));
    module.push_static(Static::new("$s".to_string()));
    module.push_defn(Defn::new("f".to_string(), vec![], BasicBlock::new()));
    module.stmts.push(Statement::StatementConst(Const::new(
        "@c".to_string(),
        Path::from_str("_.std.string.new").unwrap(),
        None,
    )));
    assert!(module.validate().is_ok());
}

#[test]
fn clones_are_equal() {
    let body = BasicBlock::with_stmts(vec![
        Statement::StatementLocal(Local::new("x".to_string())),
        Statement::StatementAssignment(Assignment::new(
            "x".to_string(),
            AssignmentOp::Plain,
            Value::Call(Call::new(
                Path::from_str("a.f").unwrap(),
                vec!["x".to_string()],
            )),
        )),
        Statement::StatementReturn(Return::new(Some(Value::from_name_str("x")))),
    ]);
    let defn = Statement::StatementDefn(Defn::new("f".to_string(), vec!["p".to_string()], body));
    let module = Module::with_stmts(vec![named("m"), defn]);
    assert_eq!(module.clone(), module);
}
