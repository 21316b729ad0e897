use hivm2::asm_parser::grammar::Class;
use hivm2::asm_parser::parser::{
    passignment, pbasicblock, pconst, pconst_argument, pconst_constructor, pconst_name, pdefn,
    pextern, pfn, plocal, plocal_name, pmod, pmodule, ppath, ppfunction_parameters,
    ppidentifier, preturn, pstatement, pstatements, pstatic, pstatic_name, pterminal, pvalue,
};
use hivm2::asm_parser::util::{
    eof, gobble, peek, skip_class, skip_spaces, some_of_class, tag, take_until, to_s, to_text,
    try_each, try_one, PBytes, PResult,
};
use hivm2::assembly::{
    Assignment, AssignmentOp, BasicBlock, Const, Defn, Extern, Fn, Local, Mod, Module, Path,
    Return, Statement, Static, Value,
};
use nom::is_space;

const EMPTY: &'static [u8] = b"";

// Create a `PResult::Done` with no remaining input and the given output.
fn done<'a, T>(output: T) -> PResult<'a, T> {
    PResult::Done(EMPTY, output)
}

fn unwrap_iresult<O>(result: PResult<O>) -> O {
    match result {
        PResult::Done(_, output) => output,
        PResult::Error => panic!("called `unwrap_iresult()` on an `Error` value"),
        PResult::Incomplete => panic!("called `unwrap_iresult()` on an `Incomplete` value"),
    }
}

#[test]
fn parser_parse_path() {
    assert_eq!(
        ppath(b"a"),
        PResult::Done(EMPTY, Path::from_str("a").unwrap())
    );

    assert_eq!(
        ppath(b"b.c"),
        PResult::Done(EMPTY, Path::from_str("b.c").unwrap())
    )
}

#[test]
fn parser_parse_local() {
    let l = plocal(b"local foo");

    assert_eq!(l, PResult::Done(EMPTY, Local::new("foo".to_string())))
}

#[test]
fn mod_parse_local() {
    let l = plocal(b"local foo");

    assert_eq!(l, PResult::Done(EMPTY, Local::new("foo".to_string())))
}

#[test]
fn parse_static() {
    let s = pstatic(b"static $bar");

    assert_eq!(s, PResult::Done(EMPTY, Static::new("$bar".to_string())))
}

#[test]
fn parser_parse_const_with_argument() {
    let parsed_const = pconst(b"const @a = b \"c\"");

    let expected_const = Const::new(
        "@a".to_string(),
        Path::with_name("b".to_string()),
        Some("c".to_string()),
    );

    assert_eq!(parsed_const, PResult::Done(EMPTY, expected_const))
}

#[test]
fn mod_parse_const_with_argument() {
    let parsed_const = pconst(b"const @a = b \"c\"");

    let expected_const = Const::new(
        "@a".to_string(),
        Path::with_name("b".to_string()),
        Some("c".to_string()),
    );

    assert_eq!(parsed_const, PResult::Done(EMPTY, expected_const))
}

#[test]
fn parser_parse_const_without_argument() {
    let parsed_const = pconst(b"const @a = b");

    let expected_const = Const::new("@a".to_string(), Path::with_name("b".to_string()), None);

    assert_eq!(parsed_const, PResult::Done(EMPTY, expected_const))
}

#[test]
fn mod_parse_const_without_argument() {
    let parsed_const = pconst(b"const @a = b");

    let expected_const = Const::new("@a".to_string(), Path::with_name("b".to_string()), None);

    assert_eq!(parsed_const, PResult::Done(EMPTY, expected_const))
}

#[test]
fn parse_assignment_with_name() {
    let parsed_assignment = passignment(b"a = b");

    let expected_assignment = Assignment::new(
        "a".to_string(),
        AssignmentOp::Plain,
        Value::from_name_str("b"),
    );

    assert_eq!(parsed_assignment, PResult::Done(EMPTY, expected_assignment))
}

#[test]
fn parse_assignment_with_fn() {
    let parsed_assignment = passignment(b"a = fn() { b := @c }");

    let expected_assignment = Assignment::new(
        "a".to_owned(),
        AssignmentOp::Plain,
        Value::Fn(Fn::new(
            Vec::new(),
            BasicBlock::with_stmts(vec![Statement::StatementAssignment(unwrap_iresult(
                passignment(b"b := @c"),
            ))]),
        )),
    );

    assert_eq!(parsed_assignment, done(expected_assignment))
}

#[test]
fn parse_allocate_and_assign() {
    let parsed_assignment = passignment(b"a := b");

    let expected_assignment = Assignment::new(
        "a".to_string(),
        AssignmentOp::AllocateAndAssign,
        Value::from_name_str("b"),
    );

    assert_eq!(parsed_assignment, PResult::Done(EMPTY, expected_assignment))
}

#[test]
fn parse_basic_block_with_right_brace_as_terminal() {
    let expected_bb =
        BasicBlock::with_stmts(vec![Statement::StatementLocal(Local::new("bar".to_string()))]);

    assert_eq!(pbasicblock(b"{local bar}"), done(expected_bb))
}

#[test]
fn parse_defn_without_params() {
    let body = BasicBlock::with_stmts(vec![Statement::StatementAssignment(unwrap_iresult(
        passignment(b"bar := baz"),
    ))]);

    let expected_defn = Defn::new("foo".to_string(), vec![], body);

    let parsed_defn = pdefn(b"defn foo() {\n bar := baz \n}");

    assert_eq!(parsed_defn, done(expected_defn))
}

#[test]
fn parse_return_with_argument() {
    let parsed_return = preturn(b"return foo");
    let expected_return = Return::new(Some(Value::from_name_str("foo")));

    assert_eq!(parsed_return, PResult::Done(EMPTY, expected_return))
}

#[test]
fn parse_return_without_argument() {
    let parsed_return = preturn(b"return");
    let expected_return = Return::new(None);

    assert_eq!(parsed_return, PResult::Done(EMPTY, expected_return))
}

#[test]
fn parse_trivial_modules() {
    // Totally empty module
    assert_eq!(pmodule(b""), PResult::Done(EMPTY, Module::new()));

    let l = Local::new("foo".to_string());
    let m = Module::with_stmts(vec![Statement::StatementLocal(l)]);

    // Without a trailing newline before EOF
    assert_eq!(pmodule(b"local foo"), done(m.clone()));

    // With a trailing newline before EOF
    assert_eq!(pmodule(b"local foo\n"), done(m))
}

#[test]
fn parse_basic_module() {
    let mut expected_module = Module::new();

    let m = Mod::new(Path::with_name("foo".to_string()));
    let s = Static::new("$bar".to_string());
    expected_module.push_mod(m);
    expected_module.push_static(s);

    assert_eq!(pmodule(b"mod foo\nstatic $bar"), done(expected_module))
}

#[test]
fn tolerates_whitespace_before_statements() {
    let m = Mod::new(Path::with_name("foo".to_string()));
    let m = Module::with_stmts(vec![Statement::StatementMod(m)]);

    assert_eq!(pmodule(b" \tmod foo"), done(m))
}

#[test]
fn peek_does_peek_ahead() {
    fn matcher(input: PBytes) -> PResult<PBytes> {
        tag("ab", input)
    }

    assert_eq!(peek(b"abc", matcher), true);
    assert_eq!(peek(b"cde", matcher), false);
}

#[test]
fn gobble_consumes_input() {
    assert_eq!(gobble(b" \tab", is_space), b"ab");
}

#[test]
fn try_consumes_if_matches() {
    assert_eq!(
        try_one(b"abc", |i| tag("ab", i)),
        PResult::Done("c".as_bytes(), Some("ab".as_bytes()))
    )
}

#[test]
fn try_doesnt_consume_if_doesnt_match() {
    assert_eq!(
        try_one(b"abc", |i| tag("cd", i)),
        PResult::Done("abc".as_bytes(), None)
    )
}

#[test]
fn try_each_takes_the_first_that_matches() {
    fn ab(input: PBytes) -> PResult<PBytes> {
        tag("ab", input)
    }
    fn a(input: PBytes) -> PResult<PBytes> {
        tag("a", input)
    }
    fn abcd(input: PBytes) -> PResult<PBytes> {
        tag("abcd", input)
    }
    let matchers: Vec<fn(PBytes) -> PResult<PBytes>> = vec![abcd, a, ab];
    assert_eq!(
        try_each(b"abc", matchers),
        PResult::Done("bc".as_bytes(), "a".as_bytes())
    );
    let matchers: Vec<fn(PBytes) -> PResult<PBytes>> = vec![abcd, ab];
    assert_eq!(try_each(b"ax", matchers), PResult::Error);
    let matchers: Vec<fn(PBytes) -> PResult<PBytes>> = vec![];
    assert_eq!(try_each(b"ax", matchers), PResult::Error);
}

#[test]
fn classes_take_their_bytes() {
    assert_eq!(
        some_of_class(Class::Alpha, b"abZ9"),
        PResult::Done("9".as_bytes(), "abZ".as_bytes())
    );
    assert_eq!(some_of_class(Class::Alpha, b"9a"), PResult::Error);
    assert_eq!(some_of_class(Class::Alpha, b"_a"), PResult::Error);
    assert_eq!(some_of_class(Class::Alpha, b""), PResult::Error);
    assert_eq!(
        some_of_class(Class::Alpha, b"abc"),
        PResult::Done(EMPTY, "abc".as_bytes())
    );
    assert_eq!(
        some_of_class(Class::Digit, b"0129a"),
        PResult::Done("a".as_bytes(), "0129".as_bytes())
    );
    assert_eq!(some_of_class(Class::Digit, b"a1"), PResult::Error);
    assert_eq!(
        some_of_class(Class::Space, b" \t \nx"),
        PResult::Done("\nx".as_bytes(), " \t ".as_bytes())
    );
    assert_eq!(some_of_class(Class::Space, b"\n"), PResult::Error);
    assert_eq!(
        some_of_class(Class::MultiSpace, b" \t\r\n x"),
        PResult::Done("x".as_bytes(), " \t\r\n ".as_bytes())
    );
    assert_eq!(some_of_class(Class::MultiSpace, b"x "), PResult::Error);

    assert_eq!(skip_class(Class::Digit, b"12ab"), b"ab");
    assert_eq!(skip_class(Class::Digit, b"ab"), b"ab");
    assert_eq!(skip_spaces(b"\t  a "), b"a ");
    assert_eq!(skip_spaces(b"a "), b"a ");
    assert_eq!(skip_spaces(b"  "), b"");
    assert!(hivm2::asm_parser::util::is_space(b' '));
    assert!(hivm2::asm_parser::util::is_space(b'\t'));
    assert!(!hivm2::asm_parser::util::is_space(b'\n'));
    assert!(!hivm2::asm_parser::util::is_space(b'a'));
    assert!(eof(b""));
    assert!(!eof(b" "));
}

#[test]
fn tags_compare_what_there_is() {
    assert_eq!(
        tag("mod", b"module"),
        PResult::Done("ule".as_bytes(), "mod".as_bytes())
    );
    assert_eq!(tag("mod", b"mo"), PResult::Incomplete);
    assert_eq!(tag("mod", b""), PResult::Incomplete);
    assert_eq!(tag("mod", b"ma"), PResult::Error);
    assert_eq!(tag("mod", b"nod"), PResult::Error);
    assert_eq!(tag("", b"x"), PResult::Done("x".as_bytes(), EMPTY));
}

#[test]
fn take_until_stops_before_the_byte() {
    assert_eq!(
        take_until(b'"', b"ab\"c\""),
        PResult::Done("\"c\"".as_bytes(), "ab".as_bytes())
    );
    assert_eq!(
        take_until(b'"', b"\""),
        PResult::Done("\"".as_bytes(), EMPTY)
    );
    assert_eq!(take_until(b'"', b"abc"), PResult::Error);
    assert_eq!(take_until(b'"', b""), PResult::Incomplete);
}

#[test]
fn bytes_become_text() {
    assert_eq!(to_s(b"abc"), "abc");
    assert_eq!(to_s("h\u{e9}llo \u{1F600}".as_bytes()), "h\u{e9}llo \u{1F600}");
    assert_eq!(to_text(b"abc"), Some("abc".to_string()));
    assert_eq!(to_text(&[0x61, 0xff]), None);
    assert_eq!(to_text(&[0xc3]), None);
}

#[test]
fn names_are_letters_after_a_sigil() {
    assert_eq!(
        plocal_name(b"foo1"),
        PResult::Done("1".as_bytes(), "foo".to_string())
    );
    assert_eq!(plocal_name(b"$foo"), PResult::Error);
    assert_eq!(
        pstatic_name(b"$foo bar"),
        PResult::Done(" bar".as_bytes(), "$foo".to_string())
    );
    assert_eq!(pstatic_name(b"foo"), PResult::Error);
    assert_eq!(pstatic_name(b"$"), PResult::Error);
    assert_eq!(pstatic_name(b""), PResult::Incomplete);
    assert_eq!(
        pconst_name(b"@c."),
        PResult::Done(".".as_bytes(), "@c".to_string())
    );
    assert_eq!(pconst_name(b"@1"), PResult::Error);
    assert_eq!(
        ppidentifier(b"@c"),
        PResult::Done(EMPTY, "@c".to_string())
    );
    assert_eq!(
        ppidentifier(b"$s"),
        PResult::Done(EMPTY, "$s".to_string())
    );
    assert_eq!(ppidentifier(b"l"), PResult::Done(EMPTY, "l".to_string()));
    assert_eq!(ppidentifier(b""), PResult::Incomplete);
    assert_eq!(ppidentifier(b"1"), PResult::Error);
}

#[test]
fn paths_end_where_no_segment_follows() {
    assert_eq!(
        ppath(b"a.b.@c rest"),
        PResult::Done(" rest".as_bytes(), Path::from_str("a.b.@c").unwrap())
    );
    // A period that no segment follows is left
    assert_eq!(
        ppath(b"a.b."),
        PResult::Done(".".as_bytes(), Path::from_str("a.b").unwrap())
    );
    assert_eq!(
        ppath(b"a..b"),
        PResult::Done("..b".as_bytes(), Path::from_str("a").unwrap())
    );
    assert_eq!(
        ppath(b"$s"),
        PResult::Done(EMPTY, Path::from_str("$s").unwrap())
    );
    // A sigil before the last segment makes no path
    assert_eq!(ppath(b"a.@b.c"), PResult::Error);
    assert_eq!(ppath(b"$a.b"), PResult::Error);
    assert_eq!(ppath(b".a"), PResult::Error);
    assert_eq!(ppath(b""), PResult::Incomplete);
}

#[test]
fn statements_end_at_line_feed_brace_or_end() {
    assert_eq!(pterminal(b""), PResult::Done(EMPTY, ()));
    assert_eq!(pterminal(b" \t"), PResult::Done(EMPTY, ()));
    assert_eq!(pterminal(b" \nx"), PResult::Done("x".as_bytes(), ()));
    assert_eq!(pterminal(b" }x"), PResult::Done("}x".as_bytes(), ()));
    assert_eq!(pterminal(b" x"), PResult::Error);
    assert_eq!(pterminal(b"\r\n"), PResult::Error);
}

#[test]
fn keywords_need_space_after_them() {
    assert_eq!(
        pmod(b"mod a.b\nrest"),
        PResult::Done("rest".as_bytes(), Mod::new(Path::from_str("a.b").unwrap()))
    );
    assert_eq!(pmod(b"moda"), PResult::Error);
    assert_eq!(pmod(b"mod"), PResult::Error);
    assert_eq!(pmod(b"mo"), PResult::Incomplete);
    assert_eq!(pmod(b"mod a b"), PResult::Error);
    assert_eq!(
        pextern(b"extern \t lib.f"),
        PResult::Done(EMPTY, Extern::new(Path::from_str("lib.f").unwrap()))
    );
    assert_eq!(plocal(b"local $x"), PResult::Error);
    assert_eq!(pstatic(b"static x"), PResult::Error);
    assert_eq!(plocal(b"local"), PResult::Error);
    assert_eq!(plocal(b"loc"), PResult::Incomplete);
}

#[test]
fn const_arguments_are_strings_numbers_or_null() {
    assert_eq!(
        pconst_argument(b"\"two words\" x"),
        PResult::Done(" x".as_bytes(), "two words".to_string())
    );
    assert_eq!(
        pconst_argument(b"\"\""),
        PResult::Done(EMPTY, "".to_string())
    );
    assert_eq!(
        pconst_argument(b"0123 x"),
        PResult::Done(" x".as_bytes(), "0123".to_string())
    );
    assert_eq!(
        pconst_argument(b"null"),
        PResult::Done(EMPTY, "null".to_string())
    );
    assert_eq!(pconst_argument(b"nul"), PResult::Incomplete);
    assert_eq!(pconst_argument(b"\"open"), PResult::Error);
    assert_eq!(pconst_argument(b"x"), PResult::Error);
    // Bytes that are no text make no string
    assert_eq!(pconst_argument(&[b'"', 0xff, b'"']), PResult::Error);
    assert_eq!(
        pconst_argument("\"\u{e9}\"".as_bytes()),
        PResult::Done(EMPTY, "\u{e9}".to_string())
    );
}

#[test]
fn const_constructors_take_an_argument_if_there_is_one() {
    assert_eq!(
        pconst_constructor(b"a.b 12\n"),
        PResult::Done(
            EMPTY,
            (Path::from_str("a.b").unwrap(), Some("12".to_string()))
        )
    );
    assert_eq!(
        pconst_constructor(b"a.b \n"),
        PResult::Done(EMPTY, (Path::from_str("a.b").unwrap(), None))
    );
    assert_eq!(
        pconst_constructor(b"a.b"),
        PResult::Done(EMPTY, (Path::from_str("a.b").unwrap(), None))
    );
    // Something must part the path from what follows
    assert_eq!(pconst_constructor(b"a.b\n"), PResult::Error);
    assert_eq!(pconst_constructor(b"a.b\"x\""), PResult::Error);
    assert_eq!(pconst_constructor(b"a.b x"), PResult::Error);

    // The constructor takes the end of its line, and the statement wants an
    // end of its own
    assert_eq!(
        pconst(b"const @n =  lib.int 42\n\nlocal x"),
        PResult::Done(
            "local x".as_bytes(),
            Const::new(
                "@n".to_string(),
                Path::from_str("lib.int").unwrap(),
                Some("42".to_string())
            )
        )
    );
    assert_eq!(pconst(b"const @n =  lib.int 42\nlocal x"), PResult::Error);
    assert_eq!(
        pconst(b"const @n = lib.int 42 }"),
        PResult::Done(
            "}".as_bytes(),
            Const::new(
                "@n".to_string(),
                Path::from_str("lib.int").unwrap(),
                Some("42".to_string())
            )
        )
    );
    assert_eq!(pconst(b"const n = lib.int 42"), PResult::Error);
    assert_eq!(pconst(b"const @n lib.int 42"), PResult::Error);
    assert_eq!(pconst(b"const @n ="), PResult::Incomplete);
}

#[test]
fn parameters_are_identifiers_between_parentheses() {
    assert_eq!(
        ppfunction_parameters(b"()"),
        PResult::Done(EMPTY, vec![])
    );
    assert_eq!(
        ppfunction_parameters(b"( a , $b,@c ) {"),
        PResult::Done(
            " {".as_bytes(),
            vec!["a".to_string(), "$b".to_string(), "@c".to_string()]
        )
    );
    assert_eq!(ppfunction_parameters(b"(a,)"), PResult::Error);
    assert_eq!(ppfunction_parameters(b"(a b)"), PResult::Error);
    assert_eq!(ppfunction_parameters(b"a)"), PResult::Error);
    assert_eq!(ppfunction_parameters(b"(a"), PResult::Incomplete);
    assert_eq!(ppfunction_parameters(b"("), PResult::Incomplete);
}

#[test]
fn values_are_functions_or_identifiers() {
    assert_eq!(
        pvalue(b"fn(a) {return a}"),
        done(Value::Fn(Fn::new(
            vec!["a".to_string()],
            BasicBlock::with_stmts(vec![Statement::StatementReturn(Return::new(Some(
                Value::from_name_str("a")
            )))])
        )))
    );
    // What does not go on as a function is a name
    assert_eq!(
        pvalue(b"fn"),
        done(Value::from_name_str("fn"))
    );
    assert_eq!(
        pvalue(b"f"),
        done(Value::from_name_str("f"))
    );
    assert_eq!(
        pvalue(b"@c x"),
        PResult::Done(" x".as_bytes(), Value::from_name_str("@c"))
    );
    assert_eq!(pvalue(b"1"), PResult::Error);
    assert_eq!(pvalue(b""), PResult::Error);
    assert_eq!(
        pfn(b"fn (x, y)\t{ }"),
        done(Fn::new(
            vec!["x".to_string(), "y".to_string()],
            BasicBlock::new()
        ))
    );
    assert_eq!(pfn(b"fn() {"), PResult::Incomplete);
    assert_eq!(pfn(b"fn() x"), PResult::Error);
}

#[test]
fn blocks_hold_statements() {
    assert_eq!(
        pbasicblock(b"{\n  local a\n  a = b\n  return a\n}\nrest"),
        PResult::Done(
            "\nrest".as_bytes(),
            BasicBlock::with_stmts(vec![
                Statement::StatementLocal(Local::new("a".to_string())),
                Statement::StatementAssignment(Assignment::new(
                    "a".to_string(),
                    AssignmentOp::Plain,
                    Value::from_name_str("b")
                )),
                Statement::StatementReturn(Return::new(Some(Value::from_name_str("a")))),
            ])
        )
    );
    assert_eq!(pbasicblock(b"{}"), done(BasicBlock::new()));
    assert_eq!(pbasicblock(b"{ local a"), PResult::Incomplete);
    assert_eq!(pbasicblock(b"{ 1 }"), PResult::Error);
    assert_eq!(pbasicblock(b"local a"), PResult::Error);
}

#[test]
fn statements_are_told_apart_by_their_first_word() {
    assert_eq!(
        pstatement(b"  mod m"),
        done(Statement::StatementMod(Mod::new(
            Path::from_str("m").unwrap()
        )))
    );
    assert_eq!(
        pstatement(b"extern m.f"),
        done(Statement::StatementExtern(Extern::new(
            Path::from_str("m.f").unwrap()
        )))
    );
    assert_eq!(
        pstatement(b"const @c = m.f null"),
        done(Statement::StatementConst(Const::new(
            "@c".to_string(),
            Path::from_str("m.f").unwrap(),
            Some("null".to_string())
        )))
    );
    assert_eq!(
        pstatement(b"static $s"),
        done(Statement::StatementStatic(Static::new("$s".to_string())))
    );
    assert_eq!(
        pstatement(b"local l"),
        done(Statement::StatementLocal(Local::new("l".to_string())))
    );
    assert_eq!(
        pstatement(b"return"),
        done(Statement::StatementReturn(Return::new(None)))
    );
    assert_eq!(
        pstatement(b"$s := l"),
        done(Statement::StatementAssignment(Assignment::new(
            "$s".to_string(),
            AssignmentOp::AllocateAndAssign,
            Value::from_name_str("l")
        )))
    );
    // A word that starts like a keyword is a name
    assert_eq!(
        pstatement(b"modest = l"),
        done(Statement::StatementAssignment(Assignment::new(
            "modest".to_string(),
            AssignmentOp::Plain,
            Value::from_name_str("l")
        )))
    );
    // An input that ends within a keyword is incomplete
    assert_eq!(pstatement(b"r"), PResult::Incomplete);
    assert_eq!(pstatement(b""), PResult::Incomplete);
    assert_eq!(pstatement(b"x"), PResult::Error);
    assert_eq!(pstatement(b"@c = l"), PResult::Error);
    assert_eq!(pstatement(b"a == b"), PResult::Error);
    assert_eq!(pstatement(b"a :"), PResult::Incomplete);
    assert_eq!(passignment(b"a = b c"), PResult::Error);
    assert_eq!(preturn(b"return a b"), PResult::Error);
    assert_eq!(
        preturn(b"return  "),
        done(Return::new(None))
    );
}

#[test]
fn statements_stop_at_what_is_no_statement() {
    assert_eq!(
        pstatements(b"local a\nlocal b\n}"),
        PResult::Done(
            "}".as_bytes(),
            vec![
                Statement::StatementLocal(Local::new("a".to_string())),
                Statement::StatementLocal(Local::new("b".to_string())),
            ]
        )
    );
    assert_eq!(pstatements(b""), PResult::Done(EMPTY, vec![]));
    assert_eq!(pstatements(b"1"), PResult::Done("1".as_bytes(), vec![]));
    assert_eq!(pstatements(b"local a\nlo"), PResult::Incomplete);
}

#[test]
fn modules_must_be_read_to_the_end() {
    assert_eq!(pmodule(b"mod foo\n1"), PResult::Incomplete);
    assert_eq!(pmodule(b"mod foo\nmo"), PResult::Incomplete);
    assert_eq!(pmodule(b"mod foo }"), PResult::Incomplete);
    // One empty line at the end is taken as the end of the module
    assert_eq!(
        pmodule(b"mod foo\n\n"),
        done(Module::with_stmts(vec![Statement::StatementMod(Mod::new(
            Path::from_str("foo").unwrap()
        ))]))
    );
    assert_eq!(pmodule(b"mod foo\n\n\n"), PResult::Incomplete);
    let module = unwrap_iresult(pmodule(
        b"mod app\nextern lib.f\nconst @h = lib.s \"hi\"\n\nstatic $s\n",
    ));
    assert_eq!(module.stmts.len(), 4);
    assert!(module.validate().is_ok());
}

#[test]
fn named_functions_are_parsed_on_their_own() {
    assert_eq!(
        pdefn(b"defn main(a, b) { return a }"),
        done(Defn::new(
            "main".to_string(),
            vec!["a".to_string(), "b".to_string()],
            BasicBlock::with_stmts(vec![Statement::StatementReturn(Return::new(Some(
                Value::from_name_str("a")
            )))])
        ))
    );
    assert_eq!(pdefn(b"defn (a) {}"), PResult::Error);
    assert_eq!(pdefn(b"defn f {}"), PResult::Error);
    assert_eq!(pdefn(b"def"), PResult::Incomplete);
}
