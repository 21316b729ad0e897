use super::grammar;
use super::grammar::{ascii_text, in_class, word, Class, Parsed};
use super::util::{
    eof, lemma_ascii_text, parsed_as, skip_class, skip_spaces, some_of_class, take_until, to_s,
    to_text, PBytes, PResult,
};
use crate::assembly::view::{lemma_statements_view, statements_view, text_view, StatementView};
use crate::assembly::{
    Assignment, AssignmentOp, BasicBlock, Const, Defn, Extern, Fn, Local, Mod, Module, Path,
    Return, Statement, Static, Value,
};
use vstd::prelude::*;
use vstd::slice::slice_subrange;
use vstd::string::{is_ascii, is_ascii_spec_bytes, StringExecFns, StringSliceAdditionalSpecFns};

verus! {

/// The text that letters, digits, spaces and tabs spell.
fn class_text(class: Class, bytes: PBytes) -> (text: String)
    requires
        forall|i: int| 0 <= i < bytes@.len() ==> in_class(class, #[trigger] bytes@[i]),
    ensures
        text@ == ascii_text(bytes@),
{
    proof {
        assert forall|i: int| 0 <= i < bytes@.len() implies #[trigger] bytes@[i] < 128 by {
            assert(in_class(class, bytes@[i]));
        }
        lemma_ascii_text(bytes@);
    }
    to_s(bytes)
}

/// The ASCII word at the start of the input.
fn tag<'a>(text: &str, input: PBytes<'a>) -> (result: PResult<'a, PBytes<'a>>)
    requires
        is_ascii(text),
    ensures
        parsed_as(result, grammar::tag(word(text@), input@)),
        result matches PResult::Done(rest, matched) ==> rest@.len() + text@.len()
            == input@.len(),
{
    proof {
        is_ascii_spec_bytes(text);
        assert(text.spec_bytes() =~= word(text@));
    }
    super::util::tag(text, input)
}

/// The name of a local: letters.
pub fn plocal_name(input: PBytes) -> (result: PResult<String>)
    ensures
        parsed_as(result, grammar::local_name(input@)),
        result matches PResult::Done(rest, _) ==> rest@.len() < input@.len(),
{
    match some_of_class(Class::Alpha, input) {
        PResult::Done(rest, name) => PResult::Done(rest, class_text(Class::Alpha, name)),
        _ => PResult::Error,
    }
}

/// A name with a sigil: the sigil, then letters.
fn sigil_name<'a>(sigil: &str, input: PBytes<'a>) -> (result: PResult<'a, String>)
    requires
        is_ascii(sigil),
    ensures
        parsed_as(result, grammar::sigil_name(sigil@, input@)),
        result matches PResult::Done(rest, _) ==> rest@.len() < input@.len(),
{
    match tag(sigil, input) {
        PResult::Done(rest, _) => match some_of_class(Class::Alpha, rest) {
            PResult::Done(rest, name) => {
                let mut text: String = sigil.to_owned();
                text.append(class_text(Class::Alpha, name).as_str());
                PResult::Done(rest, text)
            },
            _ => PResult::Error,
        },
        PResult::Error => PResult::Error,
        PResult::Incomplete => PResult::Incomplete,
    }
}

/// The name of a static: `$`, then letters.
pub fn pstatic_name(input: PBytes) -> (result: PResult<String>)
    ensures
        parsed_as(result, grammar::static_name(input@)),
        result matches PResult::Done(rest, _) ==> rest@.len() < input@.len(),
{
    proof {
        reveal_strlit("$");
    }
    sigil_name("$", input)
}

/// The name of a constant: `@`, then letters.
pub fn pconst_name(input: PBytes) -> (result: PResult<String>)
    ensures
        parsed_as(result, grammar::const_name(input@)),
        result matches PResult::Done(rest, _) ==> rest@.len() < input@.len(),
{
    proof {
        reveal_strlit("@");
    }
    sigil_name("@", input)
}

/// A segment of a path: the name of a local, of a static or of a constant.
fn psegment(input: PBytes) -> (result: PResult<String>)
    ensures
        parsed_as(result, grammar::segment(input@)),
        result matches PResult::Done(rest, _) ==> rest@.len() < input@.len(),
{
    match plocal_name(input) {
        PResult::Error => match pstatic_name(input) {
            PResult::Error => pconst_name(input),
            found => found,
        },
        found => found,
    }
}

/// An identifier: the name of a constant, of a static or of a local.
pub fn ppidentifier(input: PBytes) -> (result: PResult<String>)
    ensures
        parsed_as(result, grammar::identifier(input@)),
        result matches PResult::Done(rest, _) ==> rest@.len() < input@.len(),
{
    match pconst_name(input) {
        PResult::Error => match pstatic_name(input) {
            PResult::Error => plocal_name(input),
            found => found,
        },
        found => found,
    }
}

/// Parses a path like "a.b.c"
pub fn ppath(input: PBytes) -> (result: PResult<Path>)
    ensures
        parsed_as(result, grammar::path(input@)),
        result matches PResult::Done(rest, _) ==> rest@.len() < input@.len(),
{
    let (first, after) = match psegment(input) {
        PResult::Done(rest, name) => (name, rest),
        PResult::Error => {
            return PResult::Error;
        },
        PResult::Incomplete => {
            return PResult::Incomplete;
        },
    };
    let ghost start = after@;
    let mut segments: Vec<String> = Vec::new();
    segments.push(first);
    let mut rest: PBytes = after;
    proof {
        reveal_strlit(".");
        assert(segments.deep_view() =~= seq![first@]);
    }
    loop
        invariant
            rest@.len() <= start.len(),
            start.len() < input@.len(),
            segments.deep_view() + grammar::more_segments(rest@).0 == seq![first@]
                + grammar::more_segments(start).0,
            grammar::more_segments(rest@).1 == grammar::more_segments(start).1,
        ensures
            segments.deep_view() == seq![first@] + grammar::more_segments(start).0,
            rest@ == grammar::more_segments(start).1,
            rest@.len() < input@.len(),
        decreases rest@.len(),
    {
        proof {
            reveal_strlit(".");
        }
        let after_period = match tag(".", rest) {
            PResult::Done(after_period, _) => after_period,
            _ => {
                break ;
            },
        };
        match psegment(after_period) {
            PResult::Done(after_name, name) => {
                let ghost before = segments.deep_view();
                proof {
                    let (names, end) = grammar::more_segments(after_name@);
                    assert(before.push(name@) + names =~= before + (seq![name@] + names));
                }
                segments.push(name);
                assert(segments.deep_view() =~= before.push(name@));
                rest = after_name;
            },
            _ => {
                break ;
            },
        }
    }
    match Path::new(segments) {
        Ok(path) => PResult::Done(rest, path),
        Err(_) => PResult::Error,
    }
}

/// The end of a statement: after spaces and tabs, the end of the input or a
/// closing brace, which is left, or a line feed, which is taken.
pub fn pterminal(input: PBytes) -> (result: PResult<()>)
    ensures
        match grammar::terminal(input@) {
            Parsed::Done(_, rest) => result matches PResult::Done(r, _) && r@ == rest,
            _ => result is Error,
        },
        result matches PResult::Done(rest, _) ==> rest@.len() <= input@.len(),
{
    let input = skip_spaces(input);
    if eof(input) {
        return PResult::Done(input, ());
    }
    if input[0] == 0x7D {
        return PResult::Done(input, ());
    }
    if input[0] == 0x0A {
        let rest = slice_subrange(input, 1, input.len());
        assert(rest@ =~= input@.skip(1));
        return PResult::Done(rest, ());
    }
    PResult::Error
}

/// A keyword, then spaces or tabs: the input after them.
fn pkeyword<'a>(text: &str, input: PBytes<'a>) -> (result: PResult<'a, ()>)
    requires
        is_ascii(text),
    ensures
        match grammar::keyword(text@, input@) {
            Parsed::Done(_, rest) => result matches PResult::Done(r, _) && r@ == rest,
            Parsed::Error => result is Error,
            Parsed::Incomplete => result is Incomplete,
        },
        result matches PResult::Done(rest, _) ==> rest@.len() < input@.len(),
{
    match tag(text, input) {
        PResult::Done(rest, _) => match some_of_class(Class::Space, rest) {
            PResult::Done(rest, _) => PResult::Done(rest, ()),
            _ => PResult::Error,
        },
        PResult::Error => PResult::Error,
        PResult::Incomplete => PResult::Incomplete,
    }
}

/// A path after a keyword, up to the end of the statement.
fn pkeyword_path<'a>(text: &str, input: PBytes<'a>) -> (result: PResult<'a, Path>)
    requires
        is_ascii(text),
    ensures
        parsed_as(result, grammar::keyword_path(text@, input@)),
        result matches PResult::Done(rest, _) ==> rest@.len() < input@.len(),
{
    match pkeyword(text, input) {
        PResult::Done(rest, _) => match ppath(rest) {
            PResult::Done(rest, path) => match pterminal(rest) {
                PResult::Done(rest, _) => PResult::Done(rest, path),
                _ => PResult::Error,
            },
            PResult::Error => PResult::Error,
            PResult::Incomplete => PResult::Incomplete,
        },
        PResult::Error => PResult::Error,
        PResult::Incomplete => PResult::Incomplete,
    }
}

/// Parses a mod definition
pub fn pmod(input: PBytes) -> (result: PResult<Mod>)
    ensures
        parsed_as(result, grammar::mod_statement(input@)),
        result matches PResult::Done(rest, _) ==> rest@.len() < input@.len(),
{
    proof {
        reveal_strlit("mod");
    }
    match pkeyword_path("mod", input) {
        PResult::Done(rest, path) => PResult::Done(rest, Mod::new(path)),
        PResult::Error => PResult::Error,
        PResult::Incomplete => PResult::Incomplete,
    }
}

/// Parses `extern PATH` where path is like "foo.bar".
pub fn pextern(input: PBytes) -> (result: PResult<Extern>)
    ensures
        parsed_as(result, grammar::extern_statement(input@)),
        result matches PResult::Done(rest, _) ==> rest@.len() < input@.len(),
{
    proof {
        reveal_strlit("extern");
    }
    match pkeyword_path("extern", input) {
        PResult::Done(rest, path) => PResult::Done(rest, Extern::new(path)),
        PResult::Error => PResult::Error,
        PResult::Incomplete => PResult::Incomplete,
    }
}

/// Parses `local NAME`
pub fn plocal(input: PBytes) -> (result: PResult<Local>)
    ensures
        parsed_as(result, grammar::local_statement(input@)),
        result matches PResult::Done(rest, _) ==> rest@.len() < input@.len(),
{
    proof {
        reveal_strlit("local");
    }
    match pkeyword("local", input) {
        PResult::Done(rest, _) => match plocal_name(rest) {
            PResult::Done(rest, name) => match pterminal(rest) {
                PResult::Done(rest, _) => PResult::Done(rest, Local::new(name)),
                _ => PResult::Error,
            },
            PResult::Error => PResult::Error,
            PResult::Incomplete => PResult::Incomplete,
        },
        PResult::Error => PResult::Error,
        PResult::Incomplete => PResult::Incomplete,
    }
}

/// Parses `static $NAME`
pub fn pstatic(input: PBytes) -> (result: PResult<Static>)
    ensures
        parsed_as(result, grammar::static_statement(input@)),
        result matches PResult::Done(rest, _) ==> rest@.len() < input@.len(),
{
    proof {
        reveal_strlit("static");
    }
    match pkeyword("static", input) {
        PResult::Done(rest, _) => match pstatic_name(rest) {
            PResult::Done(rest, name) => match pterminal(rest) {
                PResult::Done(rest, _) => PResult::Done(rest, Static::new(name)),
                _ => PResult::Error,
            },
            PResult::Error => PResult::Error,
            PResult::Incomplete => PResult::Incomplete,
        },
        PResult::Error => PResult::Error,
        PResult::Incomplete => PResult::Incomplete,
    }
}

/// A string as the argument of a constant: what stands between two double
/// quotes, which must be text.
fn pconst_string(input: PBytes) -> (result: PResult<String>)
    ensures
        parsed_as(result, grammar::const_string(input@)),
        result matches PResult::Done(rest, _) ==> rest@.len() < input@.len(),
{
    proof {
        reveal_strlit("\"");
    }
    match tag("\"", input) {
        PResult::Done(rest, _) => match take_until(0x22, rest) {
            PResult::Done(rest, value) => match tag("\"", rest) {
                PResult::Done(rest, _) => match to_text(value) {
                    Some(text) => PResult::Done(rest, text),
                    None => PResult::Error,
                },
                PResult::Error => PResult::Error,
                PResult::Incomplete => PResult::Incomplete,
            },
            PResult::Error => PResult::Error,
            PResult::Incomplete => PResult::Incomplete,
        },
        PResult::Error => PResult::Error,
        PResult::Incomplete => PResult::Incomplete,
    }
}

/// A number as the argument of a constant: digits.
fn pconst_number(input: PBytes) -> (result: PResult<String>)
    ensures
        parsed_as(result, grammar::const_number(input@)),
        result matches PResult::Done(rest, _) ==> rest@.len() < input@.len(),
{
    match some_of_class(Class::Digit, input) {
        PResult::Done(rest, value) => PResult::Done(rest, class_text(Class::Digit, value)),
        _ => PResult::Error,
    }
}

/// The word `null` as the argument of a constant.
fn pconst_null(input: PBytes) -> (result: PResult<String>)
    ensures
        parsed_as(result, grammar::const_null(input@)),
        result matches PResult::Done(rest, _) ==> rest@.len() < input@.len(),
{
    proof {
        reveal_strlit("null");
    }
    match tag("null", input) {
        PResult::Done(rest, _) => PResult::Done(rest, "null".to_owned()),
        PResult::Error => PResult::Error,
        PResult::Incomplete => PResult::Incomplete,
    }
}

/// Parses constant constructor argument (string, number or null)
///
/// - string = `"[^"]*"``
/// - number = `[0-9]+`
/// - null = `null`
pub fn pconst_argument(input: PBytes) -> (result: PResult<String>)
    ensures
        parsed_as(result, grammar::const_argument(input@)),
        result matches PResult::Done(rest, _) ==> rest@.len() < input@.len(),
{
    match pconst_string(input) {
        PResult::Error => match pconst_number(input) {
            PResult::Error => pconst_null(input),
            found => found,
        },
        found => found,
    }
}

/// Parses constant constructor (path to a function and an optional argument).
/// Spaces or tabs part the path from what follows; a path at the very end of
/// the input needs none after it.
pub fn pconst_constructor(input: PBytes) -> (result: PResult<(Path, Option<String>)>)
    ensures
        match grammar::const_constructor(input@) {
            Parsed::Done(made, rest) => result matches PResult::Done(r, found) && r@ == rest
                && found.0@ == made.0 && text_view(found.1) == made.1,
            Parsed::Error => result is Error,
            Parsed::Incomplete => result is Incomplete,
        },
        result matches PResult::Done(rest, _) ==> rest@.len() < input@.len(),
{
    let (cons, rest) = match ppath(input) {
        PResult::Done(rest, cons) => (cons, rest),
        PResult::Error => {
            return PResult::Error;
        },
        PResult::Incomplete => {
            return PResult::Incomplete;
        },
    };
    let rest = if eof(rest) {
        rest
    } else {
        match some_of_class(Class::Space, rest) {
            PResult::Done(rest, _) => rest,
            _ => {
                return PResult::Error;
            },
        }
    };
    let (arg, rest) = match pconst_argument(rest) {
        PResult::Done(after, arg) => (Some(arg), after),
        _ => (None, rest),
    };
    match pterminal(rest) {
        PResult::Done(rest, _) => PResult::Done(rest, (cons, arg)),
        _ => PResult::Error,
    }
}

/// Parses `const @NAME = CONSTRUCTOR ARGUMENT?``
#[verifier::rlimit(60)]
pub fn pconst(input: PBytes) -> (result: PResult<Const>)
    ensures
        parsed_as(result, grammar::const_statement(input@)),
        result matches PResult::Done(rest, _) ==> rest@.len() < input@.len(),
{
    proof {
        reveal_strlit("const");
        reveal_strlit("=");
    }
    let rest = match pkeyword("const", input) {
        PResult::Done(rest, _) => rest,
        PResult::Error => {
            return PResult::Error;
        },
        PResult::Incomplete => {
            return PResult::Incomplete;
        },
    };
    let (name, rest) = match pconst_name(rest) {
        PResult::Done(rest, name) => (name, rest),
        PResult::Error => {
            return PResult::Error;
        },
        PResult::Incomplete => {
            return PResult::Incomplete;
        },
    };
    let rest = match some_of_class(Class::Space, rest) {
        PResult::Done(rest, _) => rest,
        _ => {
            return PResult::Error;
        },
    };
    let rest = match tag("=", rest) {
        PResult::Done(rest, _) => rest,
        PResult::Error => {
            return PResult::Error;
        },
        PResult::Incomplete => {
            return PResult::Incomplete;
        },
    };
    let rest = skip_class(Class::Space, rest);
    let (cons, rest) = match pconst_constructor(rest) {
        PResult::Done(rest, cons) => (cons, rest),
        PResult::Error => {
            return PResult::Error;
        },
        PResult::Incomplete => {
            return PResult::Incomplete;
        },
    };
    match pterminal(rest) {
        PResult::Done(rest, _) => PResult::Done(rest, Const::new(name, cons.0, cons.1)),
        _ => PResult::Error,
    }
}

/// A comma between two parameters, with spaces and tabs around it: the
/// input after it.
fn pcomma(input: PBytes) -> (result: PResult<()>)
    ensures
        match grammar::comma(input@) {
            Parsed::Done(_, rest) => result matches PResult::Done(r, _) && r@ == rest,
            Parsed::Error => result is Error,
            Parsed::Incomplete => result is Incomplete,
        },
        result matches PResult::Done(rest, _) ==> rest@.len() < input@.len(),
{
    proof {
        reveal_strlit(",");
    }
    match tag(",", skip_class(Class::Space, input)) {
        PResult::Done(rest, _) => PResult::Done(skip_class(Class::Space, rest), ()),
        PResult::Error => PResult::Error,
        PResult::Incomplete => PResult::Incomplete,
    }
}

/// Identifiers with commas between them, or none.
fn pidentifiers(input: PBytes) -> (result: PResult<Vec<String>>)
    ensures
        match grammar::identifiers(input@) {
            Parsed::Done(names, rest) => result matches PResult::Done(r, found) && r@ == rest
                && found.deep_view() == names,
            Parsed::Error => result is Error,
            Parsed::Incomplete => result is Incomplete,
        },
        result matches PResult::Done(rest, _) ==> rest@.len() <= input@.len(),
{
    let mut names: Vec<String> = Vec::new();
    let (first, after) = match ppidentifier(input) {
        PResult::Done(rest, name) => (name, rest),
        PResult::Error => {
            assert(names.deep_view() =~= Seq::<Seq<char>>::empty());
            return PResult::Done(input, names);
        },
        PResult::Incomplete => {
            return PResult::Incomplete;
        },
    };
    let ghost start = after@;
    names.push(first);
    let mut rest: PBytes = after;
    proof {
        assert(names.deep_view() =~= seq![first@]);
    }
    loop
        invariant
            rest@.len() <= start.len(),
            start.len() < input@.len(),
            names.deep_view() + grammar::more_identifiers(rest@).0 == seq![first@]
                + grammar::more_identifiers(start).0,
            grammar::more_identifiers(rest@).1 == grammar::more_identifiers(start).1,
        ensures
            names.deep_view() == seq![first@] + grammar::more_identifiers(start).0,
            rest@ == grammar::more_identifiers(start).1,
            rest@.len() < input@.len(),
        decreases rest@.len(),
    {
        let after_comma = match pcomma(rest) {
            PResult::Done(after_comma, _) => after_comma,
            _ => {
                break ;
            },
        };
        match ppidentifier(after_comma) {
            PResult::Done(after_name, name) => {
                let ghost before = names.deep_view();
                proof {
                    let (more, end) = grammar::more_identifiers(after_name@);
                    assert(before.push(name@) + more =~= before + (seq![name@] + more));
                }
                names.push(name);
                assert(names.deep_view() =~= before.push(name@));
                rest = after_name;
            },
            _ => {
                break ;
            },
        }
    }
    PResult::Done(rest, names)
}

/// The parameters of a function: identifiers between parentheses.
pub fn ppfunction_parameters(input: PBytes) -> (result: PResult<Vec<String>>)
    ensures
        match grammar::parameters(input@) {
            Parsed::Done(names, rest) => result matches PResult::Done(r, found) && r@ == rest
                && found.deep_view() == names,
            Parsed::Error => result is Error,
            Parsed::Incomplete => result is Incomplete,
        },
        result matches PResult::Done(rest, _) ==> rest@.len() < input@.len(),
{
    proof {
        reveal_strlit("(");
        reveal_strlit(")");
    }
    let rest = match tag("(", input) {
        PResult::Done(rest, _) => rest,
        PResult::Error => {
            return PResult::Error;
        },
        PResult::Incomplete => {
            return PResult::Incomplete;
        },
    };
    let (args, rest) = match pidentifiers(skip_class(Class::Space, rest)) {
        PResult::Done(rest, args) => (args, rest),
        PResult::Error => {
            return PResult::Error;
        },
        PResult::Incomplete => {
            return PResult::Incomplete;
        },
    };
    match tag(")", skip_class(Class::Space, rest)) {
        PResult::Done(rest, _) => PResult::Done(rest, args),
        PResult::Error => PResult::Error,
        PResult::Incomplete => PResult::Incomplete,
    }
}

/// What the statements read so far and the statements that follow make
/// together.
pub open spec fn prepend(
    first: Seq<StatementView>,
    more: Parsed<Seq<StatementView>>,
) -> Parsed<Seq<StatementView>> {
    match more {
        Parsed::Done(stmts, rest) => Parsed::Done(first + stmts, rest),
        Parsed::Error => Parsed::Error,
        Parsed::Incomplete => Parsed::Incomplete,
    }
}

/// Whether the parser has made of the input the statements that the
/// grammar makes of it.
pub open spec fn statements_as(
    result: PResult<Vec<Statement>>,
    parsed: Parsed<Seq<StatementView>>,
) -> bool {
    match parsed {
        Parsed::Done(stmts, rest) => result matches PResult::Done(r, found) && r@ == rest
            && statements_view(found, found.len() as nat) == stmts,
        Parsed::Error => result is Error,
        Parsed::Incomplete => result is Incomplete,
    }
}

/// Parses a value type:
/// - An anonymous function (`fn(ARGS) BLOCK`)
/// - An identifier (`local`, `@static`, or `$const`)
pub fn pvalue(input: PBytes) -> (result: PResult<Value>)
    ensures
        parsed_as(result, grammar::value(input@)),
        result matches PResult::Done(rest, _) ==> rest@.len() < input@.len(),
    decreases input@.len(), 3nat,
{
    match pfn(input) {
        PResult::Done(rest, f) => PResult::Done(rest, Value::Fn(f)),
        _ => match ppidentifier(input) {
            PResult::Done(rest, name) => PResult::Done(rest, Value::with_name(name)),
            _ => PResult::Error,
        },
    }
}

/// Parses the `fn` value syntax for anonymous functions.
pub fn pfn(input: PBytes) -> (result: PResult<Fn>)
    ensures
        parsed_as(result, grammar::function(input@)),
        result matches PResult::Done(rest, _) ==> rest@.len() < input@.len(),
    decreases input@.len(), 2nat,
{
    proof {
        reveal_strlit("fn");
    }
    let rest = match tag("fn", input) {
        PResult::Done(rest, _) => rest,
        PResult::Error => {
            return PResult::Error;
        },
        PResult::Incomplete => {
            return PResult::Incomplete;
        },
    };
    let (parameters, rest) = match ppfunction_parameters(skip_class(Class::Space, rest)) {
        PResult::Done(rest, parameters) => (parameters, rest),
        PResult::Error => {
            return PResult::Error;
        },
        PResult::Incomplete => {
            return PResult::Incomplete;
        },
    };
    match pbasicblock(skip_class(Class::Space, rest)) {
        PResult::Done(rest, body) => PResult::Done(rest, Fn::new(parameters, body)),
        PResult::Error => PResult::Error,
        PResult::Incomplete => PResult::Incomplete,
    }
}

/// Parses a block: `{ STATEMENTS }`.
pub fn pbasicblock(input: PBytes) -> (result: PResult<BasicBlock>)
    ensures
        parsed_as(result, grammar::block(input@)),
        result matches PResult::Done(rest, _) ==> rest@.len() < input@.len(),
    decreases input@.len(), 1nat,
{
    proof {
        reveal_strlit("{");
        reveal_strlit("}");
    }
    let rest = match tag("{", input) {
        PResult::Done(rest, _) => rest,
        PResult::Error => {
            return PResult::Error;
        },
        PResult::Incomplete => {
            return PResult::Incomplete;
        },
    };
    let (stmts, rest) = match pstatements(skip_class(Class::MultiSpace, rest)) {
        PResult::Done(rest, stmts) => (stmts, rest),
        PResult::Error => {
            return PResult::Error;
        },
        PResult::Incomplete => {
            return PResult::Incomplete;
        },
    };
    match tag("}", skip_class(Class::MultiSpace, rest)) {
        PResult::Done(rest, _) => PResult::Done(rest, BasicBlock::with_stmts(stmts)),
        PResult::Error => PResult::Error,
        PResult::Incomplete => PResult::Incomplete,
    }
}

/// Parses statements, one after the other, as many as there are.
pub fn pstatements(input: PBytes) -> (result: PResult<Vec<Statement>>)
    ensures
        statements_as(result, grammar::statements(input@)),
        result matches PResult::Done(rest, _) ==> rest@.len() <= input@.len(),
    decreases input@.len(), 7nat,
{
    let mut stmts: Vec<Statement> = Vec::new();
    let mut rest: PBytes = input;
    let ghost expected = grammar::statements(input@);
    assert(statements_view(stmts, 0) =~= Seq::empty());
    assert(prepend(Seq::empty(), expected) == expected) by {
        match expected {
            Parsed::Done(found, end) => {
                assert(Seq::<StatementView>::empty() + found =~= found);
            },
            _ => {},
        }
    }
    loop
        invariant
            rest@.len() <= input@.len(),
            expected == grammar::statements(input@),
            prepend(statements_view(stmts, stmts.len() as nat), grammar::statements(rest@))
                == expected,
        decreases rest@.len(),
    {
        let ghost read = statements_view(stmts, stmts.len() as nat);
        if rest.len() == 0 {
            assert(read + Seq::<StatementView>::empty() =~= read);
            return PResult::Done(rest, stmts);
        }
        match pstatement(rest) {
            PResult::Done(after, stmt) => {
                proof {
                    match grammar::statements(after@) {
                        Parsed::Done(more, end) => {
                            assert(read.push(stmt@) + more =~= read + (seq![stmt@] + more));
                        },
                        _ => {},
                    }
                }
                let ghost before = stmts;
                stmts.push(stmt);
                proof {
                    lemma_statements_view(before, before.len() as nat);
                    lemma_statements_view(stmts, stmts.len() as nat);
                    assert(statements_view(stmts, stmts.len() as nat) =~= read.push(stmt@));
                }
                rest = after;
            },
            PResult::Error => {
                assert(read + Seq::<StatementView>::empty() =~= read);
                return PResult::Done(rest, stmts);
            },
            PResult::Incomplete => {
                return PResult::Incomplete;
            },
        }
    }
}

/// Parses assignments in the following forms:
/// - `NAME = VALUE`
/// - `NAME := VALUE`
///
/// Where name can be a static or local storage and value can be any kind of storage identifier.
pub fn passignment(input: PBytes) -> (result: PResult<Assignment>)
    ensures
        parsed_as(result, grammar::assignment(input@)),
        result matches PResult::Done(rest, _) ==> rest@.len() < input@.len(),
    decreases input@.len(), 5nat,
{
    proof {
        reveal_strlit(":=");
        reveal_strlit("=");
    }
    let found = match plocal_name(input) {
        PResult::Error => pstatic_name(input),
        found => found,
    };
    let (lvalue, rest) = match found {
        PResult::Done(rest, lvalue) => (lvalue, rest),
        PResult::Error => {
            return PResult::Error;
        },
        PResult::Incomplete => {
            return PResult::Incomplete;
        },
    };
    let rest = match some_of_class(Class::Space, rest) {
        PResult::Done(rest, _) => rest,
        _ => {
            return PResult::Error;
        },
    };
    let (op, rest) = match tag(":=", rest) {
        PResult::Done(rest, _) => (AssignmentOp::AllocateAndAssign, rest),
        PResult::Incomplete => {
            return PResult::Incomplete;
        },
        PResult::Error => match tag("=", rest) {
            PResult::Done(rest, _) => (AssignmentOp::Plain, rest),
            PResult::Error => {
                return PResult::Error;
            },
            PResult::Incomplete => {
                return PResult::Incomplete;
            },
        },
    };
    let rest = match some_of_class(Class::Space, rest) {
        PResult::Done(rest, _) => rest,
        _ => {
            return PResult::Error;
        },
    };
    let (rvalue, rest) = match pvalue(rest) {
        PResult::Done(rest, rvalue) => (rvalue, rest),
        PResult::Error => {
            return PResult::Error;
        },
        PResult::Incomplete => {
            return PResult::Incomplete;
        },
    };
    match pterminal(rest) {
        PResult::Done(rest, _) => PResult::Done(rest, Assignment::new(lvalue, op, rvalue)),
        _ => PResult::Error,
    }
}

/// Parses the two patterns for returns:
/// - `return`
/// - `return VALUE`
pub fn preturn(input: PBytes) -> (result: PResult<Return>)
    ensures
        parsed_as(result, grammar::return_statement(input@)),
        result matches PResult::Done(rest, _) ==> rest@.len() < input@.len(),
    decreases input@.len(), 5nat,
{
    proof {
        reveal_strlit("return");
    }
    let rest = match tag("return", input) {
        PResult::Done(rest, _) => rest,
        PResult::Error => {
            return PResult::Error;
        },
        PResult::Incomplete => {
            return PResult::Incomplete;
        },
    };
    let (arg, rest) = match some_of_class(Class::Space, rest) {
        PResult::Done(after, _) => match pvalue(after) {
            PResult::Done(after, value) => (Some(value), after),
            _ => (None, rest),
        },
        _ => (None, rest),
    };
    match pterminal(rest) {
        PResult::Done(rest, _) => PResult::Done(rest, Return::new(arg)),
        _ => PResult::Error,
    }
}

/// Parses a statement, after spaces and tabs: the first of `mod`, `extern`,
/// `const`, `static`, `local`, `return` and an assignment that the input
/// starts with.
#[verifier::rlimit(60)]
pub fn pstatement(input: PBytes) -> (result: PResult<Statement>)
    ensures
        parsed_as(result, grammar::statement(input@)),
        result matches PResult::Done(rest, _) ==> rest@.len() < input@.len(),
    decreases input@.len(), 6nat,
{
    let input = skip_spaces(input);
    match pmod(input) {
        PResult::Done(rest, m) => {
            return PResult::Done(rest, Statement::StatementMod(m));
        },
        PResult::Incomplete => {
            return PResult::Incomplete;
        },
        PResult::Error => {},
    }
    match pextern(input) {
        PResult::Done(rest, e) => {
            return PResult::Done(rest, Statement::StatementExtern(e));
        },
        PResult::Incomplete => {
            return PResult::Incomplete;
        },
        PResult::Error => {},
    }
    match pconst(input) {
        PResult::Done(rest, c) => {
            return PResult::Done(rest, Statement::StatementConst(c));
        },
        PResult::Incomplete => {
            return PResult::Incomplete;
        },
        PResult::Error => {},
    }
    match pstatic(input) {
        PResult::Done(rest, s) => {
            return PResult::Done(rest, Statement::StatementStatic(s));
        },
        PResult::Incomplete => {
            return PResult::Incomplete;
        },
        PResult::Error => {},
    }
    match plocal(input) {
        PResult::Done(rest, l) => {
            return PResult::Done(rest, Statement::StatementLocal(l));
        },
        PResult::Incomplete => {
            return PResult::Incomplete;
        },
        PResult::Error => {},
    }
    match preturn(input) {
        PResult::Done(rest, r) => {
            return PResult::Done(rest, Statement::StatementReturn(r));
        },
        PResult::Incomplete => {
            return PResult::Incomplete;
        },
        PResult::Error => {},
    }
    // NOTE: Assignment must come last since it will consume any alphanumeric word.
    match passignment(input) {
        PResult::Done(rest, a) => PResult::Done(rest, Statement::StatementAssignment(a)),
        PResult::Incomplete => PResult::Incomplete,
        PResult::Error => PResult::Error,
    }
}

/// Parses a module: statements up to the end of the input. Input that is
/// left after the statements makes the module incomplete.
pub fn pmodule(input: PBytes) -> (result: PResult<Module>)
    ensures
        parsed_as(result, grammar::module(input@)),
{
    let (stmts, rest) = match pstatements(input) {
        PResult::Done(rest, stmts) => (stmts, rest),
        PResult::Error => {
            return PResult::Error;
        },
        PResult::Incomplete => {
            return PResult::Incomplete;
        },
    };
    let remaining = match pterminal(rest) {
        PResult::Done(rest, _) => rest,
        _ => rest,
    };
    if remaining.len() > 0 {
        PResult::Incomplete
    } else {
        PResult::Done(remaining, Module::with_stmts(stmts))
    }
}

/// Parses the `defn` statement syntax for defined functions.
pub fn pdefn(input: PBytes) -> (result: PResult<Defn>)
    ensures
        parsed_as(result, grammar::defn(input@)),
{
    proof {
        reveal_strlit("defn");
    }
    let rest = match pkeyword("defn", input) {
        PResult::Done(rest, _) => rest,
        PResult::Error => {
            return PResult::Error;
        },
        PResult::Incomplete => {
            return PResult::Incomplete;
        },
    };
    let (name, rest) = match plocal_name(rest) {
        PResult::Done(rest, name) => (name, rest),
        PResult::Error => {
            return PResult::Error;
        },
        PResult::Incomplete => {
            return PResult::Incomplete;
        },
    };
    let (parameters, rest) = match ppfunction_parameters(rest) {
        PResult::Done(rest, parameters) => (parameters, rest),
        PResult::Error => {
            return PResult::Error;
        },
        PResult::Incomplete => {
            return PResult::Incomplete;
        },
    };
    match pbasicblock(skip_class(Class::Space, rest)) {
        PResult::Done(rest, body) => PResult::Done(rest, Defn::new(name, parameters, body)),
        PResult::Error => PResult::Error,
        PResult::Incomplete => PResult::Incomplete,
    }
}

} // verus!
