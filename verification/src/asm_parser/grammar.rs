use crate::assembly::valid_segments;
use crate::assembly::view::{FnView, StatementView, ValueView};
use crate::assembly::AssignmentOp;
use vstd::prelude::*;
use vstd::utf8::{decode_utf8, valid_utf8};

verus! {

/// What a parser makes of an input: the value that it has read, with the
/// input that is left; or no value, because the input is not what the parser
/// reads, or because it ends within what the parser reads.
pub enum Parsed<T> {
    Done(T, Seq<u8>),
    Error,
    Incomplete,
}

/// The classes of bytes that make up names, numbers and blank space.
pub enum Class {
    /// The letters `a` to `z` and `A` to `Z`.
    Alpha,
    /// The digits `0` to `9`.
    Digit,
    /// Space and tab.
    Space,
    /// Space, tab, carriage return and line feed.
    MultiSpace,
}

/// Whether the byte is of the class.
pub open spec fn in_class(class: Class, byte: u8) -> bool {
    match class {
        Class::Alpha => (0x41 <= byte <= 0x5A) || (0x61 <= byte <= 0x7A),
        Class::Digit => 0x30 <= byte <= 0x39,
        Class::Space => byte == 0x20 || byte == 0x09,
        Class::MultiSpace => byte == 0x20 || byte == 0x09 || byte == 0x0D || byte == 0x0A,
    }
}

/// How many bytes of the class the input starts with.
pub open spec fn run(class: Class, input: Seq<u8>) -> int
    decreases input.len(),
{
    if input.len() == 0 || !in_class(class, input[0]) {
        0
    } else {
        1 + run(class, input.drop_first())
    }
}

/// The bytes of the class that the input starts with, which must be one at
/// least.
pub open spec fn some_of(class: Class, input: Seq<u8>) -> Parsed<Seq<u8>> {
    let n = run(class, input);
    if 0 < n <= input.len() {
        Parsed::Done(input.take(n), input.skip(n))
    } else {
        Parsed::Error
    }
}

/// The input without the spaces and tabs that it starts with.
pub open spec fn gobbled(input: Seq<u8>) -> Seq<u8> {
    let n = run(Class::Space, input);
    if 0 <= n <= input.len() {
        input.skip(n)
    } else {
        input
    }
}

/// The bytes that spell an ASCII text.
pub open spec fn word(text: Seq<char>) -> Seq<u8> {
    Seq::new(text.len(), |i: int| text[i] as u8)
}

/// The text that ASCII bytes spell.
pub open spec fn ascii_text(bytes: Seq<u8>) -> Seq<char> {
    Seq::new(bytes.len(), |i: int| bytes[i] as char)
}

/// The bytes `word` at the start of the input. An input that is a proper
/// start of `word` is incomplete.
pub open spec fn tag(word: Seq<u8>, input: Seq<u8>) -> Parsed<Seq<u8>> {
    let m = if input.len() < word.len() {
        input.len() as int
    } else {
        word.len() as int
    };
    if input.take(m) != word.take(m) {
        Parsed::Error
    } else if m < word.len() {
        Parsed::Incomplete
    } else {
        Parsed::Done(word, input.skip(m))
    }
}

/// The position of the first `byte` in the input, or the length of the
/// input where there is none.
pub open spec fn find(byte: u8, input: Seq<u8>) -> int
    decreases input.len(),
{
    if input.len() == 0 || input[0] == byte {
        0
    } else {
        1 + find(byte, input.drop_first())
    }
}

/// The bytes before the first `byte` of the input, which is left. An input
/// without the byte is an error, and an empty one is incomplete.
pub open spec fn take_until(byte: u8, input: Seq<u8>) -> Parsed<Seq<u8>> {
    let n = find(byte, input);
    if input.len() == 0 {
        Parsed::Incomplete
    } else if 0 <= n < input.len() {
        Parsed::Done(input.take(n), input.skip(n))
    } else {
        Parsed::Error
    }
}

/// One parser after another: the second reads what the first has left, and
/// knows what the first has read.
pub open spec fn then<A, B>(
    first: Parsed<A>,
    second: spec_fn(A, Seq<u8>) -> Parsed<B>,
) -> Parsed<B> {
    match first {
        Parsed::Done(value, rest) => second(value, rest),
        Parsed::Error => Parsed::Error,
        Parsed::Incomplete => Parsed::Incomplete,
    }
}

/// The first of two parsers that finds a value or an incomplete input.
pub open spec fn either<T>(first: Parsed<T>, second: Parsed<T>) -> Parsed<T> {
    match first {
        Parsed::Error => second,
        _ => first,
    }
}

/// The input after an optional run of bytes of the class.
pub open spec fn skip_class(class: Class, input: Seq<u8>) -> Seq<u8> {
    match some_of(class, input) {
        Parsed::Done(_, rest) => rest,
        _ => input,
    }
}

/// A try: where the parser finds no value, for whatever reason, nothing is
/// read and no value is given.
pub open spec fn tried<T>(parsed: Parsed<T>, input: Seq<u8>) -> Parsed<Option<T>> {
    match parsed {
        Parsed::Done(value, rest) => Parsed::Done(Some(value), rest),
        _ => Parsed::Done(None, input),
    }
}

/// The end of a statement: after spaces and tabs, the end of the input or a
/// closing brace, which is left, or a line feed, which is taken.
pub open spec fn terminal(input: Seq<u8>) -> Parsed<()> {
    let input = gobbled(input);
    if input.len() == 0 {
        Parsed::Done((), input)
    } else if input[0] == 0x7D {
        Parsed::Done((), input)
    } else if input[0] == 0x0A {
        Parsed::Done((), input.skip(1))
    } else {
        Parsed::Error
    }
}

/// A parsed value with the end of a statement after it.
pub open spec fn terminated<T>(parsed: Parsed<T>) -> Parsed<T> {
    then(
        parsed,
        |value: T, rest: Seq<u8>|
            then(terminal(rest), |end: (), rest: Seq<u8>| Parsed::Done(value, rest)),
    )
}

/// A keyword, then spaces or tabs.
pub open spec fn keyword(text: Seq<char>, input: Seq<u8>) -> Parsed<Seq<u8>> {
    then(tag(word(text), input), |matched: Seq<u8>, rest: Seq<u8>| some_of(Class::Space, rest))
}

/// The name of a local: letters.
pub open spec fn local_name(input: Seq<u8>) -> Parsed<Seq<char>> {
    then(
        some_of(Class::Alpha, input),
        |name: Seq<u8>, rest: Seq<u8>| Parsed::Done(ascii_text(name), rest),
    )
}

/// A name with a sigil: the sigil, then letters.
pub open spec fn sigil_name(sigil: Seq<char>, input: Seq<u8>) -> Parsed<Seq<char>> {
    then(
        tag(word(sigil), input),
        |matched: Seq<u8>, rest: Seq<u8>|
            then(
                some_of(Class::Alpha, rest),
                |name: Seq<u8>, rest: Seq<u8>| Parsed::Done(sigil + ascii_text(name), rest),
            ),
    )
}

/// The name of a static: `$`, then letters.
pub open spec fn static_name(input: Seq<u8>) -> Parsed<Seq<char>> {
    sigil_name("$"@, input)
}

/// The name of a constant: `@`, then letters.
pub open spec fn const_name(input: Seq<u8>) -> Parsed<Seq<char>> {
    sigil_name("@"@, input)
}

/// A segment of a path: the name of a local, of a static or of a constant.
pub open spec fn segment(input: Seq<u8>) -> Parsed<Seq<char>> {
    either(local_name(input), either(static_name(input), const_name(input)))
}

/// An identifier: the name of a constant, of a static or of a local.
pub open spec fn identifier(input: Seq<u8>) -> Parsed<Seq<char>> {
    either(const_name(input), either(static_name(input), local_name(input)))
}

/// The segments that follow the first one of a path, each after a period.
/// A period that no segment follows is left.
pub open spec fn more_segments(input: Seq<u8>) -> (Seq<Seq<char>>, Seq<u8>)
    decreases input.len(),
{
    match tag(word("."@), input) {
        Parsed::Done(_, after) => match segment(after) {
            Parsed::Done(name, rest) => if rest.len() < input.len() {
                let (names, end) = more_segments(rest);
                (seq![name] + names, end)
            } else {
                (Seq::empty(), input)
            },
            _ => (Seq::empty(), input),
        },
        _ => (Seq::empty(), input),
    }
}

/// A path: segments with periods between them. No segment but the last may
/// carry a sigil.
pub open spec fn path(input: Seq<u8>) -> Parsed<Seq<Seq<char>>> {
    then(
        segment(input),
        |name: Seq<char>, rest: Seq<u8>|
            {
                let (names, end) = more_segments(rest);
                if valid_segments(seq![name] + names) {
                    Parsed::Done(seq![name] + names, end)
                } else {
                    Parsed::Error
                }
            },
    )
}

/// A path after a keyword, up to the end of the statement.
pub open spec fn keyword_path(text: Seq<char>, input: Seq<u8>) -> Parsed<Seq<Seq<char>>> {
    terminated(then(keyword(text, input), |spaces: Seq<u8>, rest: Seq<u8>| path(rest)))
}

/// `mod PATH`
pub open spec fn mod_statement(input: Seq<u8>) -> Parsed<StatementView> {
    then(
        keyword_path("mod"@, input),
        |path: Seq<Seq<char>>, rest: Seq<u8>| Parsed::Done(StatementView::Mod { path: path }, rest),
    )
}

/// `local NAME`
pub open spec fn local_statement(input: Seq<u8>) -> Parsed<StatementView> {
    then(
        terminated(
            then(keyword("local"@, input), |spaces: Seq<u8>, rest: Seq<u8>| local_name(rest)),
        ),
        |name: Seq<char>, rest: Seq<u8>| Parsed::Done(StatementView::Local { name: name }, rest),
    )
}

/// `static $NAME`
pub open spec fn static_statement(input: Seq<u8>) -> Parsed<StatementView> {
    then(
        terminated(
            then(keyword("static"@, input), |spaces: Seq<u8>, rest: Seq<u8>| static_name(rest)),
        ),
        |name: Seq<char>, rest: Seq<u8>| Parsed::Done(StatementView::Static { name: name }, rest),
    )
}

/// `extern PATH` where path is like "foo.bar".
pub open spec fn extern_statement(input: Seq<u8>) -> Parsed<StatementView> {
    then(
        keyword_path("extern"@, input),
        |path: Seq<Seq<char>>, rest: Seq<u8>|
            Parsed::Done(StatementView::Extern { path: path }, rest),
    )
}

/// A string as the argument of a constant: what stands between two double
/// quotes, which must be text.
pub open spec fn const_string(input: Seq<u8>) -> Parsed<Seq<char>> {
    then(
        tag(word("\""@), input),
        |open: Seq<u8>, rest: Seq<u8>|
            then(
                take_until(0x22, rest),
                |value: Seq<u8>, rest: Seq<u8>|
                    then(
                        tag(word("\""@), rest),
                        |close: Seq<u8>, rest: Seq<u8>|
                            if valid_utf8(value) {
                                Parsed::Done(decode_utf8(value), rest)
                            } else {
                                Parsed::Error
                            },
                    ),
            ),
    )
}

/// A number as the argument of a constant: digits.
pub open spec fn const_number(input: Seq<u8>) -> Parsed<Seq<char>> {
    then(
        some_of(Class::Digit, input),
        |value: Seq<u8>, rest: Seq<u8>| Parsed::Done(ascii_text(value), rest),
    )
}

/// The word `null` as the argument of a constant.
pub open spec fn const_null(input: Seq<u8>) -> Parsed<Seq<char>> {
    then(
        tag(word("null"@), input),
        |matched: Seq<u8>, rest: Seq<u8>| Parsed::Done("null"@, rest),
    )
}

/// The argument of the constructor of a constant: a string, a number or
/// `null`.
pub open spec fn const_argument(input: Seq<u8>) -> Parsed<Seq<char>> {
    either(const_string(input), either(const_number(input), const_null(input)))
}

/// Spaces or tabs, or the end of the input.
pub open spec fn space_or_end(input: Seq<u8>) -> Parsed<Seq<u8>> {
    if input.len() == 0 {
        Parsed::Done(input, input)
    } else {
        some_of(Class::Space, input)
    }
}

/// The constructor of a constant: a path, then spaces or tabs unless the
/// input ends there, then an argument where one follows, up to the end of
/// the statement.
pub open spec fn const_constructor(input: Seq<u8>) -> Parsed<(Seq<Seq<char>>, Option<Seq<char>>)> {
    then(
        path(input),
        |constructor: Seq<Seq<char>>, rest: Seq<u8>|
            then(
                space_or_end(rest),
                |spaces: Seq<u8>, rest: Seq<u8>|
                    terminated(
                        then(
                            tried(const_argument(rest), rest),
                            |argument: Option<Seq<char>>, rest: Seq<u8>|
                                Parsed::Done((constructor, argument), rest),
                        ),
                    ),
            ),
    )
}

/// `const @NAME = CONSTRUCTOR ARGUMENT?`
pub open spec fn const_statement(input: Seq<u8>) -> Parsed<StatementView> {
    then(
        const_parts(input),
        |made: (Seq<char>, Seq<Seq<char>>, Option<Seq<char>>), rest: Seq<u8>|
            Parsed::Done(
                StatementView::Const { name: made.0, constructor: made.1, argument: made.2 },
                rest,
            ),
    )
}

/// What a `const` statement names: the constant, the path of its
/// constructor and the argument of the constructor.
pub open spec fn const_parts(input: Seq<u8>) -> Parsed<
    (Seq<char>, Seq<Seq<char>>, Option<Seq<char>>),
> {
    then(
        keyword("const"@, input),
        |spaces: Seq<u8>, rest: Seq<u8>|
            then(
                const_name(rest),
                |name: Seq<char>, rest: Seq<u8>|
                    then(
                        some_of(Class::Space, rest),
                        |spaces: Seq<u8>, rest: Seq<u8>|
                            then(
                                tag(word("="@), rest),
                                |equals: Seq<u8>, rest: Seq<u8>|
                                    terminated(
                                        then(
                                            const_constructor(skip_class(Class::Space, rest)),
                                            |made: (Seq<Seq<char>>, Option<Seq<char>>), rest: Seq<u8>|
                                                Parsed::Done((name, made.0, made.1), rest),
                                        ),
                                    ),
                            ),
                    ),
            ),
    )
}

/// A comma between two parameters, with spaces and tabs around it.
pub open spec fn comma(input: Seq<u8>) -> Parsed<Seq<u8>> {
    then(
        tag(word(","@), skip_class(Class::Space, input)),
        |matched: Seq<u8>, rest: Seq<u8>| Parsed::Done(matched, skip_class(Class::Space, rest)),
    )
}

/// The identifiers that follow the first one of a list, each after a comma.
/// A comma that no identifier follows is left.
pub open spec fn more_identifiers(input: Seq<u8>) -> (Seq<Seq<char>>, Seq<u8>)
    decreases input.len(),
{
    match comma(input) {
        Parsed::Done(_, after) => match identifier(after) {
            Parsed::Done(name, rest) => if rest.len() < input.len() {
                let (names, end) = more_identifiers(rest);
                (seq![name] + names, end)
            } else {
                (Seq::empty(), input)
            },
            _ => (Seq::empty(), input),
        },
        _ => (Seq::empty(), input),
    }
}

/// Identifiers with commas between them, or none.
pub open spec fn identifiers(input: Seq<u8>) -> Parsed<Seq<Seq<char>>> {
    match identifier(input) {
        Parsed::Done(name, rest) => {
            let (names, end) = more_identifiers(rest);
            Parsed::Done(seq![name] + names, end)
        },
        Parsed::Error => Parsed::Done(Seq::empty(), input),
        Parsed::Incomplete => Parsed::Incomplete,
    }
}

/// The parameters of a function: identifiers between parentheses.
pub open spec fn parameters(input: Seq<u8>) -> Parsed<Seq<Seq<char>>> {
    then(
        tag(word("("@), input),
        |open: Seq<u8>, rest: Seq<u8>|
            then(
                identifiers(skip_class(Class::Space, rest)),
                |names: Seq<Seq<char>>, rest: Seq<u8>|
                    then(
                        tag(word(")"@), skip_class(Class::Space, rest)),
                        |close: Seq<u8>, rest: Seq<u8>| Parsed::Done(names, rest),
                    ),
            ),
    )
}

/// The operator of an assignment.
pub open spec fn operator(input: Seq<u8>) -> Parsed<AssignmentOp> {
    either(
        then(
            tag(word(":="@), input),
            |matched: Seq<u8>, rest: Seq<u8>| Parsed::Done(AssignmentOp::AllocateAndAssign, rest),
        ),
        then(
            tag(word("="@), input),
            |matched: Seq<u8>, rest: Seq<u8>| Parsed::Done(AssignmentOp::Plain, rest),
        ),
    )
}

/// What an assignment starts with: the name that is assigned to, the
/// operator, and spaces or tabs around the operator.
pub open spec fn assignment_head(input: Seq<u8>) -> Parsed<(Seq<char>, AssignmentOp)> {
    then(
        either(local_name(input), static_name(input)),
        |lvalue: Seq<char>, rest: Seq<u8>|
            then(
                some_of(Class::Space, rest),
                |spaces: Seq<u8>, rest: Seq<u8>|
                    then(
                        operator(rest),
                        |op: AssignmentOp, rest: Seq<u8>|
                            then(
                                some_of(Class::Space, rest),
                                |spaces: Seq<u8>, rest: Seq<u8>| Parsed::Done((lvalue, op), rest),
                            ),
                    ),
            ),
    )
}

/// What a function starts with, up to its body: the parameters, after the
/// word `fn`.
pub open spec fn fn_head(input: Seq<u8>) -> Parsed<Seq<Seq<char>>> {
    then(
        tag(word("fn"@), input),
        |matched: Seq<u8>, rest: Seq<u8>|
            then(
                parameters(skip_class(Class::Space, rest)),
                |names: Seq<Seq<char>>, rest: Seq<u8>|
                    Parsed::Done(names, skip_class(Class::Space, rest)),
            ),
    )
}

/// What a named function starts with, up to its body: the name and the
/// parameters, after the word `defn`.
pub open spec fn defn_head(input: Seq<u8>) -> Parsed<(Seq<char>, Seq<Seq<char>>)> {
    then(
        keyword("defn"@, input),
        |spaces: Seq<u8>, rest: Seq<u8>|
            then(
                local_name(rest),
                |name: Seq<char>, rest: Seq<u8>|
                    then(
                        parameters(rest),
                        |names: Seq<Seq<char>>, rest: Seq<u8>|
                            Parsed::Done((name, names), skip_class(Class::Space, rest)),
                    ),
            ),
    )
}

/// A value: an anonymous function or an identifier.
pub open spec fn value(input: Seq<u8>) -> Parsed<ValueView>
    decreases input.len(), 3nat,
{
    match function(input) {
        Parsed::Done(f, rest) => Parsed::Done(ValueView::Fn(f), rest),
        _ => match identifier(input) {
            Parsed::Done(name, rest) => Parsed::Done(ValueView::Name(name), rest),
            _ => Parsed::Error,
        },
    }
}

/// The `fn` value syntax for anonymous functions: `fn(ARGS) BLOCK`.
pub open spec fn function(input: Seq<u8>) -> Parsed<FnView>
    decreases input.len(), 2nat,
{
    match fn_head(input) {
        Parsed::Done(names, rest) => if rest.len() < input.len() {
            match block(rest) {
                Parsed::Done(body, rest) => Parsed::Done(
                    FnView { parameters: names, body: body },
                    rest,
                ),
                Parsed::Error => Parsed::Error,
                Parsed::Incomplete => Parsed::Incomplete,
            }
        } else {
            Parsed::Error
        },
        Parsed::Error => Parsed::Error,
        Parsed::Incomplete => Parsed::Incomplete,
    }
}

/// A block: `{ STATEMENTS }`.
pub open spec fn block(input: Seq<u8>) -> Parsed<Seq<StatementView>>
    decreases input.len(), 1nat,
{
    match tag(word("{"@), input) {
        Parsed::Done(_, rest) => {
            let rest = skip_class(Class::MultiSpace, rest);
            if rest.len() < input.len() {
                match statements(rest) {
                    Parsed::Done(stmts, rest) => match tag(
                        word("}"@),
                        skip_class(Class::MultiSpace, rest),
                    ) {
                        Parsed::Done(_, rest) => Parsed::Done(stmts, rest),
                        Parsed::Error => Parsed::Error,
                        Parsed::Incomplete => Parsed::Incomplete,
                    },
                    Parsed::Error => Parsed::Error,
                    Parsed::Incomplete => Parsed::Incomplete,
                }
            } else {
                Parsed::Error
            }
        },
        Parsed::Error => Parsed::Error,
        Parsed::Incomplete => Parsed::Incomplete,
    }
}

/// Statements, one after the other, as many as there are. A statement on
/// an incomplete input makes them all incomplete.
pub open spec fn statements(input: Seq<u8>) -> Parsed<Seq<StatementView>>
    decreases input.len(), 7nat,
{
    if input.len() == 0 {
        Parsed::Done(Seq::empty(), input)
    } else {
        match statement(input) {
            Parsed::Done(stmt, rest) => if rest.len() < input.len() {
                match statements(rest) {
                    Parsed::Done(stmts, rest) => Parsed::Done(seq![stmt] + stmts, rest),
                    Parsed::Error => Parsed::Error,
                    Parsed::Incomplete => Parsed::Incomplete,
                }
            } else {
                Parsed::Error
            },
            Parsed::Error => Parsed::Done(Seq::empty(), input),
            Parsed::Incomplete => Parsed::Incomplete,
        }
    }
}

/// An assignment: `NAME = VALUE` or `NAME := VALUE`.
pub open spec fn assignment(input: Seq<u8>) -> Parsed<StatementView>
    decreases input.len(), 5nat,
{
    match assignment_head(input) {
        Parsed::Done((lvalue, op), rest) => if rest.len() < input.len() {
            terminated(
                match value(rest) {
                    Parsed::Done(rvalue, rest) => Parsed::Done(
                        StatementView::Assignment { lvalue: lvalue, operator: op, rvalue: rvalue },
                        rest,
                    ),
                    Parsed::Error => Parsed::Error,
                    Parsed::Incomplete => Parsed::Incomplete,
                },
            )
        } else {
            Parsed::Error
        },
        Parsed::Error => Parsed::Error,
        Parsed::Incomplete => Parsed::Incomplete,
    }
}

/// The value of a `return`, where one follows after spaces or tabs.
pub open spec fn return_value(input: Seq<u8>) -> Parsed<Option<ValueView>>
    decreases input.len(), 4nat,
{
    match some_of(Class::Space, input) {
        Parsed::Done(_, rest) => if rest.len() < input.len() {
            tried(value(rest), input)
        } else {
            Parsed::Done(None, input)
        },
        _ => Parsed::Done(None, input),
    }
}

/// `return` or `return VALUE`.
pub open spec fn return_statement(input: Seq<u8>) -> Parsed<StatementView>
    decreases input.len(), 5nat,
{
    match tag(word("return"@), input) {
        Parsed::Done(_, rest) => if rest.len() <= input.len() {
            then(
                terminated(return_value(rest)),
                |value: Option<ValueView>, rest: Seq<u8>|
                    Parsed::Done(StatementView::Return { value: value }, rest),
            )
        } else {
            Parsed::Error
        },
        Parsed::Error => Parsed::Error,
        Parsed::Incomplete => Parsed::Incomplete,
    }
}

/// A statement, after spaces and tabs: the first of `mod`, `extern`,
/// `const`, `static`, `local`, `return` and an assignment that the input
/// starts with.
pub open spec fn statement(input: Seq<u8>) -> Parsed<StatementView>
    decreases input.len(), 6nat,
{
    let whole = input;
    let input = gobbled(input);
    either(
        mod_statement(input),
        either(
            extern_statement(input),
            either(
                const_statement(input),
                either(
                    static_statement(input),
                    either(
                        local_statement(input),
                        if input.len() <= whole.len() {
                            either(return_statement(input), assignment(input))
                        } else {
                            Parsed::Error
                        },
                    ),
                ),
            ),
        ),
    )
}

/// A module: statements up to the end of the input. Input that is left
/// after the statements makes the module incomplete.
pub open spec fn module(input: Seq<u8>) -> Parsed<Seq<StatementView>> {
    match statements(input) {
        Parsed::Done(stmts, rest) => {
            let rest = match terminal(rest) {
                Parsed::Done(_, rest) => rest,
                _ => rest,
            };
            if rest.len() > 0 {
                Parsed::Incomplete
            } else {
                Parsed::Done(stmts, rest)
            }
        },
        Parsed::Error => Parsed::Error,
        Parsed::Incomplete => Parsed::Incomplete,
    }
}

/// The `defn` statement syntax for defined functions: `defn NAME(ARGS) BLOCK`.
pub open spec fn defn(input: Seq<u8>) -> Parsed<StatementView> {
    then(
        defn_head(input),
        |head: (Seq<char>, Seq<Seq<char>>), rest: Seq<u8>|
            then(
                block(rest),
                |body: Seq<StatementView>, rest: Seq<u8>|
                    Parsed::Done(
                        StatementView::Defn { name: head.0, parameters: head.1, body: body },
                        rest,
                    ),
            ),
    )
}

} // verus!
