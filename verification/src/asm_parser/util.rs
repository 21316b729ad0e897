use super::grammar::{ascii_text, gobbled, in_class, run, some_of, word, Class, Parsed};
use vstd::prelude::*;
use vstd::slice::slice_subrange;
use vstd::string::StringSliceAdditionalSpecFns;
use vstd::utf8::{decode_utf8, valid_utf8};

verus! {

/// `u8` byte array that all parsing functions use for input/remaining parse subject data.
pub type PBytes<'a> = &'a [u8];

/// What a parser makes of an input: the value that it has read, with the
/// input that is left; or no value, because the input is not what the parser
/// reads, or because it ends within what the parser reads.
#[derive(Debug, PartialEq)]
pub enum PResult<'a, O> {
    Done(PBytes<'a>, O),
    Error,
    Incomplete,
}

/// Whether the parser has made of the input what the grammar makes of it.
pub open spec fn parsed_as<'a, O: View>(result: PResult<'a, O>, parsed: Parsed<O::V>) -> bool {
    match parsed {
        Parsed::Done(value, rest) => result matches PResult::Done(r, o) && r@ == rest && o@
            == value,
        Parsed::Error => result is Error,
        Parsed::Incomplete => result is Incomplete,
    }
}

/// The letters that the input starts with, in the second place, and the input
/// after them, in the first, through `nom::alpha`: it finds no value in an empty
/// input and in one that starts with another byte, and takes the bytes up to
/// the first other byte otherwise.
#[verifier::external_body]
fn nom_alpha<'a>(input: PBytes<'a>) -> (found: Option<(PBytes<'a>, PBytes<'a>)>)
    ensures
        match some_of(Class::Alpha, input@) {
            Parsed::Done(taken, rest) => found matches Some((after, bytes)) && after@ == rest
                && bytes@ == taken,
            _ => found is None,
        },
{
    match nom::alpha(input) {
        nom::IResult::Done(rest, taken) => Some((rest, taken)),
        nom::IResult::Error(_) => None,
        nom::IResult::Incomplete(_) => None,
    }
}

/// The digits that the input starts with, in the second place, and the input
/// after them, in the first, through `nom::digit`: it finds no value in an empty
/// input and in one that starts with another byte, and takes the bytes up to
/// the first other byte otherwise.
#[verifier::external_body]
fn nom_digit<'a>(input: PBytes<'a>) -> (found: Option<(PBytes<'a>, PBytes<'a>)>)
    ensures
        match some_of(Class::Digit, input@) {
            Parsed::Done(taken, rest) => found matches Some((after, bytes)) && after@ == rest
                && bytes@ == taken,
            _ => found is None,
        },
{
    match nom::digit(input) {
        nom::IResult::Done(rest, taken) => Some((rest, taken)),
        nom::IResult::Error(_) => None,
        nom::IResult::Incomplete(_) => None,
    }
}

/// The spaces and tabs that the input starts with, in the second place, and the input
/// after them, in the first, through `nom::space`: it finds no value in an empty
/// input and in one that starts with another byte, and takes the bytes up to
/// the first other byte otherwise.
#[verifier::external_body]
fn nom_space<'a>(input: PBytes<'a>) -> (found: Option<(PBytes<'a>, PBytes<'a>)>)
    ensures
        match some_of(Class::Space, input@) {
            Parsed::Done(taken, rest) => found matches Some((after, bytes)) && after@ == rest
                && bytes@ == taken,
            _ => found is None,
        },
{
    match nom::space(input) {
        nom::IResult::Done(rest, taken) => Some((rest, taken)),
        nom::IResult::Error(_) => None,
        nom::IResult::Incomplete(_) => None,
    }
}

/// The spaces, tabs, carriage returns and line feeds that the input starts
/// with, in the second place, and the input after them, in the first,
/// through `nom::multispace`: it finds no value in an empty
/// input and in one that starts with another byte, and takes the bytes up to
/// the first other byte otherwise.
#[verifier::external_body]
fn nom_multispace<'a>(input: PBytes<'a>) -> (found: Option<(PBytes<'a>, PBytes<'a>)>)
    ensures
        match some_of(Class::MultiSpace, input@) {
            Parsed::Done(taken, rest) => found matches Some((after, bytes)) && after@ == rest
                && bytes@ == taken,
            _ => found is None,
        },
{
    match nom::multispace(input) {
        nom::IResult::Done(rest, taken) => Some((rest, taken)),
        nom::IResult::Error(_) => None,
        nom::IResult::Incomplete(_) => None,
    }
}

/// Whether the byte is a space or a tab, through `nom::is_space`.
#[verifier::external_body]
fn nom_is_space(chr: u8) -> (space: bool)
    ensures
        space == in_class(Class::Space, chr),
{
    nom::is_space(chr)
}

/// Whether the byte is a space or a tab.
pub fn is_space(chr: u8) -> (space: bool)
    ensures
        space == in_class(Class::Space, chr),
{
    nom_is_space(chr)
}

/// Whether the input is at its end, through `nom::eof`, which finds a value
/// in the empty input and in no other.
#[verifier::external_body]
fn nom_eof(input: PBytes) -> (at_end: bool)
    ensures
        at_end == (input@.len() == 0),
{
    match nom::eof(input) {
        nom::IResult::Done(_, _) => true,
        nom::IResult::Error(_) => false,
        nom::IResult::Incomplete(_) => false,
    }
}

/// The text that the bytes spell, if they are UTF-8, through
/// `std::str::from_utf8`.
#[verifier::external_body]
fn utf8_text(bytes: PBytes) -> (text: Option<String>)
    ensures
        text is Some <==> valid_utf8(bytes@),
        text matches Some(t) ==> t@ == decode_utf8(bytes@),
{
    match std::str::from_utf8(bytes) {
        Ok(text) => Some(text.to_string()),
        Err(_) => None,
    }
}

/// The bytes of the class that the input starts with, which must be one at
/// least.
pub fn some_of_class<'a>(class: Class, input: PBytes<'a>) -> (result: PResult<'a, PBytes<'a>>)
    ensures
        parsed_as(result, some_of(class, input@)),
        result matches PResult::Done(rest, taken) ==> rest@.len() < input@.len() && taken@.len()
            + rest@.len() == input@.len() && forall|i: int|
            0 <= i < taken@.len() ==> in_class(class, #[trigger] taken@[i]),
{
    proof {
        lemma_run(class, input@);
    }
    let found = match class {
        Class::Alpha => nom_alpha(input),
        Class::Digit => nom_digit(input),
        Class::Space => nom_space(input),
        Class::MultiSpace => nom_multispace(input),
    };
    match found {
        Some((rest, taken)) => PResult::Done(rest, taken),
        None => PResult::Error,
    }
}

/// The input after the bytes of the class that it starts with, if any.
pub fn skip_class<'a>(class: Class, input: PBytes<'a>) -> (rest: PBytes<'a>)
    ensures
        rest@ == super::grammar::skip_class(class, input@),
        rest@.len() <= input@.len(),
{
    match some_of_class(class, input) {
        PResult::Done(rest, _) => rest,
        _ => input,
    }
}

/// A run of bytes of a class is no longer than the input, its bytes are of
/// the class, and the byte after it is not.
pub proof fn lemma_run(class: Class, input: Seq<u8>)
    ensures
        0 <= run(class, input) <= input.len(),
        forall|i: int| 0 <= i < run(class, input) ==> in_class(class, #[trigger] input[i]),
        run(class, input) < input.len() ==> !in_class(class, input[run(class, input)]),
    decreases input.len(),
{
    if input.len() > 0 && in_class(class, input[0]) {
        let rest = input.drop_first();
        lemma_run(class, rest);
        assert forall|i: int| 0 <= i < run(class, input) implies in_class(
            class,
            #[trigger] input[i],
        ) by {
            if i > 0 {
                assert(input[i] == rest[i - 1]);
            }
        }
        if run(class, input) < input.len() {
            assert(input[run(class, input)] == rest[run(class, rest)]);
        }
    }
}

/// A run of bytes of a class ends where the first byte that is not of the
/// class stands.
pub proof fn lemma_run_is(class: Class, input: Seq<u8>, n: int)
    requires
        0 <= n <= input.len(),
        forall|i: int| 0 <= i < n ==> in_class(class, #[trigger] input[i]),
        n < input.len() ==> !in_class(class, input[n]),
    ensures
        run(class, input) == n,
    decreases n,
{
    if n > 0 {
        let rest = input.drop_first();
        assert(in_class(class, input[0]));
        assert forall|i: int| 0 <= i < n - 1 implies in_class(class, #[trigger] rest[i]) by {
            assert(rest[i] == input[i + 1]);
        }
        if n - 1 < rest.len() {
            assert(rest[n - 1] == input[n]);
        }
        lemma_run_is(class, rest, n - 1);
    }
}

/// The bytes of `text` at the start of the input. An input that is a proper
/// start of them is incomplete.
pub fn tag<'a>(text: &str, input: PBytes<'a>) -> (result: PResult<'a, PBytes<'a>>)
    ensures
        parsed_as(result, super::grammar::tag(text.spec_bytes(), input@)),
        result matches PResult::Done(rest, matched) ==> rest@.len() + text.spec_bytes().len()
            == input@.len(),
{
    let expected = text.as_bytes();
    let len: usize = input.len();
    let blen: usize = expected.len();
    let m: usize = if len < blen {
        len
    } else {
        blen
    };
    let mut i: usize = 0;
    while i < m
        invariant
            i <= m,
            m <= len,
            m <= blen,
            len == input@.len(),
            blen == expected@.len(),
            expected@ == text.spec_bytes(),
            input@.take(i as int) == expected@.take(i as int),
        decreases m - i,
    {
        if input[i] != expected[i] {
            assert(input@.take(m as int)[i as int] != expected@.take(m as int)[i as int]);
            return PResult::Error;
        }
        assert(input@.take(i + 1) =~= input@.take(i as int).push(input@[i as int]));
        assert(expected@.take(i + 1) =~= expected@.take(i as int).push(expected@[i as int]));
        i = i + 1;
    }
    if m < blen {
        PResult::Incomplete
    } else {
        let matched = slice_subrange(input, 0, blen);
        let rest = slice_subrange(input, blen, len);
        assert(rest@ =~= input@.skip(blen as int));
        assert(matched@ =~= expected@) by {
            assert(expected@.take(blen as int) =~= expected@);
            assert(input@.take(blen as int) =~= input@.subrange(0, blen as int));
        }
        PResult::Done(rest, matched)
    }
}

/// The bytes before the first `byte` of the input, which is left. An input
/// without the byte is an error, and an empty one is incomplete.
pub fn take_until<'a>(byte: u8, input: PBytes<'a>) -> (result: PResult<'a, PBytes<'a>>)
    ensures
        parsed_as(result, super::grammar::take_until(byte, input@)),
        result matches PResult::Done(rest, taken) ==> 0 < rest@.len() <= input@.len()
            && rest@[0] == byte,
{
    let len: usize = input.len();
    if len == 0 {
        return PResult::Incomplete;
    }
    let mut i: usize = 0;
    assert(input@.skip(0) =~= input@);
    while i < len
        invariant
            i <= len,
            len == input@.len(),
            super::grammar::find(byte, input@) == i + super::grammar::find(
                byte,
                input@.skip(i as int),
            ),
        decreases len - i,
    {
        assert(input@.skip(i as int)[0] == input@[i as int]);
        if input[i] == byte {
            let taken = slice_subrange(input, 0, i);
            let rest = slice_subrange(input, i, len);
            assert(taken@ =~= input@.take(i as int));
            assert(rest@ =~= input@.skip(i as int));
            return PResult::Done(rest, taken);
        }
        assert(input@.skip(i as int).drop_first() =~= input@.skip(i + 1));
        i = i + 1;
    }
    PResult::Error
}

/// The text that ASCII bytes spell is what they decode to.
pub proof fn lemma_ascii_text(bytes: Seq<u8>)
    requires
        forall|i: int| 0 <= i < bytes.len() ==> #[trigger] bytes[i] < 128,
    ensures
        valid_utf8(bytes),
        decode_utf8(bytes) == ascii_text(bytes),
{
    let text = ascii_text(bytes);
    assert(vstd::utf8::is_ascii_chars(text));
    vstd::utf8::is_ascii_chars_encode_utf8(text);
    assert(vstd::utf8::encode_utf8(text) =~= bytes);
    vstd::utf8::encode_utf8_valid_utf8(text);
    vstd::utf8::encode_utf8_decode_utf8(text);
}

/// The text that the bytes spell, if they are UTF-8.
pub fn to_text(i: PBytes) -> (text: Option<String>)
    ensures
        text is Some <==> valid_utf8(i@),
        text matches Some(t) ==> t@ == decode_utf8(i@),
{
    utf8_text(i)
}

/// Convert a byte array to a heap-allocated `String`. The bytes must be
/// UTF-8.
pub fn to_s(i: PBytes) -> (text: String)
    requires
        valid_utf8(i@),
    ensures
        text@ == decode_utf8(i@),
{
    match utf8_text(i) {
        Some(text) => text,
        None => String::new(),
    }
}

/// The input without the bytes at its start that pass the test.
pub fn gobble<'a, F: Fn(u8) -> bool>(input: PBytes<'a>, test: F) -> (rest: PBytes<'a>)
    requires
        forall|byte: u8| #[trigger] test.requires((byte,)),
    ensures
        rest@.len() <= input@.len(),
        rest@ == input@.skip(input@.len() - rest@.len()),
        forall|i: int|
            0 <= i < input@.len() - rest@.len() ==> test.ensures((#[trigger] input@[i],), true),
        rest@.len() > 0 ==> test.ensures((rest@[0],), false),
{
    let len: usize = input.len();
    let mut index: usize = 0;
    while index < len
        invariant
            index <= len,
            len == input@.len(),
            forall|byte: u8| #[trigger] test.requires((byte,)),
            forall|i: int| 0 <= i < index ==> test.ensures((#[trigger] input@[i],), true),
        decreases len - index,
    {
        if !test(input[index]) {
            let rest = slice_subrange(input, index, len);
            assert(rest@ =~= input@.skip(index as int));
            return rest;
        }
        index = index + 1;
    }
    let rest = slice_subrange(input, len, len);
    assert(rest@ =~= input@.skip(len as int));
    rest
}

/// The input without the spaces and tabs that it starts with.
pub fn skip_spaces<'a>(input: PBytes<'a>) -> (rest: PBytes<'a>)
    ensures
        rest@ == gobbled(input@),
        rest@.len() <= input@.len(),
{
    let rest = gobble(input, is_space);
    proof {
        let n = input@.len() - rest@.len();
        assert forall|i: int| 0 <= i < n implies in_class(Class::Space, #[trigger] input@[i]) by {
            assert(is_space.ensures((input@[i],), true));
        }
        if n < input@.len() {
            assert(rest@[0] == input@[n]);
            assert(is_space.ensures((input@[n],), false));
        }
        lemma_run_is(Class::Space, input@, n);
    }
    rest
}

/// Whether the input is at its end.
pub fn eof(input: PBytes) -> (at_end: bool)
    ensures
        at_end == (input@.len() == 0),
{
    nom_eof(input)
}

// Peek to see if the next input matches the given function WITHOUT consuming the input.
pub fn peek<'a, F: Fn(PBytes<'a>) -> PResult<'a, PBytes<'a>>>(input: PBytes<'a>, f: F) -> (matches:
    bool)
    requires
        f.requires((input,)),
    ensures
        exists|result: PResult<'a, PBytes<'a>>|
            f.ensures((input,), result) && matches == (result is Done),
{
    match f(input) {
        PResult::Done(_, _) => true,
        _ => false,
    }
}

/// Tries the given matcher function; if it succeeds then it consumes the input and returns the
/// corresponding `Done` with `Some(output)`, for all other cases (error, incomplete) it
/// does not consume any input but still returns `Done` with a `None` output.
pub fn try_one<'a, T, F: Fn(PBytes<'a>) -> PResult<'a, T>>(
    input: PBytes<'a>,
    matcher: F,
) -> (result: PResult<'a, Option<T>>)
    requires
        matcher.requires((input,)),
    ensures
        match result {
            PResult::Done(rest, Some(output)) => matcher.ensures(
                (input,),
                PResult::Done(rest, output),
            ),
            PResult::Done(rest, None) => rest == input && exists|found: PResult<'a, T>|
                matcher.ensures((input,), found) && !(found is Done),
            _ => false,
        },
{
    let result = matcher(input);
    match result {
        PResult::Done(rest, output) => PResult::Done(rest, Some(output)),
        _ => PResult::Done(input, None),
    }
}

/// Whether the matcher finds no value in the input.
pub open spec fn fails_on<'a, T, F: Fn(PBytes<'a>) -> PResult<'a, T>>(
    matcher: F,
    input: PBytes<'a>,
) -> bool {
    exists|found: PResult<'a, T>| matcher.ensures((input,), found) && !(found is Done)
}

/// Tries each of a given set of matchers, returning the first one that matches successfully.
/// If all fail then it returns an error.
pub fn try_each<'a, T, F: Fn(PBytes<'a>) -> PResult<'a, T>>(
    input: PBytes<'a>,
    matchers: Vec<F>,
) -> (result: PResult<'a, T>)
    requires
        forall|i: int| 0 <= i < matchers@.len() ==> (#[trigger] matchers@[i]).requires((input,)),
    ensures
        match result {
            PResult::Done(rest, output) => exists|i: int|
                0 <= i < matchers@.len() && (#[trigger] matchers@[i]).ensures(
                    (input,),
                    PResult::Done(rest, output),
                ) && forall|j: int| 0 <= j < i ==> fails_on(#[trigger] matchers@[j], input),
            PResult::Error => forall|j: int|
                0 <= j < matchers@.len() ==> fails_on(#[trigger] matchers@[j], input),
            PResult::Incomplete => false,
        },
{
    let mut i: usize = 0;
    while i < matchers.len()
        invariant
            i <= matchers@.len(),
            forall|i: int|
                0 <= i < matchers@.len() ==> (#[trigger] matchers@[i]).requires((input,)),
            forall|j: int| 0 <= j < i ==> fails_on(#[trigger] matchers@[j], input),
        decreases matchers@.len() - i,
    {
        let matcher = &matchers[i];
        let result = matcher(input);
        match result {
            PResult::Done(rest, output) => {
                return PResult::Done(rest, output);
            },
            _ => {
                assert(matchers@[i as int].ensures((input,), result) && !(result is Done));
            },
        }
        i = i + 1;
    }
    PResult::Error
}

} // verus!
