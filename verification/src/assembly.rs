use vstd::prelude::*;
use vstd::string::{StrSliceExecFns, StringExecFns};

/// What the syntax tree holds, as plain mathematical values.
pub mod view;

use view::{lemma_statements_view, StatementView};

verus! {

pub type Name = String;

/// Whether a name starts with the sigil of the constants.
pub open spec fn is_const_name(name: Seq<char>) -> bool {
    name.len() > 0 && name[0] == '@'
}

/// Whether a name starts with the sigil of the statics.
pub open spec fn is_static_name(name: Seq<char>) -> bool {
    name.len() > 0 && name[0] == '$'
}

/// Whether a name starts with a sigil.
pub open spec fn is_sigiled(name: Seq<char>) -> bool {
    is_const_name(name) || is_static_name(name)
}

/// Whether the segments make a path: there is at least one, and none but the
/// last carries a sigil.
pub open spec fn valid_segments(segments: Seq<Seq<char>>) -> bool {
    &&& segments.len() > 0
    &&& forall|i: int| 0 <= i < segments.len() - 1 ==> !is_sigiled(#[trigger] segments[i])
}

/// The word that the error for a segment with a sigil uses for the sigil.
pub open spec fn sigil_word(name: Seq<char>) -> Seq<char> {
    if is_const_name(name) {
        "constant"@
    } else {
        "static"@
    }
}

/// The position of the first `mark` in `text`, or the length of `text` where
/// there is none.
pub open spec fn index_of(text: Seq<char>, mark: char) -> int
    decreases text.len(),
{
    if text.len() == 0 {
        0
    } else if text[0] == mark {
        0
    } else {
        1 + index_of(text.drop_first(), mark)
    }
}

/// The pieces of `text` between the occurrences of `mark`: one more piece
/// than there are marks, so at least one.
pub open spec fn split(text: Seq<char>, mark: char) -> Seq<Seq<char>>
    decreases text.len(),
{
    let at = index_of(text, mark);
    if 0 <= at < text.len() {
        seq![text.take(at)] + split(text.skip(at + 1), mark)
    } else {
        seq![text]
    }
}

/// The pieces put together with `mark` between each two.
pub open spec fn join(pieces: Seq<Seq<char>>, mark: char) -> Seq<char>
    decreases pieces.len(),
{
    if pieces.len() == 0 {
        Seq::empty()
    } else if pieces.len() == 1 {
        pieces[0]
    } else {
        pieces[0] + seq![mark] + join(pieces.drop_first(), mark)
    }
}

/// The text of the error that a path with a sigil before its last segment
/// gives: `word` says which sigil, `segment` is the segment that carries it.
/// It is what `format!` makes of them, the segment in its `Debug` form.
pub uninterp spec fn sigil_inside_message(word: Seq<char>, segment: Seq<char>) -> Seq<char>;

/// Builds the error text for a segment with a sigil before the end of a path,
/// with `std::format!`: the words "Found", then `word`, then the segment in its
/// `Debug` form between single quotes, then "inside Path". The text depends on
/// the two arguments alone.
#[verifier::external_body]
fn describe_sigil_inside(word: &str, segment: &String) -> (message: String)
    ensures
        message@ == sigil_inside_message(word@, segment@),
{
    format!("Found {} '{:?}' inside Path", word, segment)
}

/// Whether `name` starts with the character `sigil`.
pub fn starts_with_char(name: &String, sigil: char) -> (starts: bool)
    ensures
        starts == (name@.len() > 0 && name@[0] == sigil),
{
    let text: &str = name.as_str();
    if text.is_empty() {
        false
    } else {
        text.get_char(0) == sigil
    }
}

pub enum ValidationError {
    InvalidTopLevelStatement(Statement),
    MissingModStatement,
    MoreThanOneModStatement,
}

#[derive(Debug, PartialEq)]
pub struct Module {
    pub stmts: Vec<Statement>,
}

/// What a validation error holds.
pub enum ValidationErrorView {
    InvalidTopLevelStatement(StatementView),
    MissingModStatement,
    MoreThanOneModStatement,
}

impl View for ValidationError {
    type V = ValidationErrorView;

    open spec fn view(&self) -> ValidationErrorView {
        match self {
            ValidationError::InvalidTopLevelStatement(
                stmt,
            ) => ValidationErrorView::InvalidTopLevelStatement(stmt@),
            ValidationError::MissingModStatement => ValidationErrorView::MissingModStatement,
            ValidationError::MoreThanOneModStatement => ValidationErrorView::MoreThanOneModStatement,
        }
    }
}

/// Whether a statement may stand at the top level of a module.
pub open spec fn is_top_level(stmt: StatementView) -> bool {
    stmt is Mod || stmt is Extern || stmt is Const || stmt is Static || stmt is Defn
}

/// How many of the statements are `mod` statements.
pub open spec fn mod_count(stmts: Seq<StatementView>) -> nat
    decreases stmts.len(),
{
    if stmts.len() == 0 {
        0
    } else {
        mod_count(stmts.drop_last()) + if stmts.last() is Mod {
            1nat
        } else {
            0nat
        }
    }
}

/// The position of the first statement that may not stand at the top level
/// of a module, or the number of the statements where each of them may.
pub open spec fn first_invalid(stmts: Seq<StatementView>) -> int
    decreases stmts.len(),
{
    if stmts.len() == 0 || !is_top_level(stmts[0]) {
        0
    } else {
        1 + first_invalid(stmts.drop_first())
    }
}

/// What validating the statements of a module gives: the first statement
/// that may not stand at the top level is an error; where there is none, it
/// is an error to have no `mod` statement, and to have more than one.
pub open spec fn validation(stmts: Seq<StatementView>) -> Result<(), ValidationErrorView> {
    let at = first_invalid(stmts);
    if 0 <= at < stmts.len() {
        Err(ValidationErrorView::InvalidTopLevelStatement(stmts[at]))
    } else if mod_count(stmts) == 0 {
        Err(ValidationErrorView::MissingModStatement)
    } else if mod_count(stmts) > 1 {
        Err(ValidationErrorView::MoreThanOneModStatement)
    } else {
        Ok(())
    }
}

/// `first_invalid` finds a statement that may not stand at the top level
/// and that only statements that may come before.
pub proof fn lemma_first_invalid(stmts: Seq<StatementView>, at: int)
    requires
        0 <= at <= stmts.len(),
        forall|j: int| 0 <= j < at ==> is_top_level(#[trigger] stmts[j]),
        at < stmts.len() ==> !is_top_level(stmts[at]),
    ensures
        first_invalid(stmts) == at,
    decreases at,
{
    if at > 0 {
        let rest = stmts.drop_first();
        assert(is_top_level(stmts[0]));
        assert forall|j: int| 0 <= j < at - 1 implies is_top_level(#[trigger] rest[j]) by {
            assert(rest[j] == stmts[j + 1]);
        }
        if at < stmts.len() {
            assert(rest[at - 1] == stmts[at]);
        }
        lemma_first_invalid(rest, at - 1);
    }
}

/// The first statement that may not stand at the top level lies within the
/// statements or right after them, and those before it may stand there.
pub proof fn lemma_first_invalid_is_first(stmts: Seq<StatementView>)
    ensures
        0 <= first_invalid(stmts) <= stmts.len(),
        forall|j: int| 0 <= j < first_invalid(stmts) ==> is_top_level(#[trigger] stmts[j]),
        first_invalid(stmts) < stmts.len() ==> !is_top_level(stmts[first_invalid(stmts)]),
    decreases stmts.len(),
{
    if stmts.len() > 0 && is_top_level(stmts[0]) {
        let rest = stmts.drop_first();
        lemma_first_invalid_is_first(rest);
        assert forall|j: int| 0 <= j < first_invalid(stmts) implies is_top_level(
            #[trigger] stmts[j],
        ) by {
            if j > 0 {
                assert(stmts[j] == rest[j - 1]);
            }
        }
        if first_invalid(stmts) < stmts.len() {
            assert(stmts[first_invalid(stmts)] == rest[first_invalid(rest)]);
        }
    }
}

/// There are at least as many `mod` statements as there are among the
/// first statements, and one more where a later statement is one.
pub proof fn lemma_mod_count_grows(stmts: Seq<StatementView>, n: int, at: int)
    requires
        0 <= n <= stmts.len(),
    ensures
        mod_count(stmts.take(n)) <= mod_count(stmts),
        n <= at < stmts.len() && stmts[at] is Mod ==> mod_count(stmts.take(n)) < mod_count(stmts),
    decreases stmts.len() - n,
{
    if n < stmts.len() {
        assert(stmts.take(n + 1).drop_last() =~= stmts.take(n));
        lemma_mod_count_grows(stmts, n + 1, at);
    } else {
        assert(stmts.take(n) =~= stmts);
    }
}

/// A module without a `mod` statement fails validation for want of one,
/// where each of its statements may stand at the top level.
pub proof fn lemma_no_mod_is_missing(stmts: Seq<StatementView>)
    requires
        forall|i: int| 0 <= i < stmts.len() ==> is_top_level(#[trigger] stmts[i]),
        forall|i: int| 0 <= i < stmts.len() ==> !(#[trigger] stmts[i] is Mod),
    ensures
        validation(stmts) == Err::<(), ValidationErrorView>(
            ValidationErrorView::MissingModStatement,
        ),
    decreases stmts.len(),
{
    lemma_first_invalid(stmts, stmts.len() as int);
    lemma_no_mods(stmts);
}

proof fn lemma_no_mods(stmts: Seq<StatementView>)
    requires
        forall|i: int| 0 <= i < stmts.len() ==> !(#[trigger] stmts[i] is Mod),
    ensures
        mod_count(stmts) == 0,
    decreases stmts.len(),
{
    if stmts.len() > 0 {
        let front = stmts.drop_last();
        assert forall|i: int| 0 <= i < front.len() implies !(#[trigger] front[i] is Mod) by {
            assert(front[i] == stmts[i]);
        }
        lemma_no_mods(front);
        assert(stmts[stmts.len() - 1] == stmts.last());
    }
}

/// A module with two `mod` statements fails validation for having more than
/// one, where each of its statements may stand at the top level.
pub proof fn lemma_two_mods_are_too_many(stmts: Seq<StatementView>, first: int, second: int)
    requires
        forall|i: int| 0 <= i < stmts.len() ==> is_top_level(#[trigger] stmts[i]),
        0 <= first < second < stmts.len(),
        stmts[first] is Mod,
        stmts[second] is Mod,
    ensures
        validation(stmts) == Err::<(), ValidationErrorView>(
            ValidationErrorView::MoreThanOneModStatement,
        ),
{
    lemma_first_invalid(stmts, stmts.len() as int);
    lemma_mod_count_grows(stmts, first + 1, second);
    let upto = stmts.take(first + 1);
    assert(upto.last() == stmts[first]);
    assert(mod_count(upto) >= 1);
}

/// A module with a `local` statement at its top level fails validation,
/// and the error is a statement that may not stand there.
pub proof fn lemma_local_is_invalid(stmts: Seq<StatementView>, at: int)
    requires
        0 <= at < stmts.len(),
        stmts[at] is Local,
    ensures
        validation(stmts) matches Err(ValidationErrorView::InvalidTopLevelStatement(stmt))
            && !is_top_level(stmt),
{
    lemma_first_invalid_is_first(stmts);
    if first_invalid(stmts) >= stmts.len() {
        assert(is_top_level(stmts[at]));
    }
}

impl Module {
    pub fn new() -> (module: Module)
        ensures
            module.stmts@.len() == 0,
    {
        Module { stmts: Vec::new() }
    }

    pub fn with_stmts(stmts: Vec<Statement>) -> (module: Module)
        ensures
            module.stmts == stmts,
    {
        Module { stmts: stmts }
    }

    pub fn push_mod(&mut self, m: Mod)
        ensures
            final(self).stmts@ == old(self).stmts@.push(Statement::StatementMod(m)),
    {
        self.stmts.push(Statement::StatementMod(m));
    }

    pub fn push_extern(&mut self, e: Extern)
        ensures
            final(self).stmts@ == old(self).stmts@.push(Statement::StatementExtern(e)),
    {
        self.stmts.push(Statement::StatementExtern(e));
    }

    pub fn push_static(&mut self, s: Static)
        ensures
            final(self).stmts@ == old(self).stmts@.push(Statement::StatementStatic(s)),
    {
        self.stmts.push(Statement::StatementStatic(s));
    }

    pub fn push_defn(&mut self, d: Defn)
        ensures
            final(self).stmts@ == old(self).stmts@.push(Statement::StatementDefn(d)),
    {
        self.stmts.push(Statement::StatementDefn(d));
    }

    /// Check that the module is properly formed and that it doesn't contain invalid statements.
    /// The first statement that may not stand at the top level is reported
    /// before any fault in the number of `mod` statements.
    pub fn validate(&self) -> (result: Result<(), ValidationError>)
        ensures
            match validation(self@) {
                Ok(_) => result is Ok,
                Err(error) => result matches Err(e) && e@ == error,
            },
    {
        let ghost all = self@;
        proof {
            lemma_statements_view(self.stmts, self.stmts.len() as nat);
        }
        let mut mod_statements: usize = 0;
        let mut i: usize = 0;
        while i < self.stmts.len()
            invariant
                i <= self.stmts@.len(),
                all == self@,
                all.len() == self.stmts@.len(),
                forall|j: int| 0 <= j < all.len() ==> #[trigger] all[j] == self.stmts@[j]@,
                mod_statements == mod_count(all.take(i as int)),
                mod_statements <= i,
                forall|j: int| 0 <= j < i ==> is_top_level(#[trigger] all[j]),
            decreases self.stmts@.len() - i,
        {
            let stmt = &self.stmts[i];
            proof {
                assert(all.take(i + 1).drop_last() =~= all.take(i as int));
                assert(all[i as int] == stmt@);
            }
            match stmt {
                Statement::StatementExtern(_)
                | Statement::StatementConst(_)
                | Statement::StatementStatic(_)
                | Statement::StatementDefn(_) => (),
                Statement::StatementMod(_) => { mod_statements = mod_statements + 1 },
                _ => {
                    proof {
                        lemma_first_invalid(all, i as int);
                    }
                    return Err(ValidationError::InvalidTopLevelStatement(stmt.clone()));
                },
            }
            i = i + 1;
        }
        proof {
            assert(all.take(i as int) =~= all);
            lemma_first_invalid(all, all.len() as int);
        }
        if mod_statements == 0 {
            return Err(ValidationError::MissingModStatement);
        } else if mod_statements > 1 {
            return Err(ValidationError::MoreThanOneModStatement);
        }
        Ok(())
    }
}

#[derive(Debug, PartialEq)]
pub struct BasicBlock {
    pub stmts: Vec<Statement>,
}

impl BasicBlock {
    pub fn new() -> (block: BasicBlock)
        ensures
            block.stmts@.len() == 0,
    {
        BasicBlock { stmts: Vec::new() }
    }

    pub fn with_stmts(stmts: Vec<Statement>) -> (block: BasicBlock)
        ensures
            block.stmts == stmts,
    {
        BasicBlock { stmts: stmts }
    }
}

#[derive(Debug, PartialEq)]
pub enum Statement {
    StatementMod(Mod),
    StatementExtern(Extern),
    StatementConst(Const),
    StatementStatic(Static),
    StatementLocal(Local),
    StatementAssignment(Assignment),
    StatementDefn(Defn),
    StatementFn(Fn),
    StatementReturn(Return),
    StatementCall(Call),
    StatementTest(Test),
    StatementIf(If),
    StatementThen(Then),
    StatementElse(Else),
    StatementWhile(While),
    StatementDo(Do),
    StatementBreak,
}

/// Represents any node that can potentially act as a value in the assembly AST.
#[derive(Debug, PartialEq)]
pub enum Value {
    Name(Name),
    Path(Path),
    Fn(Fn),
    Call(Call),
}

impl Value {
    pub fn with_name(name: Name) -> (value: Value)
        ensures
            value == Value::Name(name),
    {
        Value::Name(name)
    }

    pub fn from_name_str(s: &str) -> (value: Value)
        ensures
            value matches Value::Name(name) && name@ == s@,
    {
        Value::Name(s.to_owned())
    }
}

#[derive(Debug)]
pub enum ParseError<'a> {
    InvalidOperator(&'a str),
    InvalidSegment(String),
}

/// Represents a period-separated list of names.
/// Its segments are never none, and none but the last carries a sigil.
#[derive(Debug, PartialEq)]
pub struct Path {
    segments: Vec<Name>,
}

impl View for Path {
    type V = Seq<Seq<char>>;

    /// The segments of the path, in order.
    closed spec fn view(&self) -> Seq<Seq<char>> {
        self.segments.deep_view()
    }
}

impl Clone for Path {
    fn clone(&self) -> (copy: Self)
        ensures
            copy@ == self@,
    {
        proof {
            use_type_invariant(self);
        }
        let mut segments: Vec<Name> = Vec::new();
        let mut i: usize = 0;
        while i < self.segments.len()
            invariant
                i <= self.segments.len(),
                segments.len() == i,
                forall|j: int| 0 <= j < i ==> segments@[j]@ == self.segments@[j]@,
            decreases self.segments.len() - i,
        {
            segments.push(self.segments[i].clone());
            i = i + 1;
        }
        assert(segments.deep_view() =~= self.segments.deep_view());
        Path { segments: segments }
    }
}

impl Path {
    #[verifier::type_invariant]
    spec fn well_formed(&self) -> bool {
        valid_segments(self.segments.deep_view())
    }

    /// The path with the given segments. It fails when there is no segment
    /// and when a segment before the last starts with `@` or `$`; the error
    /// then speaks of the first such segment.
    pub fn new<'a>(segments: Vec<Name>) -> (result: Result<Path, ParseError<'a>>)
        ensures
            result is Ok <==> valid_segments(segments.deep_view()),
            result matches Ok(path) ==> path@ == segments.deep_view(),
            result matches Err(error) ==> error matches ParseError::InvalidSegment(message) && (
            segments@.len() == 0 ==> message@ == "Path has no segments"@) && (segments@.len() > 0
                ==> exists|i: int|
                0 <= i < segments@.len() - 1 && is_sigiled(#[trigger] segments.deep_view()[i])
                    && message@ == sigil_inside_message(
                    sigil_word(segments.deep_view()[i]),
                    segments.deep_view()[i],
                ) && forall|j: int| 0 <= j < i ==> !is_sigiled(#[trigger] segments.deep_view()[j])),
    {
        let len: usize = segments.len();
        let ghost names = segments.deep_view();
        assert(names.len() == len);
        if len == 0 {
            return Err(ParseError::InvalidSegment("Path has no segments".to_owned()));
        }
        // Return error if any of the front segments are const or static
        let mut i: usize = 0;
        while i < len - 1
            invariant
                len == segments@.len(),
                len > 0,
                i <= len - 1,
                names == segments.deep_view(),
                forall|j: int| 0 <= j < i ==> !is_sigiled(#[trigger] names[j]),
            decreases len - i,
        {
            let segment = &segments[i];
            assert(names[i as int] == segment@);
            if starts_with_char(segment, '@') {
                return Err(ParseError::InvalidSegment(describe_sigil_inside("constant", segment)));
            }
            if starts_with_char(segment, '$') {
                return Err(ParseError::InvalidSegment(describe_sigil_inside("static", segment)));
            }
            i = i + 1;
        }
        Ok(Path { segments: segments })
    }

    /// The segments of the path, in order.
    pub fn segments(&self) -> (segments: &Vec<Name>)
        ensures
            segments.deep_view() == self@,
            valid_segments(self@),
    {
        proof {
            use_type_invariant(self);
        }
        &self.segments
    }

    pub fn ends_with_const(&self) -> (ends: bool)
        ensures
            ends == is_const_name(self@.last()),
    {
        proof {
            use_type_invariant(self);
        }
        let last = &self.segments[self.segments.len() - 1];
        assert(self@.last() == last@);
        starts_with_char(last, '@')
    }

    pub fn ends_with_static(&self) -> (ends: bool)
        ensures
            ends == is_static_name(self@.last()),
    {
        proof {
            use_type_invariant(self);
        }
        let last = &self.segments[self.segments.len() - 1];
        assert(self@.last() == last@);
        starts_with_char(last, '$')
    }

    /// The path of one segment, which may carry a sigil.
    pub fn with_name(name: Name) -> (path: Path)
        ensures
            path@ == seq![name@],
    {
        let mut segments: Vec<Name> = Vec::new();
        segments.push(name);
        assert(segments.deep_view() =~= seq![name@]);
        Path { segments: segments }
    }

    /// The path that `s` spells: its segments are the pieces of `s` between
    /// the periods.
    pub fn from_str(s: &str) -> (result: Result<Path, ParseError>)
        ensures
            result is Ok <==> valid_segments(split(s@, '.')),
            result matches Ok(path) ==> path@ == split(s@, '.'),
            result matches Err(error) ==> error matches ParseError::InvalidSegment(message)
                && exists|i: int|
                0 <= i < split(s@, '.').len() - 1 && is_sigiled(#[trigger] split(s@, '.')[i])
                    && message@ == sigil_inside_message(
                    sigil_word(split(s@, '.')[i]),
                    split(s@, '.')[i],
                ) && forall|j: int| 0 <= j < i ==> !is_sigiled(#[trigger] split(s@, '.')[j]),
    {
        let segments = split_at_periods(s);
        proof {
            lemma_split_len(s@, '.');
        }
        Path::new(segments)
    }

    /// The segments with a period between each two.
    pub fn to_string(&self) -> (text: String)
        ensures
            text@ == join(self@, '.'),
    {
        proof {
            use_type_invariant(self);
        }
        let ghost names = self@;
        let mut text: String = self.segments[0].clone();
        assert(names.take(1) =~= seq![names[0]]);
        let mut i: usize = 1;
        while i < self.segments.len()
            invariant
                1 <= i <= self.segments@.len(),
                names == self.segments.deep_view(),
                text@ == join(names.take(i as int), '.'),
            decreases self.segments@.len() - i,
        {
            proof {
                reveal_strlit(".");
                lemma_join_push(names.take(i as int), names[i as int], '.');
                assert(names.take(i as int).push(names[i as int]) =~= names.take(i + 1));
            }
            text.append(".");
            text.append(self.segments[i].as_str());
            assert(text@ =~= join(names.take(i as int), '.') + seq!['.'] + names[i as int]);
            i = i + 1;
        }
        assert(names.take(i as int) =~= names);
        text
    }
}

/// The pieces of `s` between its periods, as strings.
fn split_at_periods(s: &str) -> (pieces: Vec<Name>)
    ensures
        pieces.deep_view() == split(s@, '.'),
{
    let len: usize = s.unicode_len();
    let mut pieces: Vec<Name> = Vec::new();
    let mut start: usize = 0;
    let mut i: usize = 0;
    assert(s@.skip(0) =~= s@);
    assert(pieces.deep_view() =~= Seq::<Seq<char>>::empty());
    while i < len
        invariant
            len == s@.len(),
            start <= i <= len,
            pieces.deep_view() + split(s@.skip(start as int), '.') == split(s@, '.'),
            forall|j: int| start <= j < i ==> s@[j] != '.',
        decreases len - i,
    {
        if s.get_char(i) == '.' {
            let piece: String = s.substring_char(start, i).to_owned();
            proof {
                let rest = s@.skip(start as int);
                lemma_index_of_first(rest, '.', i - start);
                assert(rest.take(i - start) =~= s@.subrange(start as int, i as int));
                assert(rest.skip(i - start + 1) =~= s@.skip(i + 1));
                let before = pieces.deep_view();
                assert(before.push(piece@) + split(s@.skip(i + 1), '.') =~= before + split(
                    rest,
                    '.',
                ));
            }
            let ghost before = pieces.deep_view();
            pieces.push(piece);
            assert(pieces.deep_view() =~= before.push(piece@));
            start = i + 1;
        }
        i = i + 1;
    }
    let piece: String = s.substring_char(start, len).to_owned();
    proof {
        let rest = s@.skip(start as int);
        lemma_index_of_absent(rest, '.');
        assert(rest =~= s@.subrange(start as int, len as int));
    }
    let ghost before = pieces.deep_view();
    pieces.push(piece);
    assert(pieces.deep_view() =~= before.push(piece@));
    assert(before.push(piece@) =~= before + seq![piece@]);
    pieces
}

/// `index_of` finds a mark that nothing of its kind comes before.
pub proof fn lemma_index_of_first(text: Seq<char>, mark: char, at: int)
    requires
        0 <= at < text.len(),
        text[at] == mark,
        forall|j: int| 0 <= j < at ==> text[j] != mark,
    ensures
        index_of(text, mark) == at,
    decreases at,
{
    if at > 0 {
        lemma_index_of_first(text.drop_first(), mark, at - 1);
    }
}

/// `index_of` gives the length of a text without the mark, and never more
/// than the length.
pub proof fn lemma_index_of_absent(text: Seq<char>, mark: char)
    ensures
        0 <= index_of(text, mark) <= text.len(),
        (forall|j: int| 0 <= j < text.len() ==> text[j] != mark) ==> index_of(text, mark)
            == text.len(),
        index_of(text, mark) < text.len() ==> text[index_of(text, mark)] == mark,
        forall|j: int| 0 <= j < index_of(text, mark) ==> text[j] != mark,
    decreases text.len(),
{
    if text.len() > 0 && text[0] != mark {
        let rest = text.drop_first();
        lemma_index_of_absent(rest, mark);
        assert forall|j: int| 0 <= j < index_of(text, mark) implies text[j] != mark by {
            if j > 0 {
                assert(text[j] == rest[j - 1]);
            }
        }
        if forall|j: int| 0 <= j < text.len() ==> text[j] != mark {
            assert forall|j: int| 0 <= j < rest.len() implies rest[j] != mark by {
                assert(rest[j] == text[j + 1]);
            }
        }
    }
}

/// Splitting gives at least one piece.
pub proof fn lemma_split_len(text: Seq<char>, mark: char)
    ensures
        split(text, mark).len() >= 1,
    decreases text.len(),
{
    let at = index_of(text, mark);
    if 0 <= at < text.len() {
        lemma_split_len(text.skip(at + 1), mark);
    }
}

/// Joining one more piece adds the mark and the piece, after a first piece.
pub proof fn lemma_join_push(pieces: Seq<Seq<char>>, piece: Seq<char>, mark: char)
    requires
        pieces.len() >= 1,
    ensures
        join(pieces.push(piece), mark) == join(pieces, mark) + seq![mark] + piece,
    decreases pieces.len(),
{
    let longer = pieces.push(piece);
    if pieces.len() == 1 {
        assert(longer.drop_first() =~= seq![piece]);
        assert(join(longer.drop_first(), mark) == piece);
    } else {
        assert(longer.drop_first() =~= pieces.drop_first().push(piece));
        lemma_join_push(pieces.drop_first(), piece, mark);
        assert(join(longer, mark) =~= join(pieces, mark) + seq![mark] + piece);
    }
}

/// Splitting what was joined gives the pieces back, where there is at least
/// one piece and none holds the mark.
pub proof fn lemma_split_of_join(pieces: Seq<Seq<char>>, mark: char)
    requires
        pieces.len() >= 1,
        forall|i: int, j: int|
            0 <= i < pieces.len() && 0 <= j < pieces[i].len() ==> pieces[i][j] != mark,
    ensures
        split(join(pieces, mark), mark) == pieces,
    decreases pieces.len(),
{
    let text = join(pieces, mark);
    if pieces.len() == 1 {
        lemma_index_of_absent(text, mark);
        assert(split(text, mark) =~= pieces);
    } else {
        let first = pieces[0];
        let rest = pieces.drop_first();
        assert(text == first + seq![mark] + join(rest, mark));
        lemma_index_of_first(text, mark, first.len() as int);
        assert(text.take(first.len() as int) =~= first);
        assert(text.skip(first.len() as int + 1) =~= join(rest, mark));
        assert forall|i: int, j: int| 0 <= i < rest.len() && 0 <= j < rest[i].len() implies rest[i][j]
            != mark by {
            assert(rest[i] == pieces[i + 1]);
        }
        lemma_split_of_join(rest, mark);
        assert(split(text, mark) =~= pieces);
    }
}

/// Spelling a path out and reading the text back gives the path, where no
/// segment holds a period.
pub proof fn lemma_path_round_trip(path: Path)
    requires
        valid_segments(path@),
        forall|i: int, j: int| 0 <= i < path@.len() && 0 <= j < path@[i].len() ==> path@[i][j] != '.',
    ensures
        split(join(path@, '.'), '.') == path@,
        valid_segments(split(join(path@, '.'), '.')),
{
    lemma_split_of_join(path@, '.');
}

#[derive(Debug, PartialEq)]
pub struct Mod {
    pub path: Path,
}

impl Mod {
    pub fn new(path: Path) -> (m: Mod)
        ensures
            m.path == path,
    {
        Mod { path: path }
    }
}

#[derive(Debug, PartialEq)]
pub struct Extern {
    pub path: Path,
}

impl Extern {
    pub fn new(path: Path) -> (e: Extern)
        ensures
            e.path == path,
    {
        Extern { path: path }
    }
}

#[derive(Debug, PartialEq)]
pub struct Const {
    pub name: Name,
    pub constructor: Path,
    pub argument: Option<String>,
}

impl Const {
    pub fn new(name: Name, constructor: Path, argument: Option<String>) -> (c: Const)
        ensures
            c.name == name,
            c.constructor == constructor,
            c.argument == argument,
    {
        Const { name: name, constructor: constructor, argument: argument }
    }
}

#[derive(Debug, PartialEq)]
pub struct Static {
    pub name: Name,
}

impl Static {
    pub fn new(name: Name) -> (s: Static)
        ensures
            s.name == name,
    {
        Static { name: name }
    }
}

#[derive(Debug, PartialEq)]
pub struct Local {
    pub name: Name,
}

impl Local {
    pub fn new(name: Name) -> (l: Local)
        ensures
            l.name == name,
    {
        Local { name: name }
    }
}

#[derive(Clone, Copy, Debug, PartialEq, Eq, Structural)]
pub enum AssignmentOp {
    Plain,
    AllocateAndAssign,
}

impl AssignmentOp {
    /// The operator that `op` spells: `=` or `:=`.
    pub fn from_str<'a>(op: &'a str) -> (result: Result<AssignmentOp, ParseError<'a>>)
        ensures
            op@ == "="@ ==> result == Ok::<AssignmentOp, ParseError>(AssignmentOp::Plain),
            op@ == ":="@ ==> result == Ok::<AssignmentOp, ParseError>(
                AssignmentOp::AllocateAndAssign,
            ),
            op@ != "="@ && op@ != ":="@ ==> result == Err::<AssignmentOp, ParseError>(
                ParseError::InvalidOperator(op),
            ),
    {
        proof {
            reveal_strlit("=");
            reveal_strlit(":=");
        }
        let len: usize = op.unicode_len();
        if len == 1 && op.get_char(0) == '=' {
            assert(op@ =~= "="@);
            Ok(AssignmentOp::Plain)
        } else if len == 2 && op.get_char(0) == ':' && op.get_char(1) == '=' {
            assert(op@ =~= ":="@);
            Ok(AssignmentOp::AllocateAndAssign)
        } else {
            Err(ParseError::InvalidOperator(op))
        }
    }
}

#[derive(Debug, PartialEq)]
pub struct Assignment {
    pub lvalue: Name,
    pub operator: AssignmentOp,
    pub rvalue: Value,
}

impl Assignment {
    pub fn new(lvalue: Name, op: AssignmentOp, rvalue: Value) -> (a: Assignment)
        ensures
            a.lvalue == lvalue,
            a.operator == op,
            a.rvalue == rvalue,
    {
        Assignment { lvalue: lvalue, operator: op, rvalue: rvalue }
    }
}

/// Represents a named function.
#[derive(Debug, PartialEq)]
pub struct Defn {
    pub name: Name,
    pub parameters: Vec<Name>,
    pub body: BasicBlock,
}

impl Defn {
    pub fn new(name: Name, parameters: Vec<Name>, body: BasicBlock) -> (d: Defn)
        ensures
            d.name == name,
            d.parameters == parameters,
            d.body == body,
    {
        Defn { name: name, parameters: parameters, body: body }
    }
}

/// Represents an anonymous function value.
#[derive(Debug, PartialEq)]
pub struct Fn {
    pub parameters: Vec<Name>,
    pub body: BasicBlock,
}

impl Fn {
    pub fn new(parameters: Vec<Name>, body: BasicBlock) -> (f: Fn)
        ensures
            f.parameters == parameters,
            f.body == body,
    {
        Fn { parameters: parameters, body: body }
    }
}

#[derive(Debug, PartialEq)]
pub struct Return {
    pub value: Option<Value>,
}

impl Return {
    pub fn new(value: Option<Value>) -> (r: Return)
        ensures
            r.value == value,
    {
        Return { value: value }
    }
}

#[derive(Debug, PartialEq)]
pub struct Call {
    pub path: Path,
    pub arguments: Vec<Name>,
}

impl Call {
    pub fn new(path: Path, arguments: Vec<Name>) -> (c: Call)
        ensures
            c.path == path,
            c.arguments == arguments,
    {
        Call { path: path, arguments: arguments }
    }
}

#[derive(Debug, PartialEq)]
pub struct Test {
    pub name: Name,
}

#[derive(Debug, PartialEq)]
pub struct If {
    pub condition: BasicBlock,
    pub then_sibling: Then,
}

#[derive(Debug, PartialEq)]
pub struct Then {
    pub body: BasicBlock,
    pub else_sibling: Option<Else>,
}

#[derive(Debug, PartialEq)]
pub struct Else {
    pub body: BasicBlock,
}

#[derive(Debug, PartialEq)]
pub struct While {
    pub body: BasicBlock,
    // Some if this While is the lead and it's followed by a Do
    pub do_sibling: Option<Box<Do>>,
}

#[derive(Debug, PartialEq)]
pub struct Do {
    pub body: BasicBlock,
    // Some if this Do is lead and it's followed by a While
    pub while_sibling: Option<Box<While>>,
}

} // verus!
