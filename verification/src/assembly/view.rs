use super::{
    Assignment, AssignmentOp, BasicBlock, Call, Const, Defn, Do, Else, Extern, Fn, If, Local,
    Mod, Module, Name, Path, Return, Statement, Static, Test, Then, Value, While,
};
use vstd::prelude::*;

verus! {

/// What a call holds.
pub struct CallView {
    pub path: Seq<Seq<char>>,
    pub arguments: Seq<Seq<char>>,
}

/// What an anonymous function holds.
pub struct FnView {
    pub parameters: Seq<Seq<char>>,
    pub body: Seq<StatementView>,
}

/// What a `then` holds.
pub struct ThenView {
    pub body: Seq<StatementView>,
    pub else_sibling: Option<Seq<StatementView>>,
}

/// What a `while` holds.
pub struct WhileView {
    pub body: Seq<StatementView>,
    pub do_sibling: Option<Box<DoView>>,
}

/// What a `do` holds.
pub struct DoView {
    pub body: Seq<StatementView>,
    pub while_sibling: Option<Box<WhileView>>,
}

/// What a value holds.
pub enum ValueView {
    Name(Seq<char>),
    Path(Seq<Seq<char>>),
    Fn(FnView),
    Call(CallView),
}

/// What a statement holds: names as sequences of characters, paths as
/// sequences of segments, blocks as sequences of statements.
pub enum StatementView {
    Mod { path: Seq<Seq<char>> },
    Extern { path: Seq<Seq<char>> },
    Const { name: Seq<char>, constructor: Seq<Seq<char>>, argument: Option<Seq<char>> },
    Static { name: Seq<char> },
    Local { name: Seq<char> },
    Assignment { lvalue: Seq<char>, operator: AssignmentOp, rvalue: ValueView },
    Defn { name: Seq<char>, parameters: Seq<Seq<char>>, body: Seq<StatementView> },
    Fn(FnView),
    Return { value: Option<ValueView> },
    Call(CallView),
    Test { name: Seq<char> },
    If { condition: Seq<StatementView>, then_sibling: ThenView },
    Then(ThenView),
    Else { body: Seq<StatementView> },
    While(WhileView),
    Do(DoView),
    Break,
}

/// What the first `n` of the statements hold.
pub open spec fn statements_view(stmts: Vec<Statement>, n: nat) -> Seq<StatementView>
    decreases stmts, n,
{
    if n == 0 || n > stmts.len() {
        Seq::empty()
    } else {
        statements_view(stmts, (n - 1) as nat).push(statement_view(stmts[n - 1]))
    }
}

/// What a block holds.
pub open spec fn block_view(block: BasicBlock) -> Seq<StatementView>
    decreases block, 0nat,
{
    statements_view(block.stmts, block.stmts.len() as nat)
}

pub open spec fn fn_view(f: Fn) -> FnView
    decreases f, 0nat,
{
    FnView { parameters: f.parameters.deep_view(), body: block_view(f.body) }
}

pub open spec fn call_view(c: Call) -> CallView {
    CallView { path: c.path@, arguments: c.arguments.deep_view() }
}

pub open spec fn value_view(value: Value) -> ValueView
    decreases value, 0nat,
{
    match value {
        Value::Name(name) => ValueView::Name(name@),
        Value::Path(path) => ValueView::Path(path@),
        Value::Fn(f) => ValueView::Fn(fn_view(f)),
        Value::Call(c) => ValueView::Call(call_view(c)),
    }
}

pub open spec fn then_view(t: Then) -> ThenView
    decreases t, 0nat,
{
    ThenView {
        body: block_view(t.body),
        else_sibling: match t.else_sibling {
            None => None,
            Some(e) => Some(block_view(e.body)),
        },
    }
}

pub open spec fn while_view(w: While) -> WhileView
    decreases w, 0nat,
{
    WhileView {
        body: block_view(w.body),
        do_sibling: match w.do_sibling {
            None => None,
            Some(d) => Some(Box::new(do_view(*d))),
        },
    }
}

pub open spec fn do_view(d: Do) -> DoView
    decreases d, 0nat,
{
    DoView {
        body: block_view(d.body),
        while_sibling: match d.while_sibling {
            None => None,
            Some(w) => Some(Box::new(while_view(*w))),
        },
    }
}

pub open spec fn text_view(text: Option<String>) -> Option<Seq<char>> {
    match text {
        None => None,
        Some(t) => Some(t@),
    }
}

pub open spec fn statement_view(stmt: Statement) -> StatementView
    decreases stmt, 0nat,
{
    match stmt {
        Statement::StatementMod(m) => StatementView::Mod { path: m.path@ },
        Statement::StatementExtern(e) => StatementView::Extern { path: e.path@ },
        Statement::StatementConst(c) => StatementView::Const {
            name: c.name@,
            constructor: c.constructor@,
            argument: text_view(c.argument),
        },
        Statement::StatementStatic(s) => StatementView::Static { name: s.name@ },
        Statement::StatementLocal(l) => StatementView::Local { name: l.name@ },
        Statement::StatementAssignment(a) => StatementView::Assignment {
            lvalue: a.lvalue@,
            operator: a.operator,
            rvalue: value_view(a.rvalue),
        },
        Statement::StatementDefn(d) => StatementView::Defn {
            name: d.name@,
            parameters: d.parameters.deep_view(),
            body: block_view(d.body),
        },
        Statement::StatementFn(f) => StatementView::Fn(fn_view(f)),
        Statement::StatementReturn(r) => StatementView::Return {
            value: match r.value {
                None => None,
                Some(v) => Some(value_view(v)),
            },
        },
        Statement::StatementCall(c) => StatementView::Call(call_view(c)),
        Statement::StatementTest(t) => StatementView::Test { name: t.name@ },
        Statement::StatementIf(i) => StatementView::If {
            condition: block_view(i.condition),
            then_sibling: then_view(i.then_sibling),
        },
        Statement::StatementThen(t) => StatementView::Then(then_view(t)),
        Statement::StatementElse(e) => StatementView::Else { body: block_view(e.body) },
        Statement::StatementWhile(w) => StatementView::While(while_view(w)),
        Statement::StatementDo(d) => StatementView::Do(do_view(d)),
        Statement::StatementBreak => StatementView::Break,
    }
}

impl View for Statement {
    type V = StatementView;

    open spec fn view(&self) -> StatementView {
        statement_view(*self)
    }
}

impl View for Value {
    type V = ValueView;

    open spec fn view(&self) -> ValueView {
        value_view(*self)
    }
}

impl View for BasicBlock {
    type V = Seq<StatementView>;

    open spec fn view(&self) -> Seq<StatementView> {
        block_view(*self)
    }
}

impl View for Module {
    type V = Seq<StatementView>;

    open spec fn view(&self) -> Seq<StatementView> {
        statements_view(self.stmts, self.stmts.len() as nat)
    }
}

/// The view of a sequence of statements holds the view of each, in order.
pub proof fn lemma_statements_view(stmts: Vec<Statement>, n: nat)
    requires
        n <= stmts.len(),
    ensures
        statements_view(stmts, n).len() == n,
        forall|i: int| 0 <= i < n ==> #[trigger] statements_view(stmts, n)[i] == stmts@[i]@,
    decreases n,
{
    if n > 0 {
        lemma_statements_view(stmts, (n - 1) as nat);
    }
}

/// Two sequences of statements that hold the same, one by one, have the same
/// view.
pub proof fn lemma_statements_view_same(a: Vec<Statement>, b: Vec<Statement>, n: nat)
    requires
        n <= a.len(),
        n <= b.len(),
        forall|i: int| 0 <= i < n ==> a@[i]@ == b@[i]@,
    ensures
        statements_view(a, n) == statements_view(b, n),
    decreases n,
{
    if n > 0 {
        lemma_statements_view_same(a, b, (n - 1) as nat);
    }
}

fn copy_names(names: &Vec<Name>) -> (copy: Vec<Name>)
    ensures
        copy.deep_view() == names.deep_view(),
{
    let mut copy: Vec<Name> = Vec::new();
    let mut i: usize = 0;
    while i < names.len()
        invariant
            i <= names.len(),
            copy.len() == i,
            forall|j: int| 0 <= j < i ==> copy@[j]@ == names@[j]@,
        decreases names.len() - i,
    {
        copy.push(names[i].clone());
        i = i + 1;
    }
    assert(copy.deep_view() =~= names.deep_view());
    copy
}

fn copy_text(text: &Option<String>) -> (copy: Option<String>)
    ensures
        text_view(copy) == text_view(*text),
{
    match text {
        None => None,
        Some(t) => Some(t.clone()),
    }
}

fn copy_statements(stmts: &Vec<Statement>) -> (copy: Vec<Statement>)
    ensures
        copy.len() == stmts.len(),
        statements_view(copy, copy.len() as nat) == statements_view(*stmts, stmts.len() as nat),
    decreases stmts, 1nat,
{
    let mut copy: Vec<Statement> = Vec::new();
    let mut i: usize = 0;
    while i < stmts.len()
        invariant
            i <= stmts.len(),
            copy.len() == i,
            forall|j: int| 0 <= j < i ==> copy@[j]@ == stmts@[j]@,
        decreases stmts.len() - i,
    {
        let stmt = copy_statement(&stmts[i]);
        copy.push(stmt);
        i = i + 1;
    }
    proof {
        lemma_statements_view_same(copy, *stmts, stmts.len() as nat);
    }
    copy
}

fn copy_block(block: &BasicBlock) -> (copy: BasicBlock)
    ensures
        copy@ == block@,
    decreases block, 2nat,
{
    BasicBlock { stmts: copy_statements(&block.stmts) }
}

fn copy_fn(f: &Fn) -> (copy: Fn)
    ensures
        fn_view(copy) == fn_view(*f),
    decreases f, 1nat,
{
    Fn { parameters: copy_names(&f.parameters), body: copy_block(&f.body) }
}

fn copy_call(c: &Call) -> (copy: Call)
    ensures
        call_view(copy) == call_view(*c),
{
    Call { path: c.path.clone(), arguments: copy_names(&c.arguments) }
}

fn copy_value(value: &Value) -> (copy: Value)
    ensures
        copy@ == value@,
    decreases value, 1nat,
{
    match value {
        Value::Name(name) => Value::Name(name.clone()),
        Value::Path(path) => Value::Path(path.clone()),
        Value::Fn(f) => Value::Fn(copy_fn(f)),
        Value::Call(c) => Value::Call(copy_call(c)),
    }
}

fn copy_then(t: &Then) -> (copy: Then)
    ensures
        then_view(copy) == then_view(*t),
    decreases t, 1nat,
{
    Then {
        body: copy_block(&t.body),
        else_sibling: match &t.else_sibling {
            None => None,
            Some(e) => Some(Else { body: copy_block(&e.body) }),
        },
    }
}

fn copy_while(w: &While) -> (copy: While)
    ensures
        while_view(copy) == while_view(*w),
    decreases w, 1nat,
{
    While {
        body: copy_block(&w.body),
        do_sibling: match &w.do_sibling {
            None => None,
            Some(d) => Some(Box::new(copy_do(d))),
        },
    }
}

fn copy_do(d: &Do) -> (copy: Do)
    ensures
        do_view(copy) == do_view(*d),
    decreases d, 1nat,
{
    Do {
        body: copy_block(&d.body),
        while_sibling: match &d.while_sibling {
            None => None,
            Some(w) => Some(Box::new(copy_while(w))),
        },
    }
}

fn copy_statement(stmt: &Statement) -> (copy: Statement)
    ensures
        copy@ == stmt@,
    decreases stmt, 1nat,
{
    match stmt {
        Statement::StatementMod(m) => Statement::StatementMod(Mod { path: m.path.clone() }),
        Statement::StatementExtern(e) => Statement::StatementExtern(
            Extern { path: e.path.clone() },
        ),
        Statement::StatementConst(c) => Statement::StatementConst(
            Const {
                name: c.name.clone(),
                constructor: c.constructor.clone(),
                argument: copy_text(&c.argument),
            },
        ),
        Statement::StatementStatic(s) => Statement::StatementStatic(Static { name: s.name.clone() }),
        Statement::StatementLocal(l) => Statement::StatementLocal(Local { name: l.name.clone() }),
        Statement::StatementAssignment(a) => Statement::StatementAssignment(
            Assignment {
                lvalue: a.lvalue.clone(),
                operator: a.operator,
                rvalue: copy_value(&a.rvalue),
            },
        ),
        Statement::StatementDefn(d) => Statement::StatementDefn(
            Defn {
                name: d.name.clone(),
                parameters: copy_names(&d.parameters),
                body: copy_block(&d.body),
            },
        ),
        Statement::StatementFn(f) => Statement::StatementFn(copy_fn(f)),
        Statement::StatementReturn(r) => Statement::StatementReturn(
            Return {
                value: match &r.value {
                    None => None,
                    Some(v) => Some(copy_value(v)),
                },
            },
        ),
        Statement::StatementCall(c) => Statement::StatementCall(copy_call(c)),
        Statement::StatementTest(t) => Statement::StatementTest(Test { name: t.name.clone() }),
        Statement::StatementIf(i) => Statement::StatementIf(
            If { condition: copy_block(&i.condition), then_sibling: copy_then(&i.then_sibling) },
        ),
        Statement::StatementThen(t) => Statement::StatementThen(copy_then(t)),
        Statement::StatementElse(e) => Statement::StatementElse(
            Else { body: copy_block(&e.body) },
        ),
        Statement::StatementWhile(w) => Statement::StatementWhile(copy_while(w)),
        Statement::StatementDo(d) => Statement::StatementDo(copy_do(d)),
        Statement::StatementBreak => Statement::StatementBreak,
    }
}

impl Clone for Statement {
    fn clone(&self) -> (copy: Self)
        ensures
            copy@ == self@,
    {
        copy_statement(self)
    }
}

impl Clone for Value {
    fn clone(&self) -> (copy: Self)
        ensures
            copy@ == self@,
    {
        copy_value(self)
    }
}

impl Clone for BasicBlock {
    fn clone(&self) -> (copy: Self)
        ensures
            copy@ == self@,
    {
        copy_block(self)
    }
}

impl Clone for Module {
    fn clone(&self) -> (copy: Self)
        ensures
            copy@ == self@,
    {
        Module { stmts: copy_statements(&self.stmts) }
    }
}

impl Clone for Mod {
    fn clone(&self) -> (copy: Self)
        ensures
            copy.path@ == self.path@,
    {
        Mod { path: self.path.clone() }
    }
}

impl Clone for Extern {
    fn clone(&self) -> (copy: Self)
        ensures
            copy.path@ == self.path@,
    {
        Extern { path: self.path.clone() }
    }
}

impl Clone for Const {
    fn clone(&self) -> (copy: Self)
        ensures
            copy.name@ == self.name@,
            copy.constructor@ == self.constructor@,
            text_view(copy.argument) == text_view(self.argument),
    {
        Const {
            name: self.name.clone(),
            constructor: self.constructor.clone(),
            argument: copy_text(&self.argument),
        }
    }
}

impl Clone for Static {
    fn clone(&self) -> (copy: Self)
        ensures
            copy.name@ == self.name@,
    {
        Static { name: self.name.clone() }
    }
}

impl Clone for Local {
    fn clone(&self) -> (copy: Self)
        ensures
            copy.name@ == self.name@,
    {
        Local { name: self.name.clone() }
    }
}

impl Clone for Assignment {
    fn clone(&self) -> (copy: Self)
        ensures
            copy.lvalue@ == self.lvalue@,
            copy.operator == self.operator,
            copy.rvalue@ == self.rvalue@,
    {
        Assignment {
            lvalue: self.lvalue.clone(),
            operator: self.operator,
            rvalue: copy_value(&self.rvalue),
        }
    }
}

impl Clone for Defn {
    fn clone(&self) -> (copy: Self)
        ensures
            copy.name@ == self.name@,
            copy.parameters.deep_view() == self.parameters.deep_view(),
            copy.body@ == self.body@,
    {
        Defn {
            name: self.name.clone(),
            parameters: copy_names(&self.parameters),
            body: copy_block(&self.body),
        }
    }
}

impl Clone for Fn {
    fn clone(&self) -> (copy: Self)
        ensures
            fn_view(copy) == fn_view(*self),
    {
        copy_fn(self)
    }
}

impl Clone for Return {
    fn clone(&self) -> (copy: Self)
        ensures
            Statement::StatementReturn(copy)@ == Statement::StatementReturn(*self)@,
    {
        Return {
            value: match &self.value {
                None => None,
                Some(v) => Some(copy_value(v)),
            },
        }
    }
}

impl Clone for Call {
    fn clone(&self) -> (copy: Self)
        ensures
            call_view(copy) == call_view(*self),
    {
        copy_call(self)
    }
}

impl Clone for Test {
    fn clone(&self) -> (copy: Self)
        ensures
            copy.name@ == self.name@,
    {
        Test { name: self.name.clone() }
    }
}

impl Clone for If {
    fn clone(&self) -> (copy: Self)
        ensures
            copy.condition@ == self.condition@,
            then_view(copy.then_sibling) == then_view(self.then_sibling),
    {
        If { condition: copy_block(&self.condition), then_sibling: copy_then(&self.then_sibling) }
    }
}

impl Clone for Then {
    fn clone(&self) -> (copy: Self)
        ensures
            then_view(copy) == then_view(*self),
    {
        copy_then(self)
    }
}

impl Clone for Else {
    fn clone(&self) -> (copy: Self)
        ensures
            copy.body@ == self.body@,
    {
        Else { body: copy_block(&self.body) }
    }
}

impl Clone for While {
    fn clone(&self) -> (copy: Self)
        ensures
            while_view(copy) == while_view(*self),
    {
        copy_while(self)
    }
}

impl Clone for Do {
    fn clone(&self) -> (copy: Self)
        ensures
            do_view(copy) == do_view(*self),
    {
        copy_do(self)
    }
}


impl View for Mod {
    type V = StatementView;

    /// The statement that the `mod` makes.
    open spec fn view(&self) -> StatementView {
        StatementView::Mod { path: self.path@ }
    }
}

impl View for Extern {
    type V = StatementView;

    /// The statement that the `extern` makes.
    open spec fn view(&self) -> StatementView {
        StatementView::Extern { path: self.path@ }
    }
}

impl View for Const {
    type V = StatementView;

    /// The statement that the `const` makes.
    open spec fn view(&self) -> StatementView {
        StatementView::Const {
            name: self.name@,
            constructor: self.constructor@,
            argument: text_view(self.argument),
        }
    }
}

impl View for Static {
    type V = StatementView;

    /// The statement that the `static` makes.
    open spec fn view(&self) -> StatementView {
        StatementView::Static { name: self.name@ }
    }
}

impl View for Local {
    type V = StatementView;

    /// The statement that the `local` makes.
    open spec fn view(&self) -> StatementView {
        StatementView::Local { name: self.name@ }
    }
}

impl View for Assignment {
    type V = StatementView;

    /// The statement that the assignment makes.
    open spec fn view(&self) -> StatementView {
        StatementView::Assignment {
            lvalue: self.lvalue@,
            operator: self.operator,
            rvalue: value_view(self.rvalue),
        }
    }
}

impl View for Defn {
    type V = StatementView;

    /// The statement that the named function makes.
    open spec fn view(&self) -> StatementView {
        StatementView::Defn {
            name: self.name@,
            parameters: self.parameters.deep_view(),
            body: block_view(self.body),
        }
    }
}

impl View for Return {
    type V = StatementView;

    /// The statement that the `return` makes.
    open spec fn view(&self) -> StatementView {
        StatementView::Return {
            value: match self.value {
                None => None,
                Some(v) => Some(value_view(v)),
            },
        }
    }
}

impl View for Fn {
    type V = FnView;

    open spec fn view(&self) -> FnView {
        fn_view(*self)
    }
}

impl View for Call {
    type V = CallView;

    open spec fn view(&self) -> CallView {
        call_view(*self)
    }
}

} // verus!
