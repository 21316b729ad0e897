use super::model::{
    assemble, collect_locals, compile_module, position_of, slot_of, function_addresses,
    functions_encoding, functions_op_addresses, functions_size, lower_arguments, lower_block,
    lower_call, lower_function_body, lower_statement, lower_value, named_functions,
    op_addresses, ops_encoding, ops_size, promote_entry, resolvable, resolve, sites_apart,
    CompileErrorView, CompiledTargetView, FunctionView, ModuleView, Op, RelocationView,
    TargetView,
};
use crate::assembly::view::{CallView, StatementView, ValueView};
use crate::vm::bytecode::ops::{lemma_decoding_of_encoding, lemma_encoding_len, BOp};
use vstd::prelude::*;

verus! {

/// Whether `op` is the shared op with the id `id`.
pub open spec fn is_shared(op: Op, id: usize) -> bool {
    op matches Op::Shared(shared) && shared.id == id
}

/// Whether a shared op with the id `id` is among the ops.
pub open spec fn mentions(ops: Seq<Op>, id: usize) -> bool {
    exists|j: int| 0 <= j < ops.len() && is_shared(#[trigger] ops[j], id)
}

/// Whether each shared op among the ops is the op that the list of the
/// shared ops has under its id.
pub open spec fn consistent(ops: Seq<Op>, shared: Seq<BOp>) -> bool {
    forall|j: int|
        0 <= j < ops.len() ==> (#[trigger] ops[j] matches Op::Shared(s) ==> s.id < shared.len()
            && shared[s.id as int] == s.op)
}

/// Whether a shared op with the id `id` is among the ops or in one of the
/// functions from the number `from` on.
pub open spec fn placed(id: usize, ops: Seq<Op>, functions: Seq<FunctionView>, from: int) -> bool {
    mentions(ops, id) || exists|k: int|
        0 <= k && from <= k < functions.len() && mentions(#[trigger] functions[k].ops, id)
}

/// Whether a relocation points at ops that have been emitted: its site is a
/// shared op with an address field, and site and target are among the ops or
/// in a function.
pub open spec fn sited(r: RelocationView, ops: Seq<Op>, after: ModuleView, from: int) -> bool {
    &&& r.site.id < after.shared.len()
    &&& after.shared[r.site.id as int] == r.site.op
    &&& r.site.op.addr_fields() > 0
    &&& placed(r.site.id, ops, after.functions, from)
    &&& match r.target {
        TargetView::InternalBranchAddress(t) => placed(t.id, ops, after.functions, from),
        TargetView::InternalFunctionAddress(k) => 0 <= k < after.functions.len(),
        _ => true,
    }
}

/// Whether the new relocations have sites of their own: shared ops that
/// were not there before, a later relocation at a later one.
pub open spec fn sites_ordered(m: ModuleView, after: ModuleView) -> bool {
    &&& forall|i: int|
        m.relocations.len() <= i < after.relocations.len() ==> m.shared.len() <= (
        #[trigger] after.relocations[i]).site.id
    &&& forall|i: int, j: int|
        m.relocations.len() <= i < j < after.relocations.len() ==> (
        #[trigger] after.relocations[i]).site.id < (#[trigger] after.relocations[j]).site.id
}

/// Whether compiling a node has left the module in order: what was there
/// stays, the new shared ops are known by their ids, and each new relocation
/// has a site of its own and points at ops that are among `ops` or in a new
/// function.
pub open spec fn sound_step(m: ModuleView, ops: Seq<Op>, after: ModuleView) -> bool {
    &&& sites_ordered(m, after)
    &&& m.relocations.is_prefix_of(after.relocations)
    &&& m.functions.is_prefix_of(after.functions)
    &&& m.shared.is_prefix_of(after.shared)
    &&& consistent(ops, after.shared)
    &&& forall|k: int|
        m.functions.len() <= k < after.functions.len() ==> consistent(
            (#[trigger] after.functions[k]).ops,
            after.shared,
        )
    &&& forall|i: int|
        m.relocations.len() <= i < after.relocations.len() ==> sited(
            #[trigger] after.relocations[i],
            ops,
            after,
            m.functions.len() as int,
        )
}

proof fn lemma_mentions_concat(a: Seq<Op>, b: Seq<Op>, id: usize)
    ensures
        mentions(a + b, id) <==> mentions(a, id) || mentions(b, id),
{
    if mentions(a, id) {
        let j = choose|j: int| 0 <= j < a.len() && is_shared(#[trigger] a[j], id);
        assert((a + b)[j] == a[j]);
    }
    if mentions(b, id) {
        let j = choose|j: int| 0 <= j < b.len() && is_shared(#[trigger] b[j], id);
        assert((a + b)[a.len() + j] == b[j]);
    }
    if mentions(a + b, id) {
        let j = choose|j: int| 0 <= j < (a + b).len() && is_shared(#[trigger] (a + b)[j], id);
        if j < a.len() {
            assert(a[j] == (a + b)[j]);
        } else {
            assert(b[j - a.len()] == (a + b)[j]);
        }
    }
}

proof fn lemma_placed_more(
    id: usize,
    ops: Seq<Op>,
    functions: Seq<FunctionView>,
    from: int,
    ops2: Seq<Op>,
    functions2: Seq<FunctionView>,
    from2: int,
)
    requires
        placed(id, ops, functions, from),
        functions.is_prefix_of(functions2),
        from2 <= from,
        mentions(ops, id) ==> mentions(ops2, id),
    ensures
        placed(id, ops2, functions2, from2),
{
    if !mentions(ops, id) {
        let k = choose|k: int|
            0 <= k && from <= k < functions.len() && mentions(#[trigger] functions[k].ops, id);
        assert(functions2[k] == functions[k]);
    }
}

proof fn lemma_consistent_more(ops: Seq<Op>, shared: Seq<BOp>, shared2: Seq<BOp>)
    requires
        consistent(ops, shared),
        shared.is_prefix_of(shared2),
    ensures
        consistent(ops, shared2),
{
    assert forall|j: int| 0 <= j < ops.len() implies (#[trigger] ops[j] matches Op::Shared(s)
        ==> s.id < shared2.len() && shared2[s.id as int] == s.op) by {
        if let Op::Shared(s) = ops[j] {
            assert(shared2[s.id as int] == shared[s.id as int]);
        }
    }
}

proof fn lemma_consistent_concat(a: Seq<Op>, b: Seq<Op>, shared: Seq<BOp>)
    requires
        consistent(a, shared),
        consistent(b, shared),
    ensures
        consistent(a + b, shared),
{
    assert forall|j: int| 0 <= j < (a + b).len() implies (#[trigger] (a + b)[j] matches Op::Shared(
        s,
    ) ==> s.id < shared.len() && shared[s.id as int] == s.op) by {
        if j < a.len() {
            assert((a + b)[j] == a[j]);
        } else {
            assert((a + b)[j] == b[j - a.len()]);
        }
    }
}

/// A relocation that points at emitted ops still does when there are more
/// ops, functions and shared ops.
proof fn lemma_sited_more(
    r: RelocationView,
    ops: Seq<Op>,
    after: ModuleView,
    from: int,
    ops2: Seq<Op>,
    after2: ModuleView,
    from2: int,
)
    requires
        sited(r, ops, after, from),
        after.functions.is_prefix_of(after2.functions),
        after.shared.is_prefix_of(after2.shared),
        from2 <= from,
        forall|id: usize| mentions(ops, id) ==> mentions(ops2, id),
    ensures
        sited(r, ops2, after2, from2),
{
    assert(after2.shared[r.site.id as int] == after.shared[r.site.id as int]);
    lemma_placed_more(r.site.id, ops, after.functions, from, ops2, after2.functions, from2);
    match r.target {
        TargetView::InternalBranchAddress(t) => {
            lemma_placed_more(t.id, ops, after.functions, from, ops2, after2.functions, from2);
        },
        _ => {},
    }
}

/// Two steps in a row leave the module in order, with the ops of both.
pub proof fn lemma_sound_chain(
    m: ModuleView,
    ops1: Seq<Op>,
    m1: ModuleView,
    ops2: Seq<Op>,
    m2: ModuleView,
)
    requires
        sound_step(m, ops1, m1),
        sound_step(m1, ops2, m2),
    ensures
        sound_step(m, ops1 + ops2, m2),
{
    let ops = ops1 + ops2;
    lemma_consistent_more(ops1, m1.shared, m2.shared);
    lemma_consistent_concat(ops1, ops2, m2.shared);
    assert(sites_ordered(m, m2)) by {
        assert forall|i: int| m.relocations.len() <= i < m2.relocations.len() implies m.shared.len()
            <= (#[trigger] m2.relocations[i]).site.id by {
            if i < m1.relocations.len() {
                assert(m2.relocations[i] == m1.relocations[i]);
            }
        }
        assert forall|i: int, j: int|
            m.relocations.len() <= i < j < m2.relocations.len() implies (
        #[trigger] m2.relocations[i]).site.id < (#[trigger] m2.relocations[j]).site.id by {
            if i < m1.relocations.len() {
                assert(m2.relocations[i] == m1.relocations[i]);
                assert(sited(m1.relocations[i], ops1, m1, m.functions.len() as int));
            }
            if j < m1.relocations.len() {
                assert(m2.relocations[j] == m1.relocations[j]);
            }
        }
    }
    assert forall|id: usize| mentions(ops1, id) implies mentions(ops, id) by {
        lemma_mentions_concat(ops1, ops2, id);
    }
    assert forall|id: usize| mentions(ops2, id) implies mentions(ops, id) by {
        lemma_mentions_concat(ops1, ops2, id);
    }
    assert forall|k: int| m.functions.len() <= k < m2.functions.len() implies consistent(
        (#[trigger] m2.functions[k]).ops,
        m2.shared,
    ) by {
        if k < m1.functions.len() {
            assert(m2.functions[k] == m1.functions[k]);
            lemma_consistent_more(m1.functions[k].ops, m1.shared, m2.shared);
        }
    }
    assert forall|i: int| m.relocations.len() <= i < m2.relocations.len() implies sited(
        #[trigger] m2.relocations[i],
        ops,
        m2,
        m.functions.len() as int,
    ) by {
        if i < m1.relocations.len() {
            assert(m2.relocations[i] == m1.relocations[i]);
            lemma_sited_more(
                m1.relocations[i],
                ops1,
                m1,
                m.functions.len() as int,
                ops,
                m2,
                m.functions.len() as int,
            );
        } else {
            lemma_sited_more(
                m2.relocations[i],
                ops2,
                m2,
                m1.functions.len() as int,
                ops,
                m2,
                m.functions.len() as int,
            );
        }
    }
}

/// A step stays in order when its ops are replaced by ops that hold the same
/// shared ops and more.
pub proof fn lemma_sound_ops(m: ModuleView, ops: Seq<Op>, after: ModuleView, ops2: Seq<Op>)
    requires
        sound_step(m, ops, after),
        consistent(ops2, after.shared),
        forall|id: usize| mentions(ops, id) ==> mentions(ops2, id),
    ensures
        sound_step(m, ops2, after),
{
    assert forall|i: int| m.relocations.len() <= i < after.relocations.len() implies sited(
        #[trigger] after.relocations[i],
        ops2,
        after,
        m.functions.len() as int,
    ) by {
        lemma_sited_more(
            after.relocations[i],
            ops,
            after,
            m.functions.len() as int,
            ops2,
            after,
            m.functions.len() as int,
        );
    }
}

/// A step stays in order when one more op without an identity follows.
pub proof fn lemma_sound_push_owned(m: ModuleView, ops: Seq<Op>, after: ModuleView, op: BOp)
    requires
        sound_step(m, ops, after),
    ensures
        sound_step(m, ops.push(Op::Owned(op)), after),
        sound_step(m, seq![Op::Owned(op)] + ops, after),
{
    let one = seq![Op::Owned(op)];
    assert(consistent(one, after.shared));
    lemma_consistent_concat(ops, one, after.shared);
    lemma_consistent_concat(one, ops, after.shared);
    assert(ops.push(Op::Owned(op)) =~= ops + one);
    assert forall|id: usize| mentions(ops, id) implies mentions(ops + one, id) && mentions(
        one + ops,
        id,
    ) by {
        lemma_mentions_concat(ops, one, id);
        lemma_mentions_concat(one, ops, id);
    }
    lemma_sound_ops(m, ops, after, ops + one);
    lemma_sound_ops(m, ops, after, one + ops);
}

/// The ops of a step made a function of the module leave it in order, with
/// no ops left over.
pub proof fn lemma_sound_define(
    m: ModuleView,
    ops: Seq<Op>,
    after: ModuleView,
    name: Option<Seq<char>>,
)
    requires
        sound_step(m, ops, after),
    ensures
        sound_step(m, Seq::empty(), after.define(FunctionView { name: name, ops: ops })),
{
    let function = FunctionView { name: name, ops: ops };
    let defined = after.define(function);
    let number = after.functions.len() as int;
    assert(defined.functions[number] == function);
    assert(defined.relocations == after.relocations);
    assert forall|k: int| m.functions.len() <= k < defined.functions.len() implies consistent(
        (#[trigger] defined.functions[k]).ops,
        defined.shared,
    ) by {
        if k < number {
            assert(defined.functions[k] == after.functions[k]);
        }
    }
    assert forall|i: int| m.relocations.len() <= i < defined.relocations.len() implies sited(
        #[trigger] defined.relocations[i],
        Seq::empty(),
        defined,
        m.functions.len() as int,
    ) by {
        let r = defined.relocations[i];
        assert(sited(r, ops, after, m.functions.len() as int));
        lemma_placed_in_function(r.site.id, ops, after.functions, m.functions.len() as int, function);
        match r.target {
            TargetView::InternalBranchAddress(t) => {
                lemma_placed_in_function(
                    t.id,
                    ops,
                    after.functions,
                    m.functions.len() as int,
                    function,
                );
            },
            _ => {},
        }
    }
}

proof fn lemma_placed_in_function(
    id: usize,
    ops: Seq<Op>,
    functions: Seq<FunctionView>,
    from: int,
    function: FunctionView,
)
    requires
        placed(id, ops, functions, from),
        function.ops == ops,
        from <= functions.len(),
    ensures
        placed(id, Seq::empty(), functions.push(function), from),
{
    let longer = functions.push(function);
    if mentions(ops, id) {
        assert(longer[functions.len() as int] == function);
    } else {
        let k = choose|k: int|
            0 <= k && from <= k < functions.len() && mentions(#[trigger] functions[k].ops, id);
        assert(longer[k] == functions[k]);
    }
}

/// A step stays in order when ops, shared ops and relocations are added
/// to it, the new relocations pointing at emitted ops.
pub proof fn lemma_sound_extend(
    m: ModuleView,
    ops: Seq<Op>,
    after: ModuleView,
    ops2: Seq<Op>,
    after2: ModuleView,
)
    requires
        sound_step(m, ops, after),
        after2.functions == after.functions,
        after.shared.is_prefix_of(after2.shared),
        after.relocations.is_prefix_of(after2.relocations),
        consistent(ops2, after2.shared),
        forall|id: usize| mentions(ops, id) ==> mentions(ops2, id),
        forall|i: int|
            after.relocations.len() <= i < after2.relocations.len() ==> sited(
                #[trigger] after2.relocations[i],
                ops2,
                after2,
                m.functions.len() as int,
            ),
        sites_ordered(after, after2),
    ensures
        sound_step(m, ops2, after2),
{
    let from = m.functions.len() as int;
    assert(sites_ordered(m, after2)) by {
        assert forall|i: int|
            m.relocations.len() <= i < after2.relocations.len() implies m.shared.len() <= (
        #[trigger] after2.relocations[i]).site.id by {
            if i < after.relocations.len() {
                assert(after2.relocations[i] == after.relocations[i]);
            }
        }
        assert forall|i: int, j: int|
            m.relocations.len() <= i < j < after2.relocations.len() implies (
        #[trigger] after2.relocations[i]).site.id < (#[trigger] after2.relocations[j]).site.id by {
            if i < after.relocations.len() {
                assert(after2.relocations[i] == after.relocations[i]);
                assert(sited(after.relocations[i], ops, after, from));
            }
            if j < after.relocations.len() {
                assert(after2.relocations[j] == after.relocations[j]);
            }
        }
    }
    assert forall|k: int| m.functions.len() <= k < after2.functions.len() implies consistent(
        (#[trigger] after2.functions[k]).ops,
        after2.shared,
    ) by {
        lemma_consistent_more(after.functions[k].ops, after.shared, after2.shared);
    }
    assert forall|i: int| m.relocations.len() <= i < after2.relocations.len() implies sited(
        #[trigger] after2.relocations[i],
        ops2,
        after2,
        from,
    ) by {
        if i < after.relocations.len() {
            assert(after2.relocations[i] == after.relocations[i]);
            lemma_sited_more(after.relocations[i], ops, after, from, ops2, after2, from);
        }
    }
}

/// The ops that push arguments have no identity.
proof fn lemma_lower_arguments_owned(arguments: Seq<Seq<char>>, locals: Option<Seq<Seq<char>>>)
    ensures
        lower_arguments(arguments, locals) matches Ok(ops) ==> forall|j: int|
            0 <= j < ops.len() ==> #[trigger] ops[j] is Owned,
    decreases arguments.len(),
{
    if arguments.len() > 0 {
        lemma_lower_arguments_owned(arguments.drop_last(), locals);
    }
}

/// A call leaves the module in order.
proof fn lemma_lower_call_sound(call: CallView, locals: Option<Seq<Seq<char>>>, m: ModuleView)
    ensures
        lower_call(call, locals, m) matches Ok((ops, after)) ==> m.shared.len()
            <= after.shared.len() && (after.shared.len() <= usize::MAX ==> sound_step(
            m,
            ops,
            after,
        )),
{
    if let Ok((ops, after)) = lower_call(call, locals, m) {
        if after.shared.len() <= usize::MAX {
            lemma_lower_arguments_owned(call.arguments, locals);
            let pushes = lower_arguments(call.arguments, locals)->Ok_0;
            assert(is_shared(ops[pushes.len() as int], m.shared.len() as usize));
            assert forall|id: usize| mentions(Seq::<Op>::empty(), id) implies mentions(ops, id) by {
            }
            lemma_sound_extend(m, Seq::empty(), m, ops, after);
        }
    }
}

/// Making the first op a shared one leaves the module in order.
proof fn lemma_promote_sound(m: ModuleView, ops: Seq<Op>, after: ModuleView)
    requires
        sound_step(m, ops, after),
        promote_entry(ops, after).1.shared.len() <= usize::MAX,
    ensures
        sound_step(m, promote_entry(ops, after).0, promote_entry(ops, after).1),
{
    let (ops2, after2) = promote_entry(ops, after);
    if ops.len() > 0 && ops[0] is Owned {
        lemma_consistent_more(ops, after.shared, after2.shared);
        assert forall|id: usize| mentions(ops, id) implies mentions(ops2, id) by {
            let j = choose|j: int| 0 <= j < ops.len() && is_shared(#[trigger] ops[j], id);
            assert(ops2[j] == ops[j]);
        }
        assert forall|j: int| 0 <= j < ops2.len() implies (#[trigger] ops2[j] matches Op::Shared(
            s,
        ) ==> s.id < after2.shared.len() && after2.shared[s.id as int] == s.op) by {
            if j > 0 {
                assert(ops2[j] == ops[j]);
            }
        }
        lemma_sound_extend(m, ops, after, ops2, after2);
    }
}

/// A value leaves the module in order.
pub proof fn lemma_lower_value_sound(
    value: ValueView,
    locals: Option<Seq<Seq<char>>>,
    m: ModuleView,
)
    ensures
        lower_value(value, locals, m) matches Ok((ops, after)) ==> m.shared.len()
            <= after.shared.len() && (after.shared.len() <= usize::MAX ==> sound_step(
            m,
            ops,
            after,
        )),
    decreases value, 0nat,
{
    if let Ok((ops, after)) = lower_value(value, locals, m) {
        match value {
            ValueView::Name(name) => {},
            ValueView::Path(path) => {
                if after.shared.len() <= usize::MAX {
                    assert(is_shared(ops[0], m.shared.len() as usize));
                    lemma_sound_extend(m, Seq::empty(), m, ops, after);
                }
            },
            ValueView::Fn(f) => {
                lemma_lower_function_body_sound(f.body, m);
                if after.shared.len() <= usize::MAX {
                    let (body, m1) = lower_function_body(f.body, m)->Ok_0;
                    let m2 = m1.define(FunctionView { name: None, ops: body });
                    lemma_sound_define(m, body, m1, None);
                    assert(is_shared(ops[0], m2.shared.len() as usize));
                    lemma_sound_extend(m, Seq::empty(), m2, ops, after);
                }
            },
            ValueView::Call(call) => {
                lemma_lower_call_sound(call, locals, m);
            },
        }
    }
}

/// The body of a function leaves the module in order.
pub proof fn lemma_lower_function_body_sound(body: Seq<StatementView>, m: ModuleView)
    ensures
        lower_function_body(body, m) matches Ok((ops, after)) ==> m.shared.len()
            <= after.shared.len() && (after.shared.len() <= usize::MAX ==> sound_step(
            m,
            ops,
            after,
        )),
    decreases body, 1nat,
{
    if let Ok((ops, after)) = lower_function_body(body, m) {
        let names = collect_locals(body)->Ok_0;
        lemma_lower_block_sound(body, Some(names), m);
        if after.shared.len() <= usize::MAX {
            let (inner, m1) = lower_block(body, Some(names), m)->Ok_0;
            lemma_sound_push_owned(
                m,
                inner,
                m1,
                BOp::FnEntry(
                    crate::vm::bytecode::ops::BFnEntry { num_locals: names.len() as u16 },
                ),
            );
        }
    }
}

/// A block leaves the module in order.
pub proof fn lemma_lower_block_sound(
    stmts: Seq<StatementView>,
    locals: Option<Seq<Seq<char>>>,
    m: ModuleView,
)
    ensures
        lower_block(stmts, locals, m) matches Ok((ops, after)) ==> m.shared.len()
            <= after.shared.len() && (after.shared.len() <= usize::MAX ==> sound_step(
            m,
            ops,
            after,
        )),
    decreases stmts, 0nat,
{
    if let Ok((ops, after)) = lower_block(stmts, locals, m) {
        if stmts.len() > 0 {
            lemma_lower_block_sound(stmts.drop_last(), locals, m);
            let (first, m1) = lower_block(stmts.drop_last(), locals, m)->Ok_0;
            lemma_lower_statement_sound(stmts.last(), locals, m1);
            if after.shared.len() <= usize::MAX {
                let (more, m2) = lower_statement(stmts.last(), locals, m1)->Ok_0;
                lemma_sound_chain(m, first, m1, more, m2);
            }
        }
    }
}

/// A statement leaves the module in order.
pub proof fn lemma_lower_statement_sound(
    stmt: StatementView,
    locals: Option<Seq<Seq<char>>>,
    m: ModuleView,
)
    ensures
        lower_statement(stmt, locals, m) matches Ok((ops, after)) ==> m.shared.len()
            <= after.shared.len() && (after.shared.len() <= usize::MAX ==> sound_step(
            m,
            ops,
            after,
        )),
    decreases stmt, 0nat,
{
    if let Ok((ops, after)) = lower_statement(stmt, locals, m) {
        match stmt {
            StatementView::Assignment { lvalue, operator, rvalue } => {
                lemma_lower_value_sound(rvalue, locals, m);
                if after.shared.len() <= usize::MAX {
                    let (inner, m1) = lower_value(rvalue, locals, m)->Ok_0;
                    lemma_sound_push_owned(m, inner, m1, ops.last().bop());
                }
            },
            StatementView::Defn { name, parameters, body } => {
                lemma_lower_function_body_sound(body, m);
                if after.shared.len() <= usize::MAX {
                    let (inner, m1) = lower_function_body(body, m)->Ok_0;
                    lemma_sound_define(m, inner, m1, Some(name));
                }
            },
            StatementView::Call(call) => {
                lemma_lower_call_sound(call, locals, m);
                if after.shared.len() <= usize::MAX {
                    let (inner, m1) = lower_call(call, locals, m)->Ok_0;
                    lemma_sound_push_owned(m, inner, m1, BOp::Pop);
                }
            },
            StatementView::If { condition, then_sibling } => {
                lemma_lower_block_sound(condition, locals, m);
                let (tested, m1) = lower_block(condition, locals, m)->Ok_0;
                let (entry, m2) = promote_entry(tested, m1);
                lemma_lower_block_sound(then_sibling.body, locals, m2);
                let (body, m3) = lower_block(then_sibling.body, locals, m2)->Ok_0;
                if after.shared.len() <= usize::MAX {
                    lemma_promote_sound(m, tested, m1);
                    lemma_sound_chain(m, entry, m2, body, m3);
                    let both = entry + body;
                    let at = entry.len() as int;
                    assert(is_shared(ops[at], m3.shared.len() as usize));
                    assert(is_shared(ops[ops.len() - 1], (m3.shared.len() + 1) as usize));
                    assert forall|id: usize| mentions(both, id) implies mentions(ops, id) by {
                        let j = choose|j: int| 0 <= j < both.len() && is_shared(#[trigger] both[j], id);
                        if j < at {
                            assert(ops[j] == both[j]);
                        } else {
                            assert(ops[j + 1] == both[j]);
                        }
                    }
                    lemma_consistent_more(both, m3.shared, after.shared);
                    assert forall|j: int| 0 <= j < ops.len() implies (#[trigger] ops[j] matches Op::Shared(
                        s,
                    ) ==> s.id < after.shared.len() && after.shared[s.id as int] == s.op) by {
                        if j < at {
                            assert(ops[j] == both[j]);
                        } else if at < j < ops.len() - 1 {
                            assert(ops[j] == both[j - 1]);
                        }
                    }
                    lemma_sound_extend(m, both, m3, ops, after);
                }
            },
            _ => {},
        }
    }
}

/// The encoded ops are as long as the sizes of the ops together.
pub proof fn lemma_ops_size(ops: Seq<Op>)
    ensures
        ops_size(ops) >= 0,
        ops_encoding(ops).len() == ops_size(ops),
    decreases ops.len(),
{
    if ops.len() > 0 {
        lemma_ops_size(ops.drop_last());
        lemma_encoding_len(ops.last().bop());
    }
}

/// The encoded functions are as long as the sizes of their ops together.
pub proof fn lemma_functions_size(functions: Seq<FunctionView>)
    ensures
        functions_size(functions) >= 0,
        functions_encoding(functions).len() == functions_size(functions),
    decreases functions.len(),
{
    if functions.len() > 0 {
        lemma_functions_size(functions.drop_last());
        lemma_ops_size(functions.last().ops);
    }
}

/// The first functions take no more bytes than all of them.
pub proof fn lemma_functions_size_take(functions: Seq<FunctionView>, k: int)
    requires
        0 <= k <= functions.len(),
    ensures
        0 <= functions_size(functions.take(k)) <= functions_size(functions),
    decreases functions.len() - k,
{
    lemma_functions_size(functions.take(k));
    if k < functions.len() {
        lemma_functions_size_take(functions, k + 1);
        assert(functions.take(k + 1).drop_last() =~= functions.take(k));
        lemma_ops_size(functions[k].ops);
    } else {
        assert(functions.take(k) =~= functions);
    }
}

/// Whether `code` holds the encoded ops from `base` on.
pub open spec fn holds_ops(code: Seq<u8>, base: int, ops: Seq<Op>) -> bool {
    &&& 0 <= base
    &&& base + ops_size(ops) <= code.len()
    &&& code.subrange(base, base + ops_size(ops)) == ops_encoding(ops)
}

/// Whether `code` holds the encoded functions from `base` on.
pub open spec fn holds_functions(code: Seq<u8>, base: int, functions: Seq<FunctionView>) -> bool {
    &&& 0 <= base
    &&& base + functions_size(functions) <= code.len()
    &&& code.subrange(base, base + functions_size(functions)) == functions_encoding(functions)
}

/// Whether each address in the map is that of the encoded op that the list
/// of the shared ops has under the id.
pub open spec fn addresses_sound(map: Map<usize, u64>, code: Seq<u8>, shared: Seq<BOp>) -> bool {
    forall|id: usize| #[trigger]
        map.contains_key(id) ==> id < shared.len() && map[id] + shared[id as int].spec_size()
            <= code.len() && code.subrange(
            map[id] as int,
            map[id] + shared[id as int].spec_size(),
        ) == shared[id as int].encoding()
}

/// The addresses of the shared ops among `ops` are those of their encodings
/// in the code, and each of them has an address.
pub proof fn lemma_op_addresses_sound(
    ops: Seq<Op>,
    base: int,
    known: Map<usize, u64>,
    code: Seq<u8>,
    shared: Seq<BOp>,
)
    requires
        addresses_sound(known, code, shared),
        consistent(ops, shared),
        holds_ops(code, base, ops),
        code.len() <= u64::MAX,
    ensures
        addresses_sound(op_addresses(ops, base, known), code, shared),
        forall|id: usize| #[trigger]
            known.contains_key(id) ==> op_addresses(ops, base, known).contains_key(id),
        forall|id: usize| #[trigger]
            mentions(ops, id) ==> op_addresses(ops, base, known).contains_key(id),
    decreases ops.len(),
{
    let result = op_addresses(ops, base, known);
    if ops.len() > 0 {
        let front = ops.drop_last();
        let last = ops.last();
        lemma_ops_size(front);
        lemma_ops_size(ops);
        lemma_encoding_len(last.bop());
        let at = base + ops_size(front);
        assert(code.subrange(base, at) =~= ops_encoding(front)) by {
            assert(ops_encoding(ops) == ops_encoding(front) + last.bop().encoding());
            assert(code.subrange(base, at) =~= code.subrange(base, base + ops_size(ops)).take(
                ops_size(front),
            ));
        }
        assert(code.subrange(at, at + last.bop().spec_size()) =~= last.bop().encoding()) by {
            assert(code.subrange(at, at + last.bop().spec_size()) =~= code.subrange(
                base,
                base + ops_size(ops),
            ).skip(ops_size(front)));
        }
        assert(consistent(front, shared)) by {
            assert forall|j: int| 0 <= j < front.len() implies (#[trigger] front[j] matches Op::Shared(
                s,
            ) ==> s.id < shared.len() && shared[s.id as int] == s.op) by {
                assert(front[j] == ops[j]);
            }
        }
        lemma_op_addresses_sound(front, base, known, code, shared);
        let before = op_addresses(front, base, known);
        assert(ops[ops.len() - 1] == last);
        assert forall|id: usize| #[trigger] mentions(ops, id) implies result.contains_key(id) by {
            let j = choose|j: int| 0 <= j < ops.len() && is_shared(#[trigger] ops[j], id);
            if j < front.len() {
                assert(front[j] == ops[j]);
                assert(mentions(front, id));
                assert(before.contains_key(id));
            }
        }
    }
}

/// Whether the ops of each function are consistent with the list of the
/// shared ops.
pub open spec fn functions_consistent(functions: Seq<FunctionView>, shared: Seq<BOp>) -> bool {
    forall|k: int| 0 <= k < functions.len() ==> consistent((#[trigger] functions[k]).ops, shared)
}

/// The addresses of the shared ops of the functions are those of their
/// encodings in the code, and each of them has an address.
pub proof fn lemma_functions_op_addresses_sound(
    functions: Seq<FunctionView>,
    base: int,
    known: Map<usize, u64>,
    code: Seq<u8>,
    shared: Seq<BOp>,
)
    requires
        addresses_sound(known, code, shared),
        functions_consistent(functions, shared),
        holds_functions(code, base, functions),
        code.len() <= u64::MAX,
    ensures
        addresses_sound(functions_op_addresses(functions, base, known), code, shared),
        forall|id: usize| #[trigger]
            known.contains_key(id) ==> functions_op_addresses(functions, base, known).contains_key(
                id,
            ),
        forall|id: usize, k: int|
            0 <= k < functions.len() && mentions(#[trigger] functions[k].ops, id)
                ==> #[trigger] functions_op_addresses(functions, base, known).contains_key(id),
    decreases functions.len(),
{
    let result = functions_op_addresses(functions, base, known);
    if functions.len() > 0 {
        let front = functions.drop_last();
        let last = functions.last();
        lemma_functions_size(front);
        lemma_functions_size(functions);
        lemma_ops_size(last.ops);
        let at = base + functions_size(front);
        assert(code.subrange(base, at) =~= functions_encoding(front)) by {
            assert(code.subrange(base, at) =~= code.subrange(
                base,
                base + functions_size(functions),
            ).take(functions_size(front)));
        }
        assert(code.subrange(at, at + ops_size(last.ops)) =~= ops_encoding(last.ops)) by {
            assert(code.subrange(at, at + ops_size(last.ops)) =~= code.subrange(
                base,
                base + functions_size(functions),
            ).skip(functions_size(front)));
        }
        assert(functions_consistent(front, shared)) by {
            assert forall|k: int| 0 <= k < front.len() implies consistent(
                (#[trigger] front[k]).ops,
                shared,
            ) by {
                assert(front[k] == functions[k]);
            }
        }
        assert(functions[functions.len() - 1] == last);
        lemma_functions_op_addresses_sound(front, base, known, code, shared);
        let before = functions_op_addresses(front, base, known);
        lemma_op_addresses_sound(last.ops, at, before, code, shared);
        assert forall|id: usize, k: int|
            0 <= k < functions.len() && mentions(
                #[trigger] functions[k].ops,
                id,
            ) implies #[trigger] result.contains_key(id) by {
            if k < front.len() {
                assert(front[k] == functions[k]);
                assert(before.contains_key(id));
            }
        }
    }
}

/// Whether the ops at the addresses in the map lie before `limit`, and no
/// two of them overlap.
pub open spec fn addresses_apart(map: Map<usize, u64>, shared: Seq<BOp>, limit: int) -> bool {
    &&& forall|id: usize| #[trigger]
        map.contains_key(id) ==> id < shared.len() && map[id] + shared[id as int].spec_size()
            <= limit
    &&& forall|a: usize, b: usize|
        #[trigger] map.contains_key(a) && #[trigger] map.contains_key(b) && a != b ==> map[a]
            + shared[a as int].spec_size() <= map[b] || map[b] + shared[b as int].spec_size()
            <= map[a]
}

/// The shared ops among `ops` get addresses at which no two of them
/// overlap, nor any of them one that had its address before.
pub proof fn lemma_op_addresses_apart(
    ops: Seq<Op>,
    base: int,
    known: Map<usize, u64>,
    shared: Seq<BOp>,
)
    requires
        addresses_apart(known, shared, base),
        consistent(ops, shared),
        0 <= base,
        base + ops_size(ops) <= u64::MAX,
    ensures
        addresses_apart(op_addresses(ops, base, known), shared, base + ops_size(ops)),
    decreases ops.len(),
{
    if ops.len() > 0 {
        let front = ops.drop_last();
        let last = ops.last();
        lemma_ops_size(front);
        lemma_encoding_len(last.bop());
        assert(consistent(front, shared)) by {
            assert forall|j: int| 0 <= j < front.len() implies (#[trigger] front[j] matches Op::Shared(
                s,
            ) ==> s.id < shared.len() && shared[s.id as int] == s.op) by {
                assert(front[j] == ops[j]);
            }
        }
        lemma_op_addresses_apart(front, base, known, shared);
        assert(ops[ops.len() - 1] == last);
    }
}

/// The shared ops of the functions get addresses at which no two of them
/// overlap, nor any of them one that had its address before.
pub proof fn lemma_functions_op_addresses_apart(
    functions: Seq<FunctionView>,
    base: int,
    known: Map<usize, u64>,
    shared: Seq<BOp>,
)
    requires
        addresses_apart(known, shared, base),
        functions_consistent(functions, shared),
        0 <= base,
        base + functions_size(functions) <= u64::MAX,
    ensures
        addresses_apart(
            functions_op_addresses(functions, base, known),
            shared,
            base + functions_size(functions),
        ),
    decreases functions.len(),
{
    if functions.len() > 0 {
        let front = functions.drop_last();
        let last = functions.last();
        lemma_functions_size(front);
        lemma_ops_size(last.ops);
        assert(functions_consistent(front, shared)) by {
            assert forall|k: int| 0 <= k < front.len() implies consistent(
                (#[trigger] front[k]).ops,
                shared,
            ) by {
                assert(front[k] == functions[k]);
            }
        }
        assert(functions[functions.len() - 1] == last);
        lemma_functions_op_addresses_apart(front, base, known, shared);
        lemma_op_addresses_apart(
            last.ops,
            base + functions_size(front),
            functions_op_addresses(front, base, known),
            shared,
        );
    }
}

/// No two relocations of a compiled module have sites that overlap.
pub proof fn lemma_assemble_sites_apart(module_ops: Seq<Op>, m: ModuleView)
    requires
        sound_step(ModuleView::empty(), module_ops, m),
        ops_size(module_ops) + functions_size(m.functions) <= usize::MAX,
        forall|i: int|
            0 <= i < m.relocations.len() ==> resolvable(
                #[trigger] m.relocations[i],
                functions_op_addresses(
                    m.functions,
                    ops_size(module_ops),
                    op_addresses(module_ops, 0, Map::empty()),
                ),
                function_addresses(m.functions, ops_size(module_ops)),
            ),
    ensures
        sites_apart(assemble(module_ops, m).relocations),
{
    let base = ops_size(module_ops);
    let first = op_addresses(module_ops, 0, Map::empty());
    let op_map = functions_op_addresses(m.functions, base, first);
    let function_map = function_addresses(m.functions, base);
    let resolved = assemble(module_ops, m).relocations;
    lemma_ops_size(module_ops);
    lemma_functions_size(m.functions);
    assert(addresses_apart(Map::<usize, u64>::empty(), m.shared, 0));
    lemma_op_addresses_apart(module_ops, 0, Map::empty(), m.shared);
    lemma_functions_op_addresses_apart(m.functions, base, first, m.shared);
    assert forall|i: int, j: int|
        0 <= i < resolved.len() && 0 <= j < resolved.len() && i != j implies (
    #[trigger] resolved[i]).0 + 8 <= (#[trigger] resolved[j]).0 || resolved[j].0 + 8
        <= resolved[i].0 by {
        let a = m.relocations[i];
        let b = m.relocations[j];
        assert(resolvable(a, op_map, function_map));
        assert(resolvable(b, op_map, function_map));
        assert(sited(a, module_ops, m, 0));
        assert(sited(b, module_ops, m, 0));
        assert(a.site.id != b.site.id);
        assert(op_map.contains_key(a.site.id));
        assert(op_map.contains_key(b.site.id));
        lemma_encoding_len(a.site.op);
        lemma_encoding_len(b.site.op);
    }
}

/// A compiled module is well formed: its code is as long as the sizes of the
/// emitted ops together, each relocation has its site at the address operand
/// of an emitted op, and every offset lies within the code. It holds of a
/// module that compiling left in order and whose code fits the address space.
pub proof fn lemma_assemble_well_formed(module_ops: Seq<Op>, m: ModuleView)
    requires
        sound_step(ModuleView::empty(), module_ops, m),
        ops_size(module_ops) + functions_size(m.functions) <= usize::MAX,
        m.functions.len() <= usize::MAX,
    ensures
        assemble(module_ops, m).code.len() == ops_size(module_ops) + functions_size(m.functions),
        assemble(module_ops, m).well_formed(),
        forall|i: int|
            0 <= i < m.relocations.len() ==> resolvable(
                #[trigger] m.relocations[i],
                functions_op_addresses(
                    m.functions,
                    ops_size(module_ops),
                    op_addresses(module_ops, 0, Map::empty()),
                ),
                function_addresses(m.functions, ops_size(module_ops)),
            ),
{
    let compiled = assemble(module_ops, m);
    let code = compiled.code;
    let base = ops_size(module_ops);
    let first = op_addresses(module_ops, 0, Map::empty());
    let op_map = functions_op_addresses(m.functions, base, first);
    let function_map = function_addresses(m.functions, base);
    lemma_ops_size(module_ops);
    lemma_functions_size(m.functions);
    assert(code.subrange(0, base) =~= ops_encoding(module_ops));
    assert(code.subrange(base, base + functions_size(m.functions)) =~= functions_encoding(
        m.functions,
    ));
    assert(addresses_sound(Map::<usize, u64>::empty(), code, m.shared));
    lemma_op_addresses_sound(module_ops, 0, Map::empty(), code, m.shared);
    lemma_functions_op_addresses_sound(m.functions, base, first, code, m.shared);
    assert forall|i: int| 0 <= i < m.relocations.len() implies resolvable(
        #[trigger] m.relocations[i],
        op_map,
        function_map,
    ) && is_site_of(code, m.relocations[i], op_map, function_map) by {
        let r = m.relocations[i];
        assert(sited(r, module_ops, m, 0));
        lemma_placed_has_address(r.site.id, module_ops, m.functions, base, first, op_map);
        let at = op_map[r.site.id] as int;
        let op = r.site.op;
        lemma_encoding_len(op);
        assert(code.skip(at) =~= op.encoding() + code.skip(at + op.spec_size())) by {
            assert(code.subrange(at, at + op.spec_size()) == op.encoding());
        }
        lemma_decoding_of_encoding(op, code.skip(at + op.spec_size()));
        match r.target {
            TargetView::InternalBranchAddress(t) => {
                lemma_placed_has_address(t.id, module_ops, m.functions, base, first, op_map);
                lemma_encoding_len(m.shared[t.id as int]);
            },
            TargetView::InternalFunctionAddress(k) => {
                lemma_functions_size_take(m.functions, k);
            },
            _ => {},
        }
    }
    assert forall|i: int| 0 <= i < compiled.functions.len() implies (
    #[trigger] compiled.functions[i]).1 <= code.len() by {
        lemma_named_functions_within(m.functions, base, m.name, i);
    }
    lemma_assemble_sites_apart(module_ops, m);
}

/// Whether the relocation, resolved, has its site at an address operand in
/// the code and its target within the code.
pub open spec fn is_site_of(
    code: Seq<u8>,
    r: RelocationView,
    op_map: Map<usize, u64>,
    function_map: Map<usize, u64>,
) -> bool {
    &&& super::model::is_site(code, resolve(r, op_map, function_map).0)
    &&& resolve(r, op_map, function_map).1 matches CompiledTargetView::InternalAddress(offset)
        ==> offset <= code.len()
}

proof fn lemma_placed_has_address(
    id: usize,
    module_ops: Seq<Op>,
    functions: Seq<FunctionView>,
    base: int,
    first: Map<usize, u64>,
    op_map: Map<usize, u64>,
)
    requires
        placed(id, module_ops, functions, 0),
        forall|id: usize| #[trigger] mentions(module_ops, id) ==> first.contains_key(id),
        forall|id: usize| #[trigger] first.contains_key(id) ==> op_map.contains_key(id),
        forall|id: usize, k: int|
            0 <= k < functions.len() && mentions(#[trigger] functions[k].ops, id)
                ==> #[trigger] op_map.contains_key(id),
    ensures
        op_map.contains_key(id),
{
    if mentions(module_ops, id) {
        assert(first.contains_key(id));
    } else {
        let k = choose|k: int|
            0 <= k && 0 <= k < functions.len() && mentions(#[trigger] functions[k].ops, id);
        assert(op_map.contains_key(id));
    }
}

/// Each named function starts within the code.
proof fn lemma_named_functions_within(
    functions: Seq<FunctionView>,
    base: int,
    module: Seq<char>,
    i: int,
)
    requires
        0 <= i < named_functions(functions, base, module).len(),
        0 <= base,
        base + functions_size(functions) <= u64::MAX,
    ensures
        named_functions(functions, base, module)[i].1 <= base + functions_size(functions),
    decreases functions.len(),
{
    if functions.len() > 0 {
        let front = functions.drop_last();
        lemma_functions_size(front);
        lemma_ops_size(functions.last().ops);
        if i < named_functions(front, base, module).len() {
            lemma_named_functions_within(front, base, module, i);
        }
    }
}

/// Whether what the statements compile to fits the machine: the shared ops
/// and the functions can be counted, and the code addressed, by a `usize`.
pub open spec fn fits_machine(stmts: Seq<StatementView>) -> bool {
    lower_block(stmts, None, ModuleView::empty()) matches Ok((ops, m)) ==> m.shared.len()
        <= usize::MAX && m.functions.len() <= usize::MAX && ops_size(ops) + functions_size(
        m.functions,
    ) <= usize::MAX
}

/// Every module that compiles gives code as long as the sizes of the emitted
/// ops together, and relocations whose sites lie within that code where the
/// eight bytes of an address operand begin.
pub proof fn lemma_compiled_module_well_formed(stmts: Seq<StatementView>)
    requires
        compile_module(stmts) is Ok,
        fits_machine(stmts),
    ensures
        compile_module(stmts)->Ok_0.well_formed(),
        compile_module(stmts)->Ok_0.code.len() == ops_size(
            lower_block(stmts, None, ModuleView::empty())->Ok_0.0,
        ) + functions_size(lower_block(stmts, None, ModuleView::empty())->Ok_0.1.functions),
{
    let (ops, m) = lower_block(stmts, None, ModuleView::empty())->Ok_0;
    lemma_lower_block_sound(stmts, None, ModuleView::empty());
    lemma_assemble_well_formed(ops, m);
}

/// The locals of a function are all different.
pub proof fn lemma_collect_locals_distinct(stmts: Seq<StatementView>)
    ensures
        collect_locals(stmts) matches Ok(names) ==> names.no_duplicates() && names.len() <= 0xffff,
    decreases stmts.len(),
{
    if stmts.len() > 0 {
        lemma_collect_locals_distinct(stmts.drop_last());
    }
}

/// Among names that are all different, each is found at its own position.
pub proof fn lemma_position_of_distinct(names: Seq<Seq<char>>, i: int)
    requires
        names.no_duplicates(),
        0 <= i < names.len(),
    ensures
        position_of(names, names[i]) == i,
    decreases i,
{
    if i > 0 {
        let rest = names.drop_first();
        assert(names[0] != names[i]);
        assert(rest[i - 1] == names[i]);
        assert(rest.no_duplicates()) by {
            assert forall|a: int, b: int| 0 <= a < rest.len() && 0 <= b < rest.len() && a
                != b implies rest[a] != rest[b] by {
                assert(rest[a] == names[a + 1]);
                assert(rest[b] == names[b + 1]);
            }
        }
        lemma_position_of_distinct(rest, i - 1);
    }
}

/// The slot of a local is its position among the locals of its function, in
/// the order in which the statements of the body made them.
pub proof fn lemma_slot_is_position(stmts: Seq<StatementView>, i: int)
    requires
        collect_locals(stmts) is Ok,
        0 <= i < collect_locals(stmts)->Ok_0.len(),
    ensures
        slot_of(Some(collect_locals(stmts)->Ok_0), collect_locals(stmts)->Ok_0[i]) == Ok::<
            u16,
            CompileErrorView,
        >(i as u16),
{
    lemma_collect_locals_distinct(stmts);
    lemma_position_of_distinct(collect_locals(stmts)->Ok_0, i);
}

} // verus!
