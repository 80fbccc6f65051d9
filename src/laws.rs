//! Properties of the pass, proved over its rules.
use vstd::prelude::*;

use crate::ast::{
    bits_value, Bit, ExpressionView, FunctionView, LiteralView, SizeView, StatementView, TypeView,
    ValueView,
};
use crate::rules::{
    builtin_named, builtin_rule, copy_of, entry_block, function_rule, ident_of, int_value,
    literal_assigned, merged, resolve_from, run_from, seed_locals, size_in, store, visit_rule,
    with_size, Builtin, LocalsView,
};

verus! {

/// A statement with nothing left for the pass to rewrite: no bit-sequence
/// literal copied into a variable, no call of a bitvector builtin.
pub open spec fn bitvector_free(s: StatementView) -> bool {
    match s {
        StatementView::Copy {
            expression: ExpressionView::Identifier(_),
            value: ValueView::Literal(LiteralView::Bits(_)),
        } => false,
        StatementView::FunctionCall { expression: Some(_), name, .. } => builtin_named(name) is None,
        _ => true,
    }
}

/// A copy from one variable into another, the one statement that can still
/// move a width once no builtin is left.
pub open spec fn is_variable_copy(s: StatementView) -> bool {
    match s {
        StatementView::Copy {
            expression: ExpressionView::Identifier(_),
            value: ValueView::Identifier(_),
        } => true,
        _ => false,
    }
}

pub open spec fn program_free(funcs: Seq<FunctionView>) -> bool {
    forall|k: int, i: int|
        0 <= k < funcs.len() && 0 <= i < funcs[k].statements.len() ==> bitvector_free(
            #[trigger] funcs[k].statements[i],
        )
}

pub open spec fn program_without_variable_copies(funcs: Seq<FunctionView>) -> bool {
    forall|k: int, i: int|
        0 <= k < funcs.len() && 0 <= i < funcs[k].statements.len() ==> !is_variable_copy(
            #[trigger] funcs[k].statements[i],
        )
}

/// The order in which widths may move: unknown to anything, run-time to
/// static, static to static.
pub open spec fn size_le(a: SizeView, b: SizeView) -> bool {
    a == b || a is Unknown || (a is Runtime && b is Static) || (a is Static && b is Static)
}

pub open spec fn type_le(a: TypeView, b: TypeView) -> bool {
    match (a, b) {
        (TypeView::Int { signed: s1, size: z1 }, TypeView::Int { signed: s2, size: z2 }) => s1
            == s2 && size_le(z1, z2),
        _ => a == b,
    }
}

pub open spec fn arena_le(a: Seq<TypeView>, b: Seq<TypeView>) -> bool {
    a.len() == b.len() && forall|i: int| 0 <= i < a.len() ==> type_le(#[trigger] a[i], b[i])
}

proof fn lemma_arena_le_trans(a: Seq<TypeView>, b: Seq<TypeView>, c: Seq<TypeView>)
    requires
        arena_le(a, b),
        arena_le(b, c),
    ensures
        arena_le(a, c),
{
    assert forall|i: int| 0 <= i < a.len() implies type_le(#[trigger] a[i], c[i]) by {
        assert(type_le(a[i], b[i]));
        assert(type_le(b[i], c[i]));
    }
}

proof fn lemma_store_up(locals: LocalsView, types: Seq<TypeView>, name: Seq<char>, s: SizeView)
    requires
        store(locals, types, name, s) is Ok,
        s is Static || size_in(locals, types, name) == Some(SizeView::Unknown),
    ensures
        arena_le(types, store(locals, types, name, s)->Ok_0),
{
    let t = store(locals, types, name, s)->Ok_0;
    let id = locals[name] as int;
    assert forall|i: int| 0 <= i < types.len() implies type_le(#[trigger] types[i], t[i]) by {
        if i != id {
            assert(t[i] == types[i]);
        }
    }
}

proof fn lemma_visit_up(
    locals: LocalsView,
    types: Seq<TypeView>,
    entry: Seq<StatementView>,
    s: StatementView,
)
    requires
        visit_rule(locals, types, entry, s) is Ok,
    ensures
        arena_le(types, visit_rule(locals, types, entry, s)->Ok_0.1),
{
    let t = visit_rule(locals, types, entry, s)->Ok_0.1;
    if t == types {
        assert forall|i: int| 0 <= i < types.len() implies type_le(#[trigger] types[i], t[i]) by {}
        return ;
    }
    match s {
        StatementView::Copy { expression: ExpressionView::Identifier(d), value } => match value {
            ValueView::Identifier(src) => {
                let sz = merged(size_in(locals, types, d), size_in(locals, types, src))->Some_0;
                lemma_store_up(locals, types, d, sz);
            },
            ValueView::Literal(LiteralView::Bits(b)) => {
                lemma_store_up(locals, types, d, SizeView::Static(b.len()));
            },
            _ => {},
        },
        StatementView::FunctionCall { expression: Some(dest), name, arguments } => {
            lemma_builtin_up(locals, types, entry, dest, name, arguments);
        },
        _ => {},
    }
}

proof fn lemma_builtin_up(
    locals: LocalsView,
    types: Seq<TypeView>,
    entry: Seq<StatementView>,
    dest: ExpressionView,
    name: Seq<char>,
    arguments: Seq<ValueView>,
)
    requires
        builtin_named(name) is Some,
        builtin_rule(builtin_named(name)->Some_0, locals, types, entry, dest, arguments) is Ok,
    ensures
        arena_le(
            types,
            builtin_rule(builtin_named(name)->Some_0, locals, types, entry, dest, arguments)->Ok_0.0,
        ),
{
    let t = builtin_rule(builtin_named(name)->Some_0, locals, types, entry, dest, arguments)->Ok_0.0;
    if t == types {
        assert forall|i: int| 0 <= i < types.len() implies type_le(#[trigger] types[i], t[i]) by {}
        return ;
    }
    match dest {
        ExpressionView::Identifier(d) => {
            let n = ident_of(arguments[0])->Some_0;
            match builtin_named(name)->Some_0 {
                Builtin::Zeros => {
                    let len = literal_assigned(entry, n)->Some_0;
                    lemma_store_up(locals, types, d, SizeView::Static(len as nat));
                },
                Builtin::Ones => {
                    let len = literal_assigned(entry, n)->Some_0;
                    lemma_store_up(locals, types, d, SizeView::Static(len as nat));
                },
                Builtin::Concat => {
                    let l = ident_of(arguments[0])->Some_0;
                    let r = ident_of(arguments[1])->Some_0;
                    let lw = size_in(locals, types, l)->Some_0->Static_0;
                    let rw = size_in(locals, types, r)->Some_0->Static_0;
                    lemma_store_up(locals, types, d, SizeView::Static(lw + rw));
                },
                Builtin::EqVec => {},
                Builtin::Undefined => {
                    lemma_store_up(locals, types, d, SizeView::Runtime(n));
                },
            }
        },
        _ => {},
    }
}

proof fn lemma_resolve_up(
    entry_len: nat,
    locals: LocalsView,
    types: Seq<TypeView>,
    stmts: Seq<StatementView>,
    i: int,
    changed: bool,
)
    requires
        resolve_from(entry_len, locals, types, stmts, i, changed) is Ok,
    ensures
        arena_le(types, resolve_from(entry_len, locals, types, stmts, i, changed)->Ok_0.0),
        resolve_from(entry_len, locals, types, stmts, i, changed)->Ok_0.1.len() == stmts.len(),
    decreases stmts.len() - i,
{
    if i < 0 || i >= stmts.len() {
        assert forall|j: int| 0 <= j < types.len() implies type_le(#[trigger] types[j], types[j]) by {}
    } else {
        let entry = entry_block(stmts, entry_len);
        lemma_visit_up(locals, types, entry, stmts[i]);
        let (l, t, s) = visit_rule(locals, types, entry, stmts[i])->Ok_0;
        match s {
            None => {
                lemma_resolve_up(entry_len, l, t, stmts, i + 1, changed);
                lemma_arena_le_trans(types, t, resolve_from(entry_len, l, t, stmts, i + 1, changed)->Ok_0.0);
            },
            Some(s2) => {
                lemma_resolve_up(entry_len, l, t, stmts.update(i, s2), i + 1, true);
                lemma_arena_le_trans(
                    types,
                    t,
                    resolve_from(entry_len, l, t, stmts.update(i, s2), i + 1, true)->Ok_0.0,
                );
            },
        }
    }
}

/// Widths only move up: over a whole run that succeeds, every type node of
/// the arena ends at or above where it started, in the order unknown, then
/// run-time, then static; nodes that are not integers are left alone.
pub proof fn lemma_widths_monotone(types: Seq<TypeView>, funcs: Seq<FunctionView>, k: int, changed: bool)
    requires
        run_from(types, funcs, k, changed) is Ok,
    ensures
        arena_le(types, run_from(types, funcs, k, changed)->Ok_0.0),
    decreases funcs.len() - k,
{
    if k < 0 || k >= funcs.len() {
        assert forall|j: int| 0 <= j < types.len() implies type_le(#[trigger] types[j], types[j]) by {}
    } else {
        let f = funcs[k];
        lemma_resolve_up(
            f.entry_block_len,
            seed_locals(f.parameters, types),
            types,
            f.statements,
            0,
            false,
        );
        let (t, f2, c) = function_rule(types, f)->Ok_0;
        lemma_widths_monotone(t, funcs.update(k, f2), k + 1, changed || c);
        lemma_arena_le_trans(types, t, run_from(t, funcs.update(k, f2), k + 1, changed || c)->Ok_0.0);
    }
}

proof fn lemma_resolve_free(
    entry_len: nat,
    locals: LocalsView,
    types: Seq<TypeView>,
    stmts: Seq<StatementView>,
    i: int,
    changed: bool,
)
    requires
        0 <= i,
        forall|j: int| 0 <= j < stmts.len() ==> bitvector_free(#[trigger] stmts[j]),
    ensures
        resolve_from(entry_len, locals, types, stmts, i, changed) is Ok,
        resolve_from(entry_len, locals, types, stmts, i, changed)->Ok_0.1 == stmts,
        resolve_from(entry_len, locals, types, stmts, i, changed)->Ok_0.2 == changed,
        (forall|j: int| 0 <= j < stmts.len() ==> !is_variable_copy(#[trigger] stmts[j])) ==> resolve_from(
            entry_len,
            locals,
            types,
            stmts,
            i,
            changed,
        )->Ok_0.0 == types,
    decreases stmts.len() - i,
{
    if i < stmts.len() {
        let entry = entry_block(stmts, entry_len);
        let s = stmts[i];
        assert(bitvector_free(s));
        let v = visit_rule(locals, types, entry, s);
        assert(v is Ok && v->Ok_0.2 is None);
        if forall|j: int| 0 <= j < stmts.len() ==> !is_variable_copy(#[trigger] stmts[j]) {
            assert(!is_variable_copy(s));
            assert(v->Ok_0.1 == types);
        }
        lemma_resolve_free(entry_len, v->Ok_0.0, v->Ok_0.1, stmts, i + 1, changed);
    }
}

/// Running the pass again on a program with no bit-sequence literal and no
/// bitvector builtin left succeeds, rewrites no statement and reports no
/// change; where no variable is copied into another, the type arena is left
/// as it was too.
pub proof fn lemma_rerun_is_identity(types: Seq<TypeView>, funcs: Seq<FunctionView>, k: int, changed: bool)
    requires
        0 <= k,
        program_free(funcs),
    ensures
        run_from(types, funcs, k, changed) is Ok,
        run_from(types, funcs, k, changed)->Ok_0.1 == funcs,
        run_from(types, funcs, k, changed)->Ok_0.2 == changed,
        program_without_variable_copies(funcs) ==> run_from(types, funcs, k, changed)->Ok_0.0 == types,
    decreases funcs.len() - k,
{
    if k < funcs.len() {
        let f = funcs[k];
        assert forall|j: int| 0 <= j < f.statements.len() implies bitvector_free(#[trigger] f.statements[j]) by {
            assert(bitvector_free(funcs[k].statements[j]));
        }
        if program_without_variable_copies(funcs) {
            assert forall|j: int| 0 <= j < f.statements.len() implies !is_variable_copy(#[trigger] f.statements[j]) by {
                assert(!is_variable_copy(funcs[k].statements[j]));
            }
        }
        lemma_resolve_free(
            f.entry_block_len,
            seed_locals(f.parameters, types),
            types,
            f.statements,
            0,
            false,
        );
        let (t, f2, c) = function_rule(types, f)->Ok_0;
        assert(f2 == f);
        assert(funcs.update(k, f2) == funcs);
        lemma_rerun_is_identity(t, funcs, k + 1, changed || c);
    }
}

/// A bit-sequence literal copied into a tracked variable becomes the integer
/// its bits encode, big-endian, and fixes the variable's width to the
/// literal's length.
pub proof fn lemma_bits_literal_round_trip(
    locals: LocalsView,
    types: Seq<TypeView>,
    entry: Seq<StatementView>,
    d: Seq<char>,
    bits: Seq<Bit>,
)
    requires
        size_in(locals, types, d) is Some,
    ensures
        ({
            let s = StatementView::Copy {
                expression: ExpressionView::Identifier(d),
                value: ValueView::Literal(LiteralView::Bits(bits)),
            };
            let r = visit_rule(locals, types, entry, s);
            &&& r is Ok
            &&& r->Ok_0.2 == Some(
                copy_of(ExpressionView::Identifier(d), int_value(bits_value(bits) as int)),
            )
            &&& size_in(locals, r->Ok_0.1, d) == Some(SizeView::Static(bits.len()))
        }),
{
    let id = locals[d] as int;
    let t = types.update(id, with_size(types[id], SizeView::Static(bits.len())));
    assert(t[id] == with_size(types[id], SizeView::Static(bits.len())));
}

/// `eq_vec` rewrites to an integer equality whatever the widths of its
/// operands, known or not, and moves no width.
pub proof fn lemma_eq_vec_ignores_widths(
    locals: LocalsView,
    types: Seq<TypeView>,
    entry: Seq<StatementView>,
    d: Seq<char>,
    left: Seq<char>,
    right: Seq<char>,
)
    ensures
        ({
            let s = StatementView::FunctionCall {
                expression: Some(ExpressionView::Identifier(d)),
                name: "eq_vec"@,
                arguments: seq![ValueView::Identifier(left), ValueView::Identifier(right)],
            };
            let r = visit_rule(locals, types, entry, s);
            &&& r is Ok
            &&& r->Ok_0.1 == types
            &&& r->Ok_0.2 == Some(
                copy_of(
                    ExpressionView::Identifier(d),
                    ValueView::Equal(
                        Box::new(ValueView::Identifier(left)),
                        Box::new(ValueView::Identifier(right)),
                    ),
                ),
            )
        }),
{
    reveal_strlit("eq_vec");
    reveal_strlit("Zeros");
    reveal_strlit("Ones");
    reveal_strlit("bitvector_concat");
    assert("eq_vec"@.len() != "Zeros"@.len());
    assert("eq_vec"@.len() != "Ones"@.len());
    assert("eq_vec"@ != "bitvector_concat"@);
}

} // verus!
