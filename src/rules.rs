//! The rules of width resolution, stated over the mathematical view of the IR.
use vstd::arithmetic::power2::pow2;
use vstd::prelude::*;

use crate::ast::{
    bits_value, ExpressionView, FunctionView, LiteralView, SizeView, StatementView, TypeView,
    ValueView,
};

verus! {

/// The builtin bitvector operations that this pass rewrites.
#[derive(Debug, Clone, Copy, PartialEq, Eq, Structural)]
pub enum Builtin {
    Zeros,
    Ones,
    Concat,
    EqVec,
    Undefined,
}

/// Why the pass aborted: the input broke an assumption that no rewrite could
/// honour.
pub enum ErrorView {
    ArityMismatch { builtin: Builtin, found: nat },
    ExpectedIdentifier { builtin: Builtin },
    DestinationNotIdentifier { builtin: Builtin },
    UntrackedIdentifier(Seq<char>),
    NotStatic { operand: Seq<char>, size: Option<SizeView> },
    MissingLength(Seq<char>),
    LengthOutOfRange(Seq<char>),
    WidthOverflow { left: nat, right: nat },
}

/// Identifiers mapped to type-arena indices.
pub type LocalsView = Map<Seq<char>, nat>;

pub open spec fn builtin_named(name: Seq<char>) -> Option<Builtin> {
    if name == "Zeros"@ {
        Some(Builtin::Zeros)
    } else if name == "Ones"@ {
        Some(Builtin::Ones)
    } else if name == "bitvector_concat"@ {
        Some(Builtin::Concat)
    } else if name == "eq_vec"@ {
        Some(Builtin::EqVec)
    } else if name == "undefined_bitvector"@ {
        Some(Builtin::Undefined)
    } else {
        None
    }
}

pub open spec fn type_size(t: TypeView) -> Option<SizeView> {
    match t {
        TypeView::Int { size, .. } => Some(size),
        _ => None,
    }
}

pub open spec fn with_size(t: TypeView, s: SizeView) -> TypeView {
    match t {
        TypeView::Int { signed, .. } => TypeView::Int { signed, size: s },
        _ => t,
    }
}

/// Size of a tracked identifier: none when it is not a local, or its type is
/// not an integer.
pub open spec fn size_in(locals: LocalsView, types: Seq<TypeView>, name: Seq<char>) -> Option<
    SizeView,
> {
    if locals.contains_key(name) && locals[name] < types.len() {
        type_size(types[locals[name] as int])
    } else {
        None
    }
}

/// Writes a size through the identifier's type node; fails when the
/// identifier is not tracked.
pub open spec fn store(locals: LocalsView, types: Seq<TypeView>, name: Seq<char>, s: SizeView) -> Result<
    Seq<TypeView>,
    ErrorView,
> {
    if size_in(locals, types, name) is Some {
        let id = locals[name] as int;
        Ok(types.update(id, with_size(types[id], s)))
    } else {
        Err(ErrorView::UntrackedIdentifier(name))
    }
}

/// The new destination size of a copy between identifiers, when the merge
/// changes it.
pub open spec fn merged(dest: Option<SizeView>, src: Option<SizeView>) -> Option<SizeView> {
    match (dest, src) {
        (Some(SizeView::Unknown), Some(s)) => Some(s),
        (Some(SizeView::Runtime(_)), Some(SizeView::Static(w))) => Some(SizeView::Static(w)),
        _ => None,
    }
}

/// The integer literal last copied into `name` within `block`; none when the
/// last copy into it holds anything else, or there is none.
pub open spec fn literal_assigned(block: Seq<StatementView>, name: Seq<char>) -> Option<int>
    decreases block.len(),
{
    if block.len() == 0 {
        None
    } else {
        match block.last() {
            StatementView::Copy { expression: ExpressionView::Identifier(d), value } if d
                == name => match value {
                ValueView::Literal(LiteralView::Int(v)) => Some(v),
                _ => None,
            },
            _ => literal_assigned(block.drop_last(), name),
        }
    }
}

pub open spec fn ident_of(v: ValueView) -> Option<Seq<char>> {
    match v {
        ValueView::Identifier(n) => Some(n),
        _ => None,
    }
}

pub open spec fn int_value(v: int) -> ValueView {
    ValueView::Literal(LiteralView::Int(v))
}

pub open spec fn copy_of(e: ExpressionView, v: ValueView) -> StatementView {
    StatementView::Copy { expression: e, value: v }
}

pub open spec fn is_width(n: int) -> bool {
    0 <= n <= usize::MAX
}

pub open spec fn zeros_rule(
    locals: LocalsView,
    types: Seq<TypeView>,
    entry: Seq<StatementView>,
    dest: ExpressionView,
    args: Seq<ValueView>,
) -> Result<(Seq<TypeView>, StatementView), ErrorView> {
    if args.len() != 1 {
        Err(ErrorView::ArityMismatch { builtin: Builtin::Zeros, found: args.len() })
    } else if ident_of(args[0]) is None {
        Err(ErrorView::ExpectedIdentifier { builtin: Builtin::Zeros })
    } else {
        let len_id = ident_of(args[0])->Some_0;
        let rewritten = copy_of(dest, int_value(0));
        match (literal_assigned(entry, len_id), dest) {
            (Some(n), ExpressionView::Identifier(d)) => if is_width(n) {
                match store(locals, types, d, SizeView::Static(n as nat)) {
                    Ok(t) => Ok((t, rewritten)),
                    Err(e) => Err(e),
                }
            } else {
                Err(ErrorView::LengthOutOfRange(len_id))
            },
            _ => Ok((types, rewritten)),
        }
    }
}

pub open spec fn ones_rule(
    locals: LocalsView,
    types: Seq<TypeView>,
    entry: Seq<StatementView>,
    dest: ExpressionView,
    args: Seq<ValueView>,
) -> Result<(Seq<TypeView>, StatementView), ErrorView> {
    if args.len() != 1 {
        Err(ErrorView::ArityMismatch { builtin: Builtin::Ones, found: args.len() })
    } else if ident_of(args[0]) is None {
        Err(ErrorView::ExpectedIdentifier { builtin: Builtin::Ones })
    } else {
        let len_id = ident_of(args[0])->Some_0;
        match literal_assigned(entry, len_id) {
            None => Err(ErrorView::MissingLength(len_id)),
            Some(n) => match dest {
                ExpressionView::Identifier(d) => if is_width(n) {
                    match store(locals, types, d, SizeView::Static(n as nat)) {
                        Ok(t) => Ok((t, copy_of(dest, int_value(pow2(n as nat) - 1)))),
                        Err(e) => Err(e),
                    }
                } else {
                    Err(ErrorView::LengthOutOfRange(len_id))
                },
                _ => Err(ErrorView::DestinationNotIdentifier { builtin: Builtin::Ones }),
            },
        }
    }
}

/// `(left << right_width) | right`
pub open spec fn concat_value(left: Seq<char>, right: Seq<char>, right_width: nat) -> ValueView {
    ValueView::Or(
        Box::new(
            ValueView::LeftShift(
                Box::new(ValueView::Identifier(left)),
                Box::new(int_value(right_width as int)),
            ),
        ),
        Box::new(ValueView::Identifier(right)),
    )
}

pub open spec fn concat_rule(
    locals: LocalsView,
    types: Seq<TypeView>,
    dest: ExpressionView,
    args: Seq<ValueView>,
) -> Result<(Seq<TypeView>, StatementView), ErrorView> {
    if args.len() != 2 {
        Err(ErrorView::ArityMismatch { builtin: Builtin::Concat, found: args.len() })
    } else if ident_of(args[0]) is None || ident_of(args[1]) is None {
        Err(ErrorView::ExpectedIdentifier { builtin: Builtin::Concat })
    } else {
        let l = ident_of(args[0])->Some_0;
        let r = ident_of(args[1])->Some_0;
        match size_in(locals, types, l) {
            Some(SizeView::Static(lw)) => match size_in(locals, types, r) {
                Some(SizeView::Static(rw)) => match dest {
                    ExpressionView::Identifier(d) => if lw + rw <= usize::MAX {
                        match store(locals, types, d, SizeView::Static(lw + rw)) {
                            Ok(t) => Ok((t, copy_of(dest, concat_value(l, r, rw)))),
                            Err(e) => Err(e),
                        }
                    } else {
                        Err(ErrorView::WidthOverflow { left: lw, right: rw })
                    },
                    _ => Err(ErrorView::DestinationNotIdentifier { builtin: Builtin::Concat }),
                },
                other => Err(ErrorView::NotStatic { operand: r, size: other }),
            },
            other => Err(ErrorView::NotStatic { operand: l, size: other }),
        }
    }
}

pub open spec fn eq_rule(dest: ExpressionView, args: Seq<ValueView>) -> Result<
    StatementView,
    ErrorView,
> {
    if args.len() != 2 {
        Err(ErrorView::ArityMismatch { builtin: Builtin::EqVec, found: args.len() })
    } else if ident_of(args[0]) is None || ident_of(args[1]) is None {
        Err(ErrorView::ExpectedIdentifier { builtin: Builtin::EqVec })
    } else if dest is Identifier {
        Ok(
            copy_of(
                dest,
                ValueView::Equal(Box::new(args[0]), Box::new(args[1])),
            ),
        )
    } else {
        Err(ErrorView::DestinationNotIdentifier { builtin: Builtin::EqVec })
    }
}

pub open spec fn undefined_rule(
    locals: LocalsView,
    types: Seq<TypeView>,
    dest: ExpressionView,
    args: Seq<ValueView>,
) -> Result<(Seq<TypeView>, StatementView), ErrorView> {
    if args.len() != 1 {
        Err(ErrorView::ArityMismatch { builtin: Builtin::Undefined, found: args.len() })
    } else {
        match dest {
            ExpressionView::Identifier(d) => match size_in(locals, types, d) {
                None => Err(ErrorView::UntrackedIdentifier(d)),
                Some(SizeView::Unknown) => match ident_of(args[0]) {
                    Some(n) => match store(locals, types, d, SizeView::Runtime(n)) {
                        Ok(t) => Ok((t, copy_of(dest, int_value(0)))),
                        Err(e) => Err(e),
                    },
                    None => Err(ErrorView::ExpectedIdentifier { builtin: Builtin::Undefined }),
                },
                Some(_) => Ok((types, copy_of(dest, int_value(0)))),
            },
            _ => Err(ErrorView::DestinationNotIdentifier { builtin: Builtin::Undefined }),
        }
    }
}

pub open spec fn builtin_rule(
    b: Builtin,
    locals: LocalsView,
    types: Seq<TypeView>,
    entry: Seq<StatementView>,
    dest: ExpressionView,
    args: Seq<ValueView>,
) -> Result<(Seq<TypeView>, StatementView), ErrorView> {
    match b {
        Builtin::Zeros => zeros_rule(locals, types, entry, dest, args),
        Builtin::Ones => ones_rule(locals, types, entry, dest, args),
        Builtin::Concat => concat_rule(locals, types, dest, args),
        Builtin::EqVec => match eq_rule(dest, args) {
            Ok(s) => Ok((types, s)),
            Err(e) => Err(e),
        },
        Builtin::Undefined => undefined_rule(locals, types, dest, args),
    }
}

/// What visiting one statement does: the new locals, the new type arena, and
/// the statement that replaces it, if any.
pub open spec fn visit_rule(
    locals: LocalsView,
    types: Seq<TypeView>,
    entry: Seq<StatementView>,
    s: StatementView,
) -> Result<(LocalsView, Seq<TypeView>, Option<StatementView>), ErrorView> {
    match s {
        StatementView::TypeDeclaration { name, typ } => Ok((locals.insert(name, typ), types, None)),
        StatementView::Copy { expression: ExpressionView::Identifier(d), value } => match value {
            ValueView::Identifier(src) => match merged(
                size_in(locals, types, d),
                size_in(locals, types, src),
            ) {
                Some(sz) => match store(locals, types, d, sz) {
                    Ok(t) => Ok((locals, t, None)),
                    Err(e) => Err(e),
                },
                None => Ok((locals, types, None)),
            },
            ValueView::Literal(LiteralView::Bits(b)) => match store(
                locals,
                types,
                d,
                SizeView::Static(b.len()),
            ) {
                Ok(t) => Ok(
                    (
                        locals,
                        t,
                        Some(
                            copy_of(
                                ExpressionView::Identifier(d),
                                int_value(bits_value(b) as int),
                            ),
                        ),
                    ),
                ),
                Err(e) => Err(e),
            },
            _ => Ok((locals, types, None)),
        },
        StatementView::FunctionCall { expression: Some(dest), name, arguments } => match builtin_named(
            name,
        ) {
            Some(b) => match builtin_rule(b, locals, types, entry, dest, arguments) {
                Ok((t, rewritten)) => Ok((locals, t, Some(rewritten))),
                Err(e) => Err(e),
            },
            None => Ok((locals, types, None)),
        },
        _ => Ok((locals, types, None)),
    }
}

/// The entry block: the first `entry_len` statements, or all of them.
pub open spec fn entry_block(stmts: Seq<StatementView>, entry_len: nat) -> Seq<StatementView> {
    if entry_len <= stmts.len() {
        stmts.take(entry_len as int)
    } else {
        stmts
    }
}

/// Visits statements `i..` in order, each seeing the entry block as the
/// statements before it left it; yields the arena, the statements and whether
/// any statement was rewritten.
pub open spec fn resolve_from(
    entry_len: nat,
    locals: LocalsView,
    types: Seq<TypeView>,
    stmts: Seq<StatementView>,
    i: int,
    changed: bool,
) -> Result<(Seq<TypeView>, Seq<StatementView>, bool), ErrorView>
    decreases stmts.len() - i,
{
    if i < 0 || i >= stmts.len() {
        Ok((types, stmts, changed))
    } else {
        match visit_rule(locals, types, entry_block(stmts, entry_len), stmts[i]) {
            Err(e) => Err(e),
            Ok((l, t, None)) => resolve_from(entry_len, l, t, stmts, i + 1, changed),
            Ok((l, t, Some(s))) => resolve_from(entry_len, l, t, stmts.update(i, s), i + 1, true),
        }
    }
}

/// The locals a function starts with: its integer-typed parameters, a later
/// parameter of the same name taking precedence.
pub open spec fn seed_locals(params: Seq<(Seq<char>, nat)>, types: Seq<TypeView>) -> LocalsView
    decreases params.len(),
{
    if params.len() == 0 {
        Map::empty()
    } else {
        let rest = seed_locals(params.drop_last(), types);
        let p = params.last();
        if p.1 < types.len() && types[p.1 as int] is Int {
            rest.insert(p.0, p.1)
        } else {
            rest
        }
    }
}

/// Processing one function from fresh per-function state.
pub open spec fn function_rule(types: Seq<TypeView>, f: FunctionView) -> Result<
    (Seq<TypeView>, FunctionView, bool),
    ErrorView,
> {
    match resolve_from(
        f.entry_block_len,
        seed_locals(f.parameters, types),
        types,
        f.statements,
        0,
        false,
    ) {
        Ok((t, s, c)) => Ok((t, FunctionView { statements: s, ..f }, c)),
        Err(e) => Err(e),
    }
}

/// Processing functions `k..` in order; the flag is true when any function
/// had a statement rewritten.
pub open spec fn run_from(
    types: Seq<TypeView>,
    funcs: Seq<FunctionView>,
    k: int,
    changed: bool,
) -> Result<(Seq<TypeView>, Seq<FunctionView>, bool), ErrorView>
    decreases funcs.len() - k,
{
    if k < 0 || k >= funcs.len() {
        Ok((types, funcs, changed))
    } else {
        match function_rule(types, funcs[k]) {
            Err(e) => Err(e),
            Ok((t, f, c)) => run_from(t, funcs.update(k, f), k + 1, changed || c),
        }
    }
}

} // verus!
