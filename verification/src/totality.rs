//! Totality of evaluation: a return carrier never surfaces.
//!
//! A program's result can be a return carrier only when a `return` statement
//! wraps a value that is itself a carrier, which takes a `return` whose
//! operand contains an escaping `return` (as in a `return` of an `if` block
//! that returns).  The predicates here rule such trees out: an expression is
//! *carrier-free* (`nc_expr`) when reducing it can never produce a carrier,
//! and a statement is *tame* (`tame_stmt`) when its `return` and `let`
//! operands are carrier-free, while `if` blocks in statement position may
//! still return.  The theorem at the bottom shows that on tame programs the
//! top level never surfaces a `RETURN_VALUE`.

use vstd::prelude::*;
use crate::ast::{ExpressionV, StatementV, NodeV, ProgramV, expr_size, stmt_size, block_size,
    stmts_weight, exprs_weight, pairs_weight};
use crate::object::{ObjectV, HashKeyV, hash_key_of};
use crate::environment::{EnvironmentV, store_get};
use crate::semantics::{StateV, eval_node, eval_expr, eval_stmt, eval_block, eval_program,
    eval_exprs, eval_hash, apply_function, eval_prefix, eval_infix, eval_index, lookup_env,
    set_in, hash_lookup, hash_insert, params_store, lemma_params_store, is_error, truthy};
use crate::builtin::builtin_apply;

verus! {

/// Whether reducing `e` can never produce a return carrier: `e` holds no
/// `return` outside of function-literal bodies, whose own statements must be
/// tame.
pub open spec fn nc_expr(e: ExpressionV) -> bool
    decreases e, 0int,
{
    match e {
        ExpressionV::Identifier { .. } => true,
        ExpressionV::IntegerLiteral { .. } => true,
        ExpressionV::StringLiteral { .. } => true,
        ExpressionV::Boolean { .. } => true,
        ExpressionV::ArrayLiteral { elements } => nc_exprs_from(elements, 0),
        ExpressionV::HashLiteral { members } => nc_pairs_from(members, 0),
        ExpressionV::Index { left, index } => nc_expr(*left) && nc_expr(*index),
        ExpressionV::Prefix { right, .. } => nc_expr(*right),
        ExpressionV::Infix { left, right, .. } => nc_expr(*left) && nc_expr(*right),
        ExpressionV::If { condition, consequence, alternative } => nc_expr(*condition)
            && nc_stmts_from(consequence.statements, 0) && (match alternative {
            Some(alt) => nc_stmts_from(alt.statements, 0),
            None => true,
        }),
        ExpressionV::Call { function, arguments } => nc_expr(*function) && nc_exprs_from(
            arguments,
            0,
        ),
        ExpressionV::FunctionLiteral { body, .. } => tame_stmts_from(body.statements, 0),
    }
}

pub open spec fn nc_exprs_from(es: Seq<ExpressionV>, i: int) -> bool
    decreases es, es.len() - i,
{
    if 0 <= i < es.len() {
        nc_expr(es[i]) && nc_exprs_from(es, i + 1)
    } else {
        true
    }
}

pub open spec fn nc_pairs_from(ms: Seq<(ExpressionV, ExpressionV)>, i: int) -> bool
    decreases ms, ms.len() - i,
{
    if 0 <= i < ms.len() {
        nc_expr(ms[i].0) && nc_expr(ms[i].1) && nc_pairs_from(ms, i + 1)
    } else {
        true
    }
}

/// A statement that can never yield a carrier: no `return` at all, and
/// carrier-free expressions.
pub open spec fn nc_stmt(s: StatementV) -> bool
    decreases s, 0int,
{
    match s {
        StatementV::Let { value, .. } => nc_expr(value),
        StatementV::Return { .. } => false,
        StatementV::Expression { value } => nc_expr(value),
    }
}

pub open spec fn nc_stmts_from(ss: Seq<StatementV>, i: int) -> bool
    decreases ss, ss.len() - i,
{
    if 0 <= i < ss.len() {
        nc_stmt(ss[i]) && nc_stmts_from(ss, i + 1)
    } else {
        true
    }
}

/// A tame statement: `return` and `let` operands are carrier-free; an `if`
/// in statement position may hold returns, whose operands are carrier-free
/// in turn.
pub open spec fn tame_stmt(s: StatementV) -> bool
    decreases s, 1int,
{
    match s {
        StatementV::Let { value, .. } => nc_expr(value),
        StatementV::Return { value } => nc_expr(value),
        StatementV::Expression { value } => stmt_expr_tame(value),
    }
}

/// An expression in statement position: an `if` may hold returning blocks;
/// every other form must be carrier-free.
pub open spec fn stmt_expr_tame(e: ExpressionV) -> bool
    decreases e, 1int,
{
    match e {
        ExpressionV::If { condition, consequence, alternative } => nc_expr(*condition)
            && tame_stmts_from(consequence.statements, 0) && (match alternative {
            Some(alt) => tame_stmts_from(alt.statements, 0),
            None => true,
        }),
        _ => nc_expr(e),
    }
}

pub open spec fn tame_stmts_from(ss: Seq<StatementV>, i: int) -> bool
    decreases ss, ss.len() - i,
{
    if 0 <= i < ss.len() {
        tame_stmt(ss[i]) && tame_stmts_from(ss, i + 1)
    } else {
        true
    }
}

/// A value free of return carriers at any depth, whose function bodies are
/// tame.
pub open spec fn tame_val(v: ObjectV) -> bool
    decreases v, 0int,
{
    match v {
        ObjectV::Integer(..) => true,
        ObjectV::Boolean(..) => true,
        ObjectV::Str(..) => true,
        ObjectV::Null => true,
        ObjectV::Array(es) => tame_vals_from(es, 0),
        ObjectV::Hash(ps) => tame_hvals_from(ps, 0),
        ObjectV::Function(f) => tame_stmts_from(f.body.statements, 0),
        ObjectV::BuiltinFunction(..) => true,
        ObjectV::ReturnValue(..) => false,
        ObjectV::RuntimeError(..) => true,
    }
}

pub open spec fn tame_vals_from(es: Seq<ObjectV>, i: int) -> bool
    decreases es, es.len() - i,
{
    if 0 <= i < es.len() {
        tame_val(es[i]) && tame_vals_from(es, i + 1)
    } else {
        true
    }
}

pub open spec fn tame_hvals_from(ps: Seq<(HashKeyV, ObjectV)>, i: int) -> bool
    decreases ps, ps.len() - i,
{
    if 0 <= i < ps.len() {
        tame_val(ps[i].1) && tame_hvals_from(ps, i + 1)
    } else {
        true
    }
}

/// A statement or block result in transit: either a tame value, or a single
/// carrier around a tame value.
pub open spec fn carrier_ok(v: ObjectV) -> bool {
    match v {
        ObjectV::ReturnValue(u) => tame_val(*u),
        _ => tame_val(v),
    }
}

pub open spec fn tame_bindings_from(s: Seq<(Seq<char>, ObjectV)>, i: int) -> bool
    decreases s.len() - i,
{
    if 0 <= i < s.len() {
        tame_val(s[i].1) && tame_bindings_from(s, i + 1)
    } else {
        true
    }
}

/// A binding context holding only tame values.
pub open spec fn tame_env(e: EnvironmentV) -> bool {
    tame_bindings_from(e.store, 0)
}

pub open spec fn tame_envs_from(envs: Seq<EnvironmentV>, i: int) -> bool
    decreases envs.len() - i,
{
    if 0 <= i < envs.len() {
        tame_env(envs[i]) && tame_envs_from(envs, i + 1)
    } else {
        true
    }
}

/// An evaluation state whose contexts hold only tame values.
pub open spec fn tame_state(st: StateV) -> bool {
    tame_envs_from(st.envs, 0)
}

pub proof fn lemma_nc_exprs_from(es: Seq<ExpressionV>, i: int)
    requires
        0 <= i <= es.len(),
    ensures
        nc_exprs_from(es, i) <==> (forall|j: int| i <= j < es.len() ==> nc_expr(es[j])),
    decreases es.len() - i,
{
    if i < es.len() {
        lemma_nc_exprs_from(es, i + 1);
    }
}

pub proof fn lemma_nc_pairs_from(ms: Seq<(ExpressionV, ExpressionV)>, i: int)
    requires
        0 <= i <= ms.len(),
    ensures
        nc_pairs_from(ms, i) <==> (forall|j: int|
            i <= j < ms.len() ==> nc_expr(ms[j].0) && nc_expr(ms[j].1)),
    decreases ms.len() - i,
{
    if i < ms.len() {
        lemma_nc_pairs_from(ms, i + 1);
    }
}

pub proof fn lemma_tame_vals_from(es: Seq<ObjectV>, i: int)
    requires
        0 <= i <= es.len(),
    ensures
        tame_vals_from(es, i) <==> (forall|j: int| i <= j < es.len() ==> tame_val(es[j])),
    decreases es.len() - i,
{
    if i < es.len() {
        lemma_tame_vals_from(es, i + 1);
    }
}

pub proof fn lemma_tame_hvals_from(ps: Seq<(HashKeyV, ObjectV)>, i: int)
    requires
        0 <= i <= ps.len(),
    ensures
        tame_hvals_from(ps, i) <==> (forall|j: int| i <= j < ps.len() ==> tame_val(ps[j].1)),
    decreases ps.len() - i,
{
    if i < ps.len() {
        lemma_tame_hvals_from(ps, i + 1);
    }
}

pub proof fn lemma_tame_bindings_from(s: Seq<(Seq<char>, ObjectV)>, i: int)
    requires
        0 <= i <= s.len(),
    ensures
        tame_bindings_from(s, i) <==> (forall|j: int| i <= j < s.len() ==> tame_val(s[j].1)),
    decreases s.len() - i,
{
    if i < s.len() {
        lemma_tame_bindings_from(s, i + 1);
    }
}

pub proof fn lemma_tame_envs_from(envs: Seq<EnvironmentV>, i: int)
    requires
        0 <= i <= envs.len(),
    ensures
        tame_envs_from(envs, i) <==> (forall|j: int| i <= j < envs.len() ==> tame_env(envs[j])),
    decreases envs.len() - i,
{
    if i < envs.len() {
        lemma_tame_envs_from(envs, i + 1);
    }
}

/// A lookup in a tame store yields a tame value.
proof fn lemma_store_get_tame(store: Seq<(Seq<char>, ObjectV)>, name: Seq<char>)
    requires
        forall|j: int| 0 <= j < store.len() ==> tame_val(store[j].1),
    ensures
        match store_get(store, name) {
            Some(v) => tame_val(v),
            None => true,
        },
    decreases store.len(),
{
    if store.len() > 0 && store.last().0 != name {
        lemma_store_get_tame(store.drop_last(), name);
    }
}

/// A lookup along a tame context chain yields a tame value.
proof fn lemma_lookup_tame(envs: Seq<EnvironmentV>, idx: int, name: Seq<char>)
    requires
        forall|j: int| 0 <= j < envs.len() ==> tame_env(envs[j]),
    ensures
        match lookup_env(envs, idx, name) {
            Some(v) => tame_val(v),
            None => true,
        },
    decreases idx,
{
    if 0 <= idx < envs.len() {
        lemma_tame_bindings_from(envs[idx].store, 0);
        lemma_store_get_tame(envs[idx].store, name);
        match envs[idx].parent {
            Some(p) => {
                if 0 <= p < idx {
                    lemma_lookup_tame(envs, p, name);
                }
            },
            None => {},
        }
    }
}

/// A lookup in a hash of tame values yields a tame value.
proof fn lemma_hash_lookup_tame(ps: Seq<(HashKeyV, ObjectV)>, k: HashKeyV)
    requires
        forall|j: int| 0 <= j < ps.len() ==> tame_val(ps[j].1),
    ensures
        match hash_lookup(ps, k) {
            Some(v) => tame_val(v),
            None => true,
        },
    decreases ps.len(),
{
    if ps.len() > 0 && ps[0].0 != k {
        lemma_hash_lookup_tame(ps.drop_first(), k);
    }
}

/// Inserting a tame value into a hash of tame values keeps it tame.
proof fn lemma_hash_insert_tame(ps: Seq<(HashKeyV, ObjectV)>, k: HashKeyV, v: ObjectV)
    requires
        forall|j: int| 0 <= j < ps.len() ==> tame_val(ps[j].1),
        tame_val(v),
    ensures
        ({
            let r = hash_insert(ps, k, v);
            forall|j: int| 0 <= j < r.len() ==> tame_val(r[j].1)
        }),
    decreases ps.len(),
{
    if ps.len() > 0 && ps[0].0 != k {
        lemma_hash_insert_tame(ps.drop_first(), k, v);
        let r = hash_insert(ps, k, v);
        let inner = hash_insert(ps.drop_first(), k, v);
        assert forall|j: int| 0 <= j < r.len() implies tame_val(r[j].1) by {
            if j == 0 {
                assert(r[j] == ps[0]);
            } else {
                assert(r[j] == inner[j - 1]);
            }
        }
    }
}

/// Binding a tame value in a tame state keeps the state tame.
proof fn lemma_set_in_tame(st: StateV, cur: int, name: Seq<char>, v: ObjectV)
    requires
        tame_state(st),
        tame_val(v),
    ensures
        tame_state(set_in(st, cur, name, v)),
{
    lemma_tame_envs_from(st.envs, 0);
    if 0 <= cur < st.envs.len() {
        let st1 = set_in(st, cur, name, v);
        lemma_tame_bindings_from(st.envs[cur].store, 0);
        lemma_tame_bindings_from(st1.envs[cur].store, 0);
        lemma_tame_envs_from(st1.envs, 0);
    }
}

/// A frame binding tame arguments is a tame context.
proof fn lemma_params_store_tame(params: Seq<Seq<char>>, args: Seq<ObjectV>)
    requires
        params.len() == args.len(),
        forall|j: int| 0 <= j < args.len() ==> tame_val(args[j]),
    ensures
        ({
            let store = params_store(params, args, 0);
            forall|j: int| 0 <= j < store.len() ==> tame_val(store[j].1)
        }),
{
    lemma_params_store(params, args, 0);
}

/// Prefix operators on tame values give tame, carrier-free values.
proof fn lemma_eval_prefix_tame(op: Seq<char>, r: ObjectV)
    requires
        tame_val(r),
    ensures
        tame_val(eval_prefix(op, r)),
        !(eval_prefix(op, r) is ReturnValue),
{
}

/// Infix operators on tame values give tame, carrier-free values.
proof fn lemma_eval_infix_tame(op: Seq<char>, l: ObjectV, r: ObjectV)
    requires
        tame_val(l),
        tame_val(r),
    ensures
        tame_val(eval_infix(op, l, r)),
        !(eval_infix(op, l, r) is ReturnValue),
{
}

/// Indexing tame values gives a tame, carrier-free value.
proof fn lemma_eval_index_tame(l: ObjectV, ix: ObjectV)
    requires
        tame_val(l),
        tame_val(ix),
    ensures
        tame_val(eval_index(l, ix)),
        !(eval_index(l, ix) is ReturnValue),
{
    match l {
        ObjectV::Array(es) => {
            lemma_tame_vals_from(es, 0);
        },
        ObjectV::Hash(ps) => {
            lemma_tame_hvals_from(ps, 0);
            match hash_key_of(ix) {
                Some(k) => {
                    lemma_hash_lookup_tame(ps, k);
                },
                None => {},
            }
        },
        _ => {},
    }
}

/// A built-in run on tame arguments returns a tame, carrier-free value.
proof fn lemma_builtin_tame(name: Seq<char>, args: Seq<ObjectV>, out: Seq<Seq<char>>)
    requires
        forall|j: int| 0 <= j < args.len() ==> tame_val(args[j]),
    ensures
        tame_val(builtin_apply(name, args, out).0),
        !(builtin_apply(name, args, out).0 is ReturnValue),
{
    if args.len() >= 1 {
        match args[0] {
            ObjectV::Array(es) => {
                lemma_tame_vals_from(es, 0);
                lemma_tame_vals_from(es.drop_first(), 0);
                if args.len() >= 2 {
                    lemma_tame_vals_from(es.push(args[1]), 0);
                }
            },
            _ => {},
        }
    }
}

/// A carrier-free expression reduces, under a tame state, to a tame value
/// that is never a carrier, and leaves the state tame.
proof fn t_expr(st: StateV, cur: int, e: ExpressionV, fuel: nat)
    requires
        tame_state(st),
        nc_expr(e),
    ensures
        ({
            let (v, st1) = eval_expr(st, cur, e, fuel);
            tame_val(v) && !(v is ReturnValue) && tame_state(st1)
        }),
    decreases fuel, expr_size(e), 0int,
{
    match e {
        ExpressionV::Identifier { name } => {
            lemma_tame_envs_from(st.envs, 0);
            lemma_lookup_tame(st.envs, cur, name);
                },
        ExpressionV::IntegerLiteral { .. } => {},
        ExpressionV::StringLiteral { .. } => {},
        ExpressionV::Boolean { .. } => {},
        ExpressionV::ArrayLiteral { elements } => {
            t_exprs(st, cur, elements, 0, fuel);
            let (vs, st1) = eval_exprs(st, cur, elements, 0, fuel);
            lemma_tame_vals_from(vs, 0);
                },
        ExpressionV::HashLiteral { members } => {
            t_hash(st, cur, members, 0, seq![], fuel);
                },
        ExpressionV::Index { left, index } => {
            t_expr(st, cur, *left, fuel);
            let (l, st1) = eval_expr(st, cur, *left, fuel);
            if !is_error(l) {
                t_expr(st1, cur, *index, fuel);
                let (ix, st2) = eval_expr(st1, cur, *index, fuel);
                if !is_error(ix) {
                    lemma_eval_index_tame(l, ix);
                }
            }

        },
        ExpressionV::Prefix { operator, right } => {
            t_expr(st, cur, *right, fuel);
            let (r, st1) = eval_expr(st, cur, *right, fuel);
            if !is_error(r) {
                lemma_eval_prefix_tame(operator, r);
            }

        },
        ExpressionV::Infix { operator, left, right } => {
            t_expr(st, cur, *left, fuel);
            let (l, st1) = eval_expr(st, cur, *left, fuel);
            if !is_error(l) {
                t_expr(st1, cur, *right, fuel);
                let (r, st2) = eval_expr(st1, cur, *right, fuel);
                if !is_error(r) {
                    lemma_eval_infix_tame(operator, l, r);
                }
            }

        },
        ExpressionV::If { condition, consequence, alternative } => {
            t_expr(st, cur, *condition, fuel);
            let (c, st1) = eval_expr(st, cur, *condition, fuel);
            if !is_error(c) {
                if truthy(c) {
                    assert(block_size(consequence) == 1 + stmts_weight(consequence.statements, 0));
                    t_block_nc(st1, cur, consequence.statements, 0, fuel);
                    assert(eval_node(st1, cur, NodeV::BlockStatement(consequence), fuel)
                        == eval_block(st1, cur, consequence.statements, 0, fuel));
                } else {
                    match alternative {
                        Some(alt) => {
                            assert(block_size(alt) == 1 + stmts_weight(alt.statements, 0));
                            t_block_nc(st1, cur, alt.statements, 0, fuel);
                            assert(eval_node(st1, cur, NodeV::BlockStatement(alt), fuel)
                                == eval_block(st1, cur, alt.statements, 0, fuel));
                        },
                        None => {},
                    }
                }
            }
        },
        ExpressionV::Call { function, arguments } => {
            t_expr(st, cur, *function, fuel);
            let (f, st1) = eval_expr(st, cur, *function, fuel);
            if !is_error(f) {
                match f {
                    ObjectV::Function(fv) => {
                        t_exprs(st1, cur, arguments, 0, fuel);
                        let (args, st2) = eval_exprs(st1, cur, arguments, 0, fuel);
                        if !(args.len() == 1 && is_error(args[0])) {
                            t_apply(st2, fv, args, fuel);
                        }
                    },
                    ObjectV::BuiltinFunction(name) => {
                        t_exprs(st1, cur, arguments, 0, fuel);
                        let (args, st2) = eval_exprs(st1, cur, arguments, 0, fuel);
                        if !(args.len() == 1 && is_error(args[0])) {
                            lemma_builtin_tame(name, args, st2.out);
                        }
                    },
                    _ => {},
                }
            }
        },
        ExpressionV::FunctionLiteral { .. } => {},
    }
}

/// Carrier-free expression lists reduce to tame, carrier-free values.
proof fn t_exprs(st: StateV, cur: int, es: Seq<ExpressionV>, i: int, fuel: nat)
    requires
        tame_state(st),
        nc_exprs_from(es, i),
        0 <= i <= es.len(),
    ensures
        ({
            let (vs, st1) = eval_exprs(st, cur, es, i, fuel);
            (forall|j: int| 0 <= j < vs.len() ==> tame_val(vs[j]) && !(vs[j] is ReturnValue))
                && tame_state(st1)
        }),
    decreases fuel, exprs_weight(es, i), 0int,
{
    if i < es.len() {
        t_expr(st, cur, es[i], fuel);
        let (v, st1) = eval_expr(st, cur, es[i], fuel);
        if !is_error(v) {
            t_exprs(st1, cur, es, i + 1, fuel);
            let (rest, st2) = eval_exprs(st1, cur, es, i + 1, fuel);
            if !(rest.len() == 1 && is_error(rest[0])) {
                let whole = seq![v] + rest;
                assert forall|j: int|
                    0 <= j < whole.len() implies tame_val(whole[j]) && !(whole[j]
                    is ReturnValue) by {
                    if j > 0 {
                        assert(whole[j] == rest[j - 1]);
                    }
                }
            }
        }
    }
}

/// A hash literal over carrier-free members and a tame accumulator reduces
/// to a tame, carrier-free value.
proof fn t_hash(
    st: StateV,
    cur: int,
    ms: Seq<(ExpressionV, ExpressionV)>,
    i: int,
    acc: Seq<(HashKeyV, ObjectV)>,
    fuel: nat,
)
    requires
        tame_state(st),
        nc_pairs_from(ms, i),
        0 <= i <= ms.len(),
        forall|j: int| 0 <= j < acc.len() ==> tame_val(acc[j].1),
    ensures
        ({
            let (r, st1) = eval_hash(st, cur, ms, i, acc, fuel);
            tame_val(r) && !(r is ReturnValue) && tame_state(st1)
        }),
    decreases fuel, pairs_weight(ms, i), 0int,
{
    if i < ms.len() {
        t_expr(st, cur, ms[i].0, fuel);
        let (k, st1) = eval_expr(st, cur, ms[i].0, fuel);
        if !is_error(k) {
            match hash_key_of(k) {
                None => {},
                Some(hk) => {
                    t_expr(st1, cur, ms[i].1, fuel);
                    let (v, st2) = eval_expr(st1, cur, ms[i].1, fuel);
                    if !is_error(v) {
                        lemma_hash_insert_tame(acc, hk, v);
                        t_hash(st2, cur, ms, i + 1, hash_insert(acc, hk, v), fuel);
                    }
                },
            }
        }
    } else {
        lemma_tame_hvals_from(acc, 0);
    }
}

/// A tame statement reduces to a tame value or a single carrier around one,
/// and leaves the state tame.
proof fn t_stmt(st: StateV, cur: int, s: StatementV, fuel: nat)
    requires
        tame_state(st),
        tame_stmt(s),
    ensures
        ({
            let (v, st1) = eval_stmt(st, cur, s, fuel);
            carrier_ok(v) && tame_state(st1)
        }),
    decreases fuel, stmt_size(s), 0int,
{
    match s {
        StatementV::Let { name, value } => {
            t_expr(st, cur, value, fuel);
            let (v, st1) = eval_expr(st, cur, value, fuel);
            if !is_error(v) {
                lemma_set_in_tame(st1, cur, name, v);
            }
        },
        StatementV::Return { value } => {
            t_expr(st, cur, value, fuel);
        },
        StatementV::Expression { value } => {
            t_stmt_expr(st, cur, value, fuel);
        },
    }
}

/// A statement that can never yield a carrier reduces to a tame,
/// carrier-free value.
proof fn t_stmt_nc(st: StateV, cur: int, s: StatementV, fuel: nat)
    requires
        tame_state(st),
        nc_stmt(s),
    ensures
        ({
            let (v, st1) = eval_stmt(st, cur, s, fuel);
            tame_val(v) && !(v is ReturnValue) && tame_state(st1)
        }),
    decreases fuel, stmt_size(s), 1int,
{
    match s {
        StatementV::Let { name, value } => {
            t_expr(st, cur, value, fuel);
            let (v, st1) = eval_expr(st, cur, value, fuel);
            if !is_error(v) {
                lemma_set_in_tame(st1, cur, name, v);
            }
        },
        StatementV::Return { .. } => {},
        StatementV::Expression { value } => {
            t_expr(st, cur, value, fuel);
        },
    }
}

/// A tame expression in statement position reduces to a tame value or a
/// single carrier: an `if` block may return, everything else is
/// carrier-free.
proof fn t_stmt_expr(st: StateV, cur: int, e: ExpressionV, fuel: nat)
    requires
        tame_state(st),
        stmt_expr_tame(e),
    ensures
        ({
            let (v, st1) = eval_expr(st, cur, e, fuel);
            carrier_ok(v) && tame_state(st1)
        }),
    decreases fuel, expr_size(e), 1int,
{
    match e {
        ExpressionV::If { condition, consequence, alternative } => {
            t_expr(st, cur, *condition, fuel);
            let (c, st1) = eval_expr(st, cur, *condition, fuel);
            if !is_error(c) {
                if truthy(c) {
                    assert(block_size(consequence) == 1 + stmts_weight(consequence.statements, 0));
                    t_block(st1, cur, consequence.statements, 0, fuel);
                    assert(eval_node(st1, cur, NodeV::BlockStatement(consequence), fuel)
                        == eval_block(st1, cur, consequence.statements, 0, fuel));
                } else {
                    match alternative {
                        Some(alt) => {
                            assert(block_size(alt) == 1 + stmts_weight(alt.statements, 0));
                            t_block(st1, cur, alt.statements, 0, fuel);
                            assert(eval_node(st1, cur, NodeV::BlockStatement(alt), fuel)
                                == eval_block(st1, cur, alt.statements, 0, fuel));
                        },
                        None => {},
                    }
                }
            }
        },
        _ => {
            t_expr(st, cur, e, fuel);
        },
    }
}

/// A block of tame statements yields a tame value or a single carrier.
proof fn t_block(st: StateV, cur: int, ss: Seq<StatementV>, i: int, fuel: nat)
    requires
        tame_state(st),
        tame_stmts_from(ss, i),
        0 <= i <= ss.len(),
    ensures
        ({
            let (v, st1) = eval_block(st, cur, ss, i, fuel);
            carrier_ok(v) && tame_state(st1)
        }),
    decreases fuel, stmts_weight(ss, i), 0int,
{
    if i < ss.len() {
        t_stmt(st, cur, ss[i], fuel);
        let (v, st1) = eval_stmt(st, cur, ss[i], fuel);
        match v {
            ObjectV::ReturnValue(..) => {},
            ObjectV::RuntimeError(..) => {},
            _ => {
                if i + 1 < ss.len() {
                    t_block(st1, cur, ss, i + 1, fuel);
                }
            },
        }
    }
}

/// A block of carrier-free statements yields a tame, carrier-free value.
proof fn t_block_nc(st: StateV, cur: int, ss: Seq<StatementV>, i: int, fuel: nat)
    requires
        tame_state(st),
        nc_stmts_from(ss, i),
        0 <= i <= ss.len(),
    ensures
        ({
            let (v, st1) = eval_block(st, cur, ss, i, fuel);
            tame_val(v) && !(v is ReturnValue) && tame_state(st1)
        }),
    decreases fuel, stmts_weight(ss, i), 1int,
{
    if i < ss.len() {
        t_stmt_nc(st, cur, ss[i], fuel);
        let (v, st1) = eval_stmt(st, cur, ss[i], fuel);
        match v {
            ObjectV::ReturnValue(..) => {},
            ObjectV::RuntimeError(..) => {},
            _ => {
                if i + 1 < ss.len() {
                    t_block_nc(st1, cur, ss, i + 1, fuel);
                }
            },
        }
    }
}

/// A top-level run of tame statements never surfaces a carrier: the one
/// carrier a tame `return` makes is unwrapped at the program boundary.
proof fn t_program(st: StateV, cur: int, ss: Seq<StatementV>, i: int, fuel: nat)
    requires
        tame_state(st),
        tame_stmts_from(ss, i),
        0 <= i <= ss.len(),
    ensures
        ({
            let (v, st1) = eval_program(st, cur, ss, i, fuel);
            tame_val(v) && !(v is ReturnValue) && tame_state(st1)
        }),
    decreases fuel, stmts_weight(ss, i), 0int,
{
    if i < ss.len() {
        t_stmt(st, cur, ss[i], fuel);
        let (v, st1) = eval_stmt(st, cur, ss[i], fuel);
        match v {
            ObjectV::ReturnValue(..) => {},
            ObjectV::RuntimeError(..) => {},
            _ => {
                if i + 1 < ss.len() {
                    t_program(st1, cur, ss, i + 1, fuel);
                }
            },
        }
    }
}

/// Applying a tame function to tame arguments yields a tame, carrier-free
/// value: the body's one carrier is unwrapped at the function boundary.
proof fn t_apply(st: StateV, f: crate::object::FunctionV, args: Seq<ObjectV>, fuel: nat)
    requires
        tame_state(st),
        tame_stmts_from(f.body.statements, 0),
        forall|j: int| 0 <= j < args.len() ==> tame_val(args[j]),
    ensures
        ({
            let (r, st2) = apply_function(st, f, args, fuel);
            tame_val(r) && !(r is ReturnValue) && tame_state(st2)
        }),
    decreases fuel, 0int, 0int,
{
    if f.parameters.len() == args.len() && fuel > 0 {
        let frame = EnvironmentV {
            store: params_store(f.parameters, args, 0),
            parent: Some(f.env),
        };
        lemma_params_store_tame(f.parameters, args);
        lemma_tame_bindings_from(frame.store, 0);
        let st1 = StateV { envs: st.envs.push(frame), out: st.out };
        lemma_tame_envs_from(st.envs, 0);
        lemma_tame_envs_from(st1.envs, 0);
        t_block(st1, st.envs.len() as int, f.body.statements, 0, (fuel - 1) as nat);
    }
}

/// Totality: on a tame program — one whose `return` and `let` operands are
/// carrier-free — evaluation yields a value that is never a `RETURN_VALUE`,
/// and leaves every binding context free of carriers.  (Without the
/// tameness premise this fails: `return` of an `if` block that itself
/// returns wraps a carrier in a carrier, and the single top-level unwrap
/// surfaces the inner one.)
pub proof fn lemma_totality(st: StateV, cur: int, p: ProgramV, fuel: nat)
    requires
        tame_state(st),
        tame_stmts_from(p.statements, 0),
    ensures
        ({
            let (v, st1) = eval_node(st, cur, NodeV::Program(p), fuel);
            !(v is ReturnValue) && tame_val(v) && tame_state(st1)
        }),
{
    t_program(st, cur, p.statements, 0, fuel);
}

} // verus!
