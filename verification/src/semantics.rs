//! The meaning of the language, as a mathematical interpreter.
//!
//! `eval_node` reduces a syntax-tree view under an evaluation state: the
//! arena of binding contexts and the output written so far.  Evaluation is
//! bounded by a fuel that pays for function applications only; when it runs
//! out, the result is a runtime error, which propagates like any other.  The
//! executable evaluator is proved to return exactly what these functions
//! prescribe.

use vstd::prelude::*;
use crate::ast::{NodeV, StatementV, ExpressionV, node_size, stmt_size, expr_size, stmts_weight,
    exprs_weight, pairs_weight};
use crate::object::{ObjectV, FunctionV, HashKeyV, kind_chars, hash_key_of, display_chars};
use crate::environment::{EnvironmentV, store_get};
use crate::builtin::{is_builtin_name, builtin_apply, wrong_args_msg};

verus! {

/// The whole evaluation state: the context arena and the lines written by
/// `puts`.
#[verifier::ext_equal]
pub struct StateV {
    pub envs: Seq<EnvironmentV>,
    pub out: Seq<Seq<char>>,
}

/// A runtime error carrying `msg`.
pub open spec fn err(msg: Seq<char>) -> ObjectV {
    ObjectV::RuntimeError(msg)
}

/// Whether a value is a runtime error.
pub open spec fn is_error(v: ObjectV) -> bool {
    v is RuntimeError
}

/// Truthiness: `null` and `false` are falsy, every other value is truthy.
pub open spec fn truthy(v: ObjectV) -> bool {
    match v {
        ObjectV::Null => false,
        ObjectV::Boolean(b) => b,
        _ => true,
    }
}

/// Whether two values have the same kind.
pub open spec fn same_kind(l: ObjectV, r: ObjectV) -> bool {
    match (l, r) {
        (ObjectV::Integer(..), ObjectV::Integer(..)) => true,
        (ObjectV::Boolean(..), ObjectV::Boolean(..)) => true,
        (ObjectV::Str(..), ObjectV::Str(..)) => true,
        (ObjectV::Null, ObjectV::Null) => true,
        (ObjectV::Array(..), ObjectV::Array(..)) => true,
        (ObjectV::Hash(..), ObjectV::Hash(..)) => true,
        (ObjectV::Function(..), ObjectV::Function(..)) => true,
        (ObjectV::BuiltinFunction(..), ObjectV::BuiltinFunction(..)) => true,
        (ObjectV::ReturnValue(..), ObjectV::ReturnValue(..)) => true,
        (ObjectV::RuntimeError(..), ObjectV::RuntimeError(..)) => true,
        _ => false,
    }
}

/// Structural equality under the language's `==`: by payload for the three
/// primitive kinds and `null`; other kinds compare unequal.
pub open spec fn obj_eq(l: ObjectV, r: ObjectV) -> bool {
    match (l, r) {
        (ObjectV::Integer(a), ObjectV::Integer(b)) => a == b,
        (ObjectV::Boolean(a), ObjectV::Boolean(b)) => a == b,
        (ObjectV::Str(a), ObjectV::Str(b)) => a == b,
        (ObjectV::Null, ObjectV::Null) => true,
        _ => false,
    }
}

/// The value bound to `name` in the context at `idx`, walking the parent
/// chain.  A parent link that does not point at an earlier context ends the
/// walk; the evaluator never creates such a link.
pub open spec fn lookup_env(envs: Seq<EnvironmentV>, idx: int, name: Seq<char>) -> Option<ObjectV>
    decreases idx,
{
    if 0 <= idx < envs.len() {
        match store_get(envs[idx].store, name) {
            Some(v) => Some(v),
            None => match envs[idx].parent {
                Some(p) => if 0 <= p < idx {
                    lookup_env(envs, p, name)
                } else {
                    None
                },
                None => None,
            },
        }
    } else {
        None
    }
}

/// Binds `name` to `v` in the context at `cur`.
pub open spec fn set_in(st: StateV, cur: int, name: Seq<char>, v: ObjectV) -> StateV {
    if 0 <= cur < st.envs.len() {
        StateV {
            envs: st.envs.update(
                cur,
                EnvironmentV {
                    store: st.envs[cur].store.push((name, v)),
                    parent: st.envs[cur].parent,
                },
            ),
            out: st.out,
        }
    } else {
        st
    }
}

/// The result of looking up an identifier: a bound value, a handle on a
/// registered built-in, or an `identifier not found` error.
pub open spec fn eval_identifier(st: StateV, cur: int, name: Seq<char>) -> ObjectV {
    match lookup_env(st.envs, cur, name) {
        Some(v) => v,
        None => if is_builtin_name(name) {
            ObjectV::BuiltinFunction(name)
        } else {
            err("identifier not found: "@ + name)
        },
    }
}

/// The `!` operator: negates booleans, keeps `null`, and maps every other
/// value to `false`.
pub open spec fn eval_bang(right: ObjectV) -> ObjectV {
    match right {
        ObjectV::Boolean(b) => ObjectV::Boolean(!b),
        ObjectV::Null => ObjectV::Null,
        _ => ObjectV::Boolean(false),
    }
}

/// The prefix `-` operator: negates integers (wrapping at the boundary) and
/// rejects everything else.
pub open spec fn eval_minus(right: ObjectV) -> ObjectV {
    match right {
        ObjectV::Integer(n) => ObjectV::Integer((0i64).wrapping_sub(n)),
        _ => err("unknown operator: -"@ + kind_chars(right)),
    }
}

/// Prefix operator dispatch.
pub open spec fn eval_prefix(op: Seq<char>, right: ObjectV) -> ObjectV {
    if op == "!"@ {
        eval_bang(right)
    } else if op == "-"@ {
        eval_minus(right)
    } else {
        err("unknown operator: "@ + op + kind_chars(right))
    }
}

/// Infix operators over two integers: wrapping arithmetic, truncating
/// division (an error on a zero divisor), and comparisons.
pub open spec fn eval_integer_infix(op: Seq<char>, l: i64, r: i64) -> ObjectV {
    if op == "+"@ {
        ObjectV::Integer(l.wrapping_add(r))
    } else if op == "-"@ {
        ObjectV::Integer(l.wrapping_sub(r))
    } else if op == "*"@ {
        ObjectV::Integer(l.wrapping_mul(r))
    } else if op == "/"@ {
        if r == 0 {
            err("division by zero"@)
        } else {
            match l.checked_div(r) {
                Some(q) => ObjectV::Integer(q),
                None => ObjectV::Integer(i64::MIN),
            }
        }
    } else if op == "<"@ {
        ObjectV::Boolean(l < r)
    } else if op == ">"@ {
        ObjectV::Boolean(l > r)
    } else if op == "=="@ {
        ObjectV::Boolean(l == r)
    } else if op == "!="@ {
        ObjectV::Boolean(l != r)
    } else {
        err("unknown operator: INTEGER "@ + op + " INTEGER"@)
    }
}

/// Infix operators over two strings: `+` concatenates, everything else is an
/// unknown operator.
pub open spec fn eval_string_infix(op: Seq<char>, l: Seq<char>, r: Seq<char>) -> ObjectV {
    if op == "+"@ {
        ObjectV::Str(l + r)
    } else {
        err("unknown operator: STRING "@ + op + " STRING"@)
    }
}

/// Infix operator dispatch: a kind mismatch is an error; integer and string
/// pairs have their own tables; the remaining same-kind pairs admit `==` and
/// `!=` only.
pub open spec fn eval_infix(op: Seq<char>, l: ObjectV, r: ObjectV) -> ObjectV {
    if !same_kind(l, r) {
        err("type mismatch: "@ + kind_chars(l) + " "@ + op + " "@ + kind_chars(r))
    } else {
        match (l, r) {
            (ObjectV::Integer(a), ObjectV::Integer(b)) => eval_integer_infix(op, a, b),
            (ObjectV::Str(a), ObjectV::Str(b)) => eval_string_infix(op, a, b),
            _ => {
                if op == "=="@ {
                    ObjectV::Boolean(obj_eq(l, r))
                } else if op == "!="@ {
                    ObjectV::Boolean(!obj_eq(l, r))
                } else {
                    err("unknown operator: "@ + kind_chars(l) + " "@ + op + " "@ + kind_chars(r))
                }
            },
        }
    }
}

/// The value stored under `k` in a hash's pair list, if any.
pub open spec fn hash_lookup(ps: Seq<(HashKeyV, ObjectV)>, k: HashKeyV) -> Option<ObjectV>
    decreases ps.len(),
{
    if ps.len() == 0 {
        None
    } else if ps[0].0 == k {
        Some(ps[0].1)
    } else {
        hash_lookup(ps.drop_first(), k)
    }
}

/// Inserts `k -> v`, overwriting an earlier entry for `k` in place.
pub open spec fn hash_insert(ps: Seq<(HashKeyV, ObjectV)>, k: HashKeyV, v: ObjectV) -> Seq<
    (HashKeyV, ObjectV),
>
    decreases ps.len(),
{
    if ps.len() == 0 {
        seq![(k, v)]
    } else if ps[0].0 == k {
        seq![(k, v)] + ps.drop_first()
    } else {
        seq![ps[0]] + hash_insert(ps.drop_first(), k, v)
    }
}

/// Index dispatch: arrays by integer (out of range is `null`), hashes by a
/// key-eligible value (a miss is `null`), everything else an error.
pub open spec fn eval_index(l: ObjectV, ix: ObjectV) -> ObjectV {
    match l {
        ObjectV::Array(es) => match ix {
            ObjectV::Integer(i) => if i < 0 || i >= es.len() {
                ObjectV::Null
            } else {
                es[i as int]
            },
            _ => err("index is not a integer: "@ + kind_chars(ix)),
        },
        ObjectV::Hash(ps) => match hash_key_of(ix) {
            Some(k) => match hash_lookup(ps, k) {
                Some(v) => v,
                None => ObjectV::Null,
            },
            None => err("only string, integer and boolean can be hash key, found "@ + kind_chars(
                ix,
            )),
        },
        _ => err("index operator not supported: "@ + kind_chars(l)),
    }
}

/// A return carrier is unwrapped once; every other value passes unchanged.
pub open spec fn unwrap_return(v: ObjectV) -> ObjectV {
    match v {
        ObjectV::ReturnValue(rv) => *rv,
        _ => v,
    }
}

/// The store of a fresh call frame: each parameter bound to its argument.
pub open spec fn params_store(params: Seq<Seq<char>>, args: Seq<ObjectV>, i: int) -> Seq<
    (Seq<char>, ObjectV),
>
    decreases params.len() - i,
{
    if 0 <= i < params.len() && i < args.len() {
        seq![(params[i], args[i])] + params_store(params, args, i + 1)
    } else {
        seq![]
    }
}

/// `params_store(params, args, i)` binds `params[i..]` to `args[i..]`,
/// positionally, when the two lists have the same length.
pub proof fn lemma_params_store(params: Seq<Seq<char>>, args: Seq<ObjectV>, i: int)
    requires
        0 <= i <= params.len(),
        params.len() == args.len(),
    ensures
        params_store(params, args, i).len() == params.len() - i,
        forall|j: int|
            0 <= j < params.len() - i ==> params_store(params, args, i)[j] == (
                params[i + j],
                args[i + j],
            ),
    decreases params.len() - i,
{
    if i < params.len() {
        lemma_params_store(params, args, i + 1);
    }
}

/// The message of the error produced when fuel runs out.
pub open spec fn fuel_msg() -> Seq<char> {
    "call depth limit reached"@
}

/// Reduction of a node of any category.
pub open spec fn eval_node(st: StateV, cur: int, node: NodeV, fuel: nat) -> (ObjectV, StateV)
    decreases fuel, node_size(node),
{
    match node {
        NodeV::Program(p) => eval_program(st, cur, p.statements, 0, fuel),
        NodeV::Statement(s) => eval_stmt(st, cur, s, fuel),
        NodeV::BlockStatement(b) => eval_block(st, cur, b.statements, 0, fuel),
        NodeV::Expression(e) => eval_expr(st, cur, e, fuel),
    }
}

/// Top-level statement iteration: a return carrier is unwrapped and ends the
/// program, an error ends it raw, and otherwise the last value stands.
pub open spec fn eval_program(st: StateV, cur: int, ss: Seq<StatementV>, i: int, fuel: nat) -> (
    ObjectV,
    StateV,
)
    decreases fuel, stmts_weight(ss, i),
{
    if 0 <= i < ss.len() {
        let (v, st1) = eval_stmt(st, cur, ss[i], fuel);
        match v {
            ObjectV::ReturnValue(rv) => (*rv, st1),
            ObjectV::RuntimeError(..) => (v, st1),
            _ => if i + 1 < ss.len() {
                eval_program(st1, cur, ss, i + 1, fuel)
            } else {
                (v, st1)
            },
        }
    } else {
        (ObjectV::Null, st)
    }
}

/// Block iteration: as at the top level, except that a return carrier is
/// passed along unopened, so that it escapes to the nearest function frame.
pub open spec fn eval_block(st: StateV, cur: int, ss: Seq<StatementV>, i: int, fuel: nat) -> (
    ObjectV,
    StateV,
)
    decreases fuel, stmts_weight(ss, i),
{
    if 0 <= i < ss.len() {
        let (v, st1) = eval_stmt(st, cur, ss[i], fuel);
        match v {
            ObjectV::ReturnValue(..) => (v, st1),
            ObjectV::RuntimeError(..) => (v, st1),
            _ => if i + 1 < ss.len() {
                eval_block(st1, cur, ss, i + 1, fuel)
            } else {
                (v, st1)
            },
        }
    } else {
        (ObjectV::Null, st)
    }
}

/// Reduction of one statement.
pub open spec fn eval_stmt(st: StateV, cur: int, s: StatementV, fuel: nat) -> (ObjectV, StateV)
    decreases fuel, stmt_size(s),
{
    match s {
        StatementV::Expression { value } => eval_expr(st, cur, value, fuel),
        StatementV::Return { value } => {
            let (v, st1) = eval_expr(st, cur, value, fuel);
            if is_error(v) {
                (v, st1)
            } else {
                (ObjectV::ReturnValue(Box::new(v)), st1)
            }
        },
        StatementV::Let { name, value } => {
            let (v, st1) = eval_expr(st, cur, value, fuel);
            if is_error(v) {
                (v, st1)
            } else {
                (v, set_in(st1, cur, name, v))
            }
        },
    }
}

/// Left-to-right reduction of an expression list; the first error replaces
/// the whole list by the one-element list holding it.
pub open spec fn eval_exprs(st: StateV, cur: int, es: Seq<ExpressionV>, i: int, fuel: nat) -> (
    Seq<ObjectV>,
    StateV,
)
    decreases fuel, exprs_weight(es, i),
{
    if 0 <= i < es.len() {
        let (v, st1) = eval_expr(st, cur, es[i], fuel);
        if is_error(v) {
            (seq![v], st1)
        } else {
            let (rest, st2) = eval_exprs(st1, cur, es, i + 1, fuel);
            if rest.len() == 1 && is_error(rest[0]) {
                (rest, st2)
            } else {
                (seq![v] + rest, st2)
            }
        }
    } else {
        (seq![], st)
    }
}

/// Hash-literal reduction: keys and values in source order, short-circuiting
/// on errors and rejecting keys that are not key-eligible; later duplicate
/// keys overwrite earlier entries.
pub open spec fn eval_hash(
    st: StateV,
    cur: int,
    ms: Seq<(ExpressionV, ExpressionV)>,
    i: int,
    acc: Seq<(HashKeyV, ObjectV)>,
    fuel: nat,
) -> (ObjectV, StateV)
    decreases fuel, pairs_weight(ms, i),
{
    if 0 <= i < ms.len() {
        let (k, st1) = eval_expr(st, cur, ms[i].0, fuel);
        if is_error(k) {
            (k, st1)
        } else {
            match hash_key_of(k) {
                None => (
                    err("only string, integer and boolean can be hash key, found "@ + kind_chars(
                        k,
                    )),
                    st1,
                ),
                Some(hk) => {
                    let (v, st2) = eval_expr(st1, cur, ms[i].1, fuel);
                    if is_error(v) {
                        (v, st2)
                    } else {
                        eval_hash(st2, cur, ms, i + 1, hash_insert(acc, hk, v), fuel)
                    }
                },
            }
        }
    } else {
        (ObjectV::Hash(acc), st)
    }
}

/// Function application: a fresh frame whose parent is the function's
/// captured context (lexical scope), parameters bound positionally, the body
/// run as a block, and a resulting return carrier unwrapped once.
pub open spec fn apply_function(st: StateV, f: FunctionV, args: Seq<ObjectV>, fuel: nat) -> (
    ObjectV,
    StateV,
)
    decreases fuel, 0int,
{
    if f.parameters.len() != args.len() {
        (err(wrong_args_msg(args.len() as int, f.parameters.len() as int)), st)
    } else if fuel == 0 {
        (err(fuel_msg()), st)
    } else {
        let frame = EnvironmentV {
            store: params_store(f.parameters, args, 0),
            parent: Some(f.env),
        };
        let st1 = StateV { envs: st.envs.push(frame), out: st.out };
        let (v, st2) = eval_block(
            st1,
            st.envs.len() as int,
            f.body.statements,
            0,
            (fuel - 1) as nat,
        );
        (unwrap_return(v), st2)
    }
}

/// Reduction of one expression.
pub open spec fn eval_expr(st: StateV, cur: int, e: ExpressionV, fuel: nat) -> (ObjectV, StateV)
    decreases fuel, expr_size(e),
{
    match e {
        ExpressionV::Identifier { name } => (eval_identifier(st, cur, name), st),
        ExpressionV::IntegerLiteral { value } => (ObjectV::Integer(value), st),
        ExpressionV::StringLiteral { value } => (ObjectV::Str(value), st),
        ExpressionV::Boolean { value } => (ObjectV::Boolean(value), st),
        ExpressionV::ArrayLiteral { elements } => {
            let (vs, st1) = eval_exprs(st, cur, elements, 0, fuel);
            if vs.len() == 1 && is_error(vs[0]) {
                (vs[0], st1)
            } else {
                (ObjectV::Array(vs), st1)
            }
        },
        ExpressionV::HashLiteral { members } => eval_hash(st, cur, members, 0, seq![], fuel),
        ExpressionV::Index { left, index } => {
            let (l, st1) = eval_expr(st, cur, *left, fuel);
            if is_error(l) {
                (l, st1)
            } else {
                let (ix, st2) = eval_expr(st1, cur, *index, fuel);
                if is_error(ix) {
                    (ix, st2)
                } else {
                    (eval_index(l, ix), st2)
                }
            }
        },
        ExpressionV::Prefix { operator, right } => {
            let (r, st1) = eval_expr(st, cur, *right, fuel);
            if is_error(r) {
                (r, st1)
            } else {
                (eval_prefix(operator, r), st1)
            }
        },
        ExpressionV::Infix { operator, left, right } => {
            let (l, st1) = eval_expr(st, cur, *left, fuel);
            if is_error(l) {
                (l, st1)
            } else {
                let (r, st2) = eval_expr(st1, cur, *right, fuel);
                if is_error(r) {
                    (r, st2)
                } else {
                    (eval_infix(operator, l, r), st2)
                }
            }
        },
        ExpressionV::If { condition, consequence, alternative } => {
            let (c, st1) = eval_expr(st, cur, *condition, fuel);
            if is_error(c) {
                (c, st1)
            } else if truthy(c) {
                eval_node(st1, cur, NodeV::BlockStatement(consequence), fuel)
            } else {
                match alternative {
                    Some(alt) => eval_node(st1, cur, NodeV::BlockStatement(alt), fuel),
                    None => (ObjectV::Null, st1),
                }
            }
        },
        ExpressionV::Call { function, arguments } => {
            let (f, st1) = eval_expr(st, cur, *function, fuel);
            if is_error(f) {
                (f, st1)
            } else {
                match f {
                    ObjectV::Function(fv) => {
                        let (args, st2) = eval_exprs(st1, cur, arguments, 0, fuel);
                        if args.len() == 1 && is_error(args[0]) {
                            (args[0], st2)
                        } else {
                            apply_function(st2, fv, args, fuel)
                        }
                    },
                    ObjectV::BuiltinFunction(name) => {
                        let (args, st2) = eval_exprs(st1, cur, arguments, 0, fuel);
                        if args.len() == 1 && is_error(args[0]) {
                            (args[0], st2)
                        } else {
                            let (r, out2) = builtin_apply(name, args, st2.out);
                            (r, StateV { envs: st2.envs, out: out2 })
                        }
                    },
                    _ => (err("Not a function: "@ + kind_chars(f)), st1),
                }
            }
        },
        ExpressionV::FunctionLiteral { parameters, body } => (
            ObjectV::Function(FunctionV { parameters, body, env: cur }),
            st,
        ),
    }
}

} // verus!
