//! Laws of the evaluator, proved once over the mathematical interpreter.
//!
//! Each proof function here states a property of the semantics in
//! `semantics`; since the executable evaluator is proved to return exactly
//! what those spec functions prescribe, every law carries over to `eval`.

use vstd::prelude::*;
use crate::ast::{ExpressionV, StatementV, BlockV, NodeV};
use crate::object::{ObjectV, hash_key_of, display_chars};
use crate::environment::EnvironmentV;
use crate::semantics::{StateV, eval_expr, eval_stmt, eval_block, eval_program, eval_exprs,
    eval_node, apply_function, params_store, unwrap_return, truthy, is_error, obj_eq, set_in};

verus! {

/// Short-circuit on error: an erroring left operand of an infix expression
/// is the whole expression's result, message and state included.
pub proof fn lemma_short_circuit_infix_left(
    st: StateV,
    cur: int,
    op: Seq<char>,
    l: Box<ExpressionV>,
    r: Box<ExpressionV>,
    fuel: nat,
)
    requires
        is_error(eval_expr(st, cur, *l, fuel).0),
    ensures
        eval_expr(st, cur, ExpressionV::Infix { operator: op, left: l, right: r }, fuel)
            == eval_expr(st, cur, *l, fuel),
{
}

/// Short-circuit on error: when the left operand reduces normally, an
/// erroring right operand is the whole infix expression's result.
pub proof fn lemma_short_circuit_infix_right(
    st: StateV,
    cur: int,
    op: Seq<char>,
    l: Box<ExpressionV>,
    r: Box<ExpressionV>,
    fuel: nat,
)
    requires
        !is_error(eval_expr(st, cur, *l, fuel).0),
        is_error(eval_expr(eval_expr(st, cur, *l, fuel).1, cur, *r, fuel).0),
    ensures
        eval_expr(st, cur, ExpressionV::Infix { operator: op, left: l, right: r }, fuel)
            == eval_expr(eval_expr(st, cur, *l, fuel).1, cur, *r, fuel),
{
}

/// Short-circuit on error: an erroring operand of a prefix expression is the
/// whole expression's result.
pub proof fn lemma_short_circuit_prefix(
    st: StateV,
    cur: int,
    op: Seq<char>,
    r: Box<ExpressionV>,
    fuel: nat,
)
    requires
        is_error(eval_expr(st, cur, *r, fuel).0),
    ensures
        eval_expr(st, cur, ExpressionV::Prefix { operator: op, right: r }, fuel) == eval_expr(
            st,
            cur,
            *r,
            fuel,
        ),
{
}

/// Short-circuit on error: an erroring operand of an index expression is
/// the whole expression's result, left operand first.
pub proof fn lemma_short_circuit_index(
    st: StateV,
    cur: int,
    l: Box<ExpressionV>,
    ix: Box<ExpressionV>,
    fuel: nat,
)
    ensures
        is_error(eval_expr(st, cur, *l, fuel).0) ==> eval_expr(
            st,
            cur,
            ExpressionV::Index { left: l, index: ix },
            fuel,
        ) == eval_expr(st, cur, *l, fuel),
        (!is_error(eval_expr(st, cur, *l, fuel).0) && is_error(
            eval_expr(eval_expr(st, cur, *l, fuel).1, cur, *ix, fuel).0,
        )) ==> eval_expr(st, cur, ExpressionV::Index { left: l, index: ix }, fuel) == eval_expr(
            eval_expr(st, cur, *l, fuel).1,
            cur,
            *ix,
            fuel,
        ),
{
}

/// Short-circuit on error: an erroring callee is the whole call's result;
/// no argument is reduced.
pub proof fn lemma_short_circuit_call(
    st: StateV,
    cur: int,
    f: Box<ExpressionV>,
    args: Seq<ExpressionV>,
    fuel: nat,
)
    requires
        is_error(eval_expr(st, cur, *f, fuel).0),
    ensures
        eval_expr(st, cur, ExpressionV::Call { function: f, arguments: args }, fuel) == eval_expr(
            st,
            cur,
            *f,
            fuel,
        ),
{
}

/// Short-circuit on error: an erroring operand of a `return` statement is
/// the statement's result, unwrapped by nothing.
pub proof fn lemma_short_circuit_return(st: StateV, cur: int, value: ExpressionV, fuel: nat)
    requires
        is_error(eval_expr(st, cur, value, fuel).0),
    ensures
        eval_stmt(st, cur, StatementV::Return { value }, fuel) == eval_expr(st, cur, value, fuel),
{
}

/// Short-circuit on error: an erroring right-hand side of a `let` statement
/// is the statement's result, and nothing is bound.
pub proof fn lemma_short_circuit_let(
    st: StateV,
    cur: int,
    name: Seq<char>,
    value: ExpressionV,
    fuel: nat,
)
    requires
        is_error(eval_expr(st, cur, value, fuel).0),
    ensures
        eval_stmt(st, cur, StatementV::Let { name, value }, fuel) == eval_expr(
            st,
            cur,
            value,
            fuel,
        ),
{
}

/// Short-circuit on error: an erroring condition is the whole `if`
/// expression's result; neither branch runs.
pub proof fn lemma_short_circuit_if(
    st: StateV,
    cur: int,
    condition: Box<ExpressionV>,
    consequence: BlockV,
    alternative: Option<BlockV>,
    fuel: nat,
)
    requires
        is_error(eval_expr(st, cur, *condition, fuel).0),
    ensures
        eval_expr(
            st,
            cur,
            ExpressionV::If { condition, consequence, alternative },
            fuel,
        ) == eval_expr(st, cur, *condition, fuel),
{
}

/// Short-circuit on error: in an expression list, an erroring element at
/// position `i` ends the reduction there, and the one-element list holding
/// the error stands for the whole list.
pub proof fn lemma_short_circuit_list(
    st: StateV,
    cur: int,
    es: Seq<ExpressionV>,
    i: int,
    fuel: nat,
)
    requires
        0 <= i < es.len(),
        is_error(eval_expr(st, cur, es[i], fuel).0),
    ensures
        eval_exprs(st, cur, es, i, fuel) == (
            seq![eval_expr(st, cur, es[i], fuel).0],
            eval_expr(st, cur, es[i], fuel).1,
        ),
{
}

/// Short-circuit on error: in a hash literal, an erroring key or value
/// expression at pair `i` ends the reduction there.
pub proof fn lemma_short_circuit_hash(
    st: StateV,
    cur: int,
    ms: Seq<(ExpressionV, ExpressionV)>,
    i: int,
    acc: Seq<(crate::object::HashKeyV, ObjectV)>,
    fuel: nat,
)
    requires
        0 <= i < ms.len(),
    ensures
        is_error(eval_expr(st, cur, ms[i].0, fuel).0) ==> crate::semantics::eval_hash(
            st,
            cur,
            ms,
            i,
            acc,
            fuel,
        ) == eval_expr(st, cur, ms[i].0, fuel),
        ({
            let (k, st1) = eval_expr(st, cur, ms[i].0, fuel);
            (!is_error(k) && hash_key_of(k) is Some && is_error(
                eval_expr(st1, cur, ms[i].1, fuel).0,
            )) ==> crate::semantics::eval_hash(st, cur, ms, i, acc, fuel) == eval_expr(
                st1,
                cur,
                ms[i].1,
                fuel,
            )
        }),
{
}

/// Truthiness: every value that is neither `null` nor a boolean is truthy;
/// `null` and `false` are falsy.
pub proof fn lemma_truthiness(v: ObjectV)
    ensures
        !(v is Null) && !(v is Boolean) ==> truthy(v),
        v is Null ==> !truthy(v),
        v == ObjectV::Boolean(false) ==> !truthy(v),
        v == ObjectV::Boolean(true) ==> truthy(v),
{
}

/// An `if` reduces the chosen block and nothing else: the consequence under
/// a truthy condition, the alternative under a falsy one, `null` without an
/// alternative.
pub proof fn lemma_if_picks_branch(
    st: StateV,
    cur: int,
    condition: Box<ExpressionV>,
    consequence: BlockV,
    alternative: Option<BlockV>,
    fuel: nat,
)
    requires
        !is_error(eval_expr(st, cur, *condition, fuel).0),
    ensures
        ({
            let (c, st1) = eval_expr(st, cur, *condition, fuel);
            let whole = eval_expr(
                st,
                cur,
                ExpressionV::If { condition, consequence, alternative },
                fuel,
            );
            (truthy(c) ==> whole == eval_node(st1, cur, NodeV::BlockStatement(consequence), fuel))
                && (!truthy(c) && alternative is Some ==> whole == eval_node(
                st1,
                cur,
                NodeV::BlockStatement(alternative->0),
                fuel,
            )) && (!truthy(c) && alternative is None ==> whole == (ObjectV::Null, st1))
        }),
{
}

/// A return carrier produced by a statement passes through its block
/// unopened: this is how `return` escapes nested blocks.
pub proof fn lemma_block_propagates_return(
    st: StateV,
    cur: int,
    ss: Seq<StatementV>,
    i: int,
    fuel: nat,
)
    requires
        0 <= i < ss.len(),
        eval_stmt(st, cur, ss[i], fuel).0 is ReturnValue,
    ensures
        eval_block(st, cur, ss, i, fuel) == eval_stmt(st, cur, ss[i], fuel),
{
}

/// Function application unwraps exactly one return carrier: a `return`
/// inside nested blocks exits that function and no further.  The fresh
/// frame's parent is the function's captured context, not the caller's:
/// lexical scope.
pub proof fn lemma_apply_function_frame(
    st: StateV,
    f: crate::object::FunctionV,
    args: Seq<ObjectV>,
    fuel: nat,
)
    requires
        f.parameters.len() == args.len(),
        fuel >= 1,
    ensures
        ({
            let frame = EnvironmentV {
                store: params_store(f.parameters, args, 0),
                parent: Some(f.env),
            };
            let entry = StateV { envs: st.envs.push(frame), out: st.out };
            let (v, st2) = eval_block(
                entry,
                st.envs.len() as int,
                f.body.statements,
                0,
                (fuel - 1) as nat,
            );
            apply_function(st, f, args, fuel) == (unwrap_return(v), st2)
        }),
{
}

/// At the top level, a return carrier produced by a statement is unwrapped
/// once and ends the program.
pub proof fn lemma_program_unwraps_return(
    st: StateV,
    cur: int,
    ss: Seq<StatementV>,
    i: int,
    fuel: nat,
)
    requires
        0 <= i < ss.len(),
        eval_stmt(st, cur, ss[i], fuel).0 is ReturnValue,
    ensures
        eval_program(st, cur, ss, i, fuel) == (
            *eval_stmt(st, cur, ss[i], fuel).0->ReturnValue_0,
            eval_stmt(st, cur, ss[i], fuel).1,
        ),
{
}

/// Binding writes to the innermost context and is immediately visible:
/// after `set_in`, looking the name up from the same context yields the
/// bound value, whatever was bound before.
pub proof fn lemma_set_then_get(st: StateV, cur: int, name: Seq<char>, v: ObjectV)
    requires
        0 <= cur < st.envs.len(),
    ensures
        crate::semantics::lookup_env(set_in(st, cur, name, v).envs, cur, name) == Some(v),
{
    let store = set_in(st, cur, name, v).envs[cur].store;
    assert(store.last() == (name, v));
}

/// Lookup walks the parent chain: a name absent from a context's own store
/// is looked up in its parent.
pub proof fn lemma_lookup_walks_parent(envs: Seq<EnvironmentV>, idx: int, name: Seq<char>)
    requires
        0 <= idx < envs.len(),
        crate::environment::store_get(envs[idx].store, name) is None,
        envs[idx].parent is Some,
        0 <= envs[idx].parent->0 < idx,
    ensures
        crate::semantics::lookup_env(envs, idx, name) == crate::semantics::lookup_env(
            envs,
            envs[idx].parent->0,
            name,
        ),
{
}

/// Hash keys preserve equality: two key-eligible values are equal under the
/// language's `==` exactly when their hash keys are equal.
pub proof fn lemma_hash_key_equality(a: ObjectV, b: ObjectV)
    requires
        hash_key_of(a) is Some,
        hash_key_of(b) is Some,
    ensures
        obj_eq(a, b) <==> hash_key_of(a) == hash_key_of(b),
{
}

/// The literal syntax tree that renders and reparses a value of the given
/// kind: the integer literal, behind a prefix minus for negative values, or
/// the boolean literal.
pub open spec fn literal_expr_of(v: ObjectV) -> ExpressionV {
    match v {
        ObjectV::Integer(n) => if n >= 0 {
            ExpressionV::IntegerLiteral { value: n }
        } else {
            ExpressionV::Prefix {
                operator: "-"@,
                right: Box::new(ExpressionV::IntegerLiteral { value: (-(n as int)) as i64 }),
            }
        },
        ObjectV::Boolean(b) => ExpressionV::Boolean { value: b },
        _ => ExpressionV::Boolean { value: false },
    }
}

/// Display round trip for integers and booleans: reducing the literal tree
/// that the display form parses back to yields the value itself, so its
/// display form is unchanged.  (The display forms of `null` and of strings
/// do not reparse as literals: `null` is an identifier, and a string
/// displays without quotes.)
pub proof fn lemma_display_round_trip(st: StateV, cur: int, v: ObjectV, fuel: nat)
    requires
        match v {
            ObjectV::Integer(n) => n > i64::MIN,
            ObjectV::Boolean(..) => true,
            _ => false,
        },
    ensures
        eval_expr(st, cur, literal_expr_of(v), fuel) == (v, st),
        display_chars(eval_expr(st, cur, literal_expr_of(v), fuel).0) == display_chars(v),
{
    reveal_strlit("-");
    reveal_strlit("!");
    assert("-"@[0] == '-');
    assert("!"@[0] == '!');
    assert("-"@ != "!"@);
    reveal_with_fuel(eval_expr, 3);
    match v {
        ObjectV::Integer(n) => {
            if n < 0 {
                let m: i64 = (-(n as int)) as i64;
                assert(m as int == -(n as int));
                assert((0i64).wrapping_sub(m) == n);
                assert(eval_expr(st, cur, ExpressionV::IntegerLiteral { value: m }, fuel) == (
                    ObjectV::Integer(m),
                    st,
                ));
                assert(eval_expr(st, cur, literal_expr_of(v), fuel) == (v, st));
            }
        },
        _ => {},
    }
}

} // verus!
