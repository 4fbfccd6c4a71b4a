//! The executable evaluator.
//!
//! `Evaluator` owns the arena of binding contexts, the index of the current
//! context, and the output written by `puts`.  Every method returns exactly
//! what the corresponding spec function in `semantics` prescribes for its
//! view; `eval` is the public entry.  Evaluation is bounded by a fuel that
//! only function application consumes; an exhausted budget surfaces as a
//! runtime error.

use vstd::prelude::*;
use crate::ast::{Node, NodeV, Statement, Expression, BlockStatement, node_view, node_size,
    block_view, stmts_view_from, exprs_view_from, pairs_view_from, params_view, stmts_weight,
    exprs_weight, pairs_weight, lemma_stmts_view_from, lemma_exprs_view_from,
    lemma_pairs_view_from, share_block};
use crate::object::{Object, ObjectV, FunctionV, HashKey, HashKeyV, obj_view, objs_view_from,
    hpairs_view_from, lemma_objs_view_from, lemma_hpairs_view_from, key_eq};
use crate::environment::{Environment, EnvironmentV, env_view, envs_view_from,
    lemma_envs_view_from, store_get, opt_obj_view};
use crate::semantics::{StateV, eval_node, eval_program, eval_block, eval_stmt, eval_expr,
    eval_exprs, eval_hash, apply_function, eval_identifier, eval_prefix, eval_bang, eval_minus,
    eval_infix, eval_integer_infix, eval_string_infix, eval_index, hash_lookup, hash_insert,
    unwrap_return, params_store, lemma_params_store, set_in, lookup_env, truthy, same_kind,
    obj_eq, err, fuel_msg};
use crate::builtin::{builtin_exists, apply_builtin, lines_view, wrong_args_err};
use crate::text::{append_str, string_from_chars, str_concat};

verus! {

broadcast use vstd::std_specs::vec::axiom_vec_decreases_to_view;

/// The evaluator: the context arena, the current context, and the output
/// lines written by `puts`.
pub struct Evaluator {
    pub envs: Vec<Environment>,
    pub cur: usize,
    pub output: Vec<String>,
}

impl View for Evaluator {
    type V = StateV;

    open spec fn view(&self) -> StateV {
        StateV { envs: envs_view_from(self.envs@, 0), out: lines_view(self.output@) }
    }
}

/// A runtime error whose message is `a` followed by `b`.
fn err_2(a: &str, b: &str) -> (r: Object)
    ensures
        r@ == ObjectV::RuntimeError(a@ + b@),
{
    Object::RuntimeError(str_concat(a, b))
}

/// A runtime error whose message is the concatenation of three parts.
fn err_3(a: &str, b: &str, c: &str) -> (r: Object)
    ensures
        r@ == ObjectV::RuntimeError(a@ + b@ + c@),
{
    let mut buf = crate::text::chars_of(a);
    append_str(&mut buf, b);
    append_str(&mut buf, c);
    Object::RuntimeError(string_from_chars(&buf))
}

/// A runtime error whose message is the concatenation of six parts.
fn err_6(a: &str, b: &str, c: &str, d: &str, e: &str, f: &str) -> (r: Object)
    ensures
        r@ == ObjectV::RuntimeError(a@ + b@ + c@ + d@ + e@ + f@),
{
    let mut buf = crate::text::chars_of(a);
    append_str(&mut buf, b);
    append_str(&mut buf, c);
    append_str(&mut buf, d);
    append_str(&mut buf, e);
    append_str(&mut buf, f);
    Object::RuntimeError(string_from_chars(&buf))
}

/// A copy of a parameter list.
fn clone_params(ps: &Vec<String>) -> (r: Vec<String>)
    ensures
        r@ == ps@,
{
    let mut out: Vec<String> = Vec::new();
    let mut i: usize = 0;
    while i < ps.len()
        invariant
            i <= ps@.len(),
            out@.len() == i,
            forall|j: int| 0 <= j < i ==> out@[j] == ps@[j],
        decreases ps@.len() - i,
    {
        out.push(ps[i].clone());
        i += 1;
    }
    proof {
        assert(out@ =~= ps@);
    }
    out
}

/// The value stored under a key equal to `key` in `ps[j..]`, if any.
fn hash_get(ps: &Vec<(HashKey, Object)>, j: usize, key: &HashKey) -> (r: Option<Object>)
    requires
        j <= ps@.len(),
    ensures
        opt_obj_view(r) == hash_lookup(hpairs_view_from(ps@, j as int), key@),
    decreases ps@.len() - j,
{
    proof {
        lemma_hpairs_view_from(ps@, j as int);
        if j < ps@.len() {
            lemma_hpairs_view_from(ps@, j + 1);
            assert(hpairs_view_from(ps@, j as int).drop_first() =~= hpairs_view_from(
                ps@,
                j + 1,
            ));
        }
    }
    if j < ps.len() {
        let entry = &ps[j];
        if key_eq(&entry.0, key) {
            Some(entry.1.duplicate())
        } else {
            hash_get(ps, j + 1, key)
        }
    } else {
        None
    }
}

/// Inserts `key -> value` into `acc`, overwriting an earlier entry for the
/// same key in place.
#[verifier::loop_isolation(false)]
fn hash_put(acc: &mut Vec<(HashKey, Object)>, key: HashKey, value: Object)
    ensures
        hpairs_view_from(final(acc)@, 0) == hash_insert(
            hpairs_view_from(old(acc)@, 0),
            key@,
            value@,
        ),
{
    let ghost pre = acc@;
    proof {
        lemma_hpairs_view_from(pre, 0);
    }
    let mut j: usize = 0;
    while j < acc.len()
        invariant
            j <= acc@.len(),
            acc@ == pre,
            hpairs_view_from(pre, 0).len() == pre.len(),
            forall|k: int|
                0 <= k < pre.len() ==> hpairs_view_from(pre, 0)[k] == (
                    crate::object::hash_key_view(pre[k].0),
                    obj_view(pre[k].1),
                ),
            forall|k: int| 0 <= k < j ==> hpairs_view_from(pre, 0)[k].0 != key@,
        decreases acc@.len() - j,
    {
        if key_eq(&acc[j].0, &key) {
            let _ = acc.remove(j);
            acc.insert(j, (key, value));
            proof {
                lemma_hpairs_view_from(acc@, 0);
                lemma_insert_at(hpairs_view_from(pre, 0), j as int, key@, value@);
                assert(acc@ =~= pre.update(j as int, acc@[j as int]));
                assert(hpairs_view_from(acc@, 0) =~= hpairs_view_from(pre, 0).update(
                    j as int,
                    (key@, value@),
                ));
                assert(hpairs_view_from(acc@, 0) =~= hash_insert(
                    hpairs_view_from(pre, 0),
                    key@,
                    value@,
                ));
            }
            return ;
        }
        j += 1;
    }
    acc.push((key, value));
    proof {
        lemma_hpairs_view_from(acc@, 0);
        lemma_insert_at(hpairs_view_from(pre, 0), pre.len() as int, key@, value@);
        assert(hpairs_view_from(acc@, 0) =~= hash_insert(
            hpairs_view_from(pre, 0),
            key@,
            value@,
        ));
    }
}

/// When the first entry for `k` in `ps` stands at `j` (or nowhere, with `j`
/// the length), `hash_insert` replaces position `j` (or appends).
proof fn lemma_insert_at(ps: Seq<(HashKeyV, ObjectV)>, j: int, k: HashKeyV, v: ObjectV)
    requires
        0 <= j <= ps.len(),
        forall|x: int| 0 <= x < j ==> ps[x].0 != k,
        j < ps.len() ==> ps[j].0 == k,
    ensures
        j < ps.len() ==> hash_insert(ps, k, v) =~= ps.update(j, (k, v)),
        j == ps.len() ==> hash_insert(ps, k, v) =~= ps.push((k, v)),
    decreases ps.len(),
{
    if ps.len() == 0 {
    } else if ps[0].0 == k {
    } else {
        lemma_insert_at(ps.drop_first(), j - 1, k, v);
        assert(ps.drop_first() =~= ps.subrange(1, ps.len() as int));
        if j < ps.len() {
            assert(hash_insert(ps, k, v) =~= seq![ps[0]] + ps.drop_first().update(
                j - 1,
                (k, v),
            ));
            assert(seq![ps[0]] + ps.drop_first().update(j - 1, (k, v)) =~= ps.update(
                j,
                (k, v),
            ));
        } else {
            assert(hash_insert(ps, k, v) =~= seq![ps[0]] + ps.drop_first().push((k, v)));
            assert(seq![ps[0]] + ps.drop_first().push((k, v)) =~= ps.push((k, v)));
        }
    }
}

impl Evaluator {
    /// The arena holds at least the current context.
    pub open spec fn wf(&self) -> bool {
        self.cur < self.envs@.len()
    }

    /// A fresh evaluator over the seed context `env`.
    pub fn new(env: Environment) -> (r: Evaluator)
        ensures
            r.wf(),
            r.cur == 0,
            r@ == (StateV { envs: seq![env_view(env)], out: Seq::<Seq<char>>::empty() }),
    {
        let mut envs: Vec<Environment> = Vec::new();
        envs.push(env);
        let r = Evaluator { envs, cur: 0, output: Vec::new() };
        proof {
            lemma_envs_view_from(r.envs@, 0);
            assert(envs_view_from(r.envs@, 0) =~= seq![env_view(env)]);
            assert(lines_view(r.output@) =~= Seq::<Seq<char>>::empty());
        }
        r
    }

    /// The output lines that `puts` has written so far.
    pub fn output(&self) -> (r: &Vec<String>)
        ensures
            lines_view(r@) == self@.out,
    {
        &self.output
    }

    /// Whether a value is a runtime error.
    pub fn is_error(&self, object: &Object) -> (r: bool)
        ensures
            r == crate::semantics::is_error(object@),
    {
        matches!(object, Object::RuntimeError(_))
    }

    /// Truthiness: `null` and `false` are falsy, all else truthy.
    pub fn is_truthy(&self, object: &Object) -> (r: bool)
        ensures
            r == truthy(object@),
    {
        match object {
            Object::Null => false,
            Object::Boolean(b) => *b,
            _ => true,
        }
    }

    /// The boolean value for a host boolean.
    pub fn native_bool_to_boolean_object(&self, input: bool) -> (r: Object)
        ensures
            r@ == ObjectV::Boolean(input),
    {
        if input {
            Object::Boolean(true)
        } else {
            Object::Boolean(false)
        }
    }

    /// Unwraps a return carrier once; passes every other value through.
    pub fn unwrap_return_value(&self, obj: Object) -> (r: Object)
        ensures
            r@ == unwrap_return(obj@),
    {
        if let Object::ReturnValue(return_value) = obj {
            *return_value
        } else {
            obj
        }
    }

    /// The `!` operator.
    pub fn eval_bang_operator_expression(&self, right: Object) -> (r: Object)
        ensures
            r@ == eval_bang(right@),
    {
        match right {
            Object::Boolean(b) => {
                if b {
                    Object::Boolean(false)
                } else {
                    Object::Boolean(true)
                }
            },
            Object::Null => Object::Null,
            _ => Object::Boolean(false),
        }
    }

    /// The prefix `-` operator.
    pub fn eval_minus_operator_expression(&self, right: Object) -> (r: Object)
        ensures
            r@ == eval_minus(right@),
    {
        match right {
            Object::Integer(n) => Object::Integer((0i64).wrapping_sub(n)),
            _ => {
                let k = right.kind();
                err_2("unknown operator: -", k.as_str())
            },
        }
    }

    /// Prefix operator dispatch.
    pub fn eval_prefix_expression(&self, operator: &String, right: Object) -> (r: Object)
        ensures
            r@ == eval_prefix(operator@, right@),
    {
        if operator.eq(&"!".to_owned()) {
            self.eval_bang_operator_expression(right)
        } else if operator.eq(&"-".to_owned()) {
            self.eval_minus_operator_expression(right)
        } else {
            let k = right.kind();
            err_3("unknown operator: ", operator.as_str(), k.as_str())
        }
    }

    /// Whether two values have the same kind.
    fn same_kind_values(&self, l: &Object, r: &Object) -> (res: bool)
        ensures
            res == same_kind(l@, r@),
    {
        match (l, r) {
            (Object::Integer(..), Object::Integer(..)) => true,
            (Object::Boolean(..), Object::Boolean(..)) => true,
            (Object::Str(..), Object::Str(..)) => true,
            (Object::Null, Object::Null) => true,
            (Object::Array(..), Object::Array(..)) => true,
            (Object::Hash(..), Object::Hash(..)) => true,
            (Object::Function { .. }, Object::Function { .. }) => true,
            (Object::BuiltinFunction(..), Object::BuiltinFunction(..)) => true,
            (Object::ReturnValue(..), Object::ReturnValue(..)) => true,
            (Object::RuntimeError(..), Object::RuntimeError(..)) => true,
            _ => false,
        }
    }

    /// Structural equality under the language's `==`.
    fn objects_equal(&self, l: &Object, r: &Object) -> (res: bool)
        ensures
            res == obj_eq(l@, r@),
    {
        match (l, r) {
            (Object::Integer(a), Object::Integer(b)) => *a == *b,
            (Object::Boolean(a), Object::Boolean(b)) => *a == *b,
            (Object::Str(a), Object::Str(b)) => a.eq(b),
            (Object::Null, Object::Null) => true,
            _ => false,
        }
    }

    /// Infix operators over two integers.
    pub fn eval_integer_infix_expression(&self, operator: &String, left: i64, right: i64) -> (r:
        Object)
        ensures
            r@ == eval_integer_infix(operator@, left, right),
    {
        if operator.eq(&"+".to_owned()) {
            Object::Integer(left.wrapping_add(right))
        } else if operator.eq(&"-".to_owned()) {
            Object::Integer(left.wrapping_sub(right))
        } else if operator.eq(&"*".to_owned()) {
            Object::Integer(left.wrapping_mul(right))
        } else if operator.eq(&"/".to_owned()) {
            if right == 0 {
                Object::RuntimeError("division by zero".to_owned())
            } else {
                match left.checked_div(right) {
                    Some(q) => Object::Integer(q),
                    None => Object::Integer(i64::MIN),
                }
            }
        } else if operator.eq(&"<".to_owned()) {
            self.native_bool_to_boolean_object(left < right)
        } else if operator.eq(&">".to_owned()) {
            self.native_bool_to_boolean_object(left > right)
        } else if operator.eq(&"==".to_owned()) {
            self.native_bool_to_boolean_object(left == right)
        } else if operator.eq(&"!=".to_owned()) {
            self.native_bool_to_boolean_object(left != right)
        } else {
            err_3("unknown operator: INTEGER ", operator.as_str(), " INTEGER")
        }
    }

    /// Infix operators over two strings.
    pub fn eval_string_infix_expression(&self, operator: &String, left: &String, right: &String)
        -> (r: Object)
        ensures
            r@ == eval_string_infix(operator@, left@, right@),
    {
        if operator.eq(&"+".to_owned()) {
            Object::Str(str_concat(left.as_str(), right.as_str()))
        } else {
            err_3("unknown operator: STRING ", operator.as_str(), " STRING")
        }
    }

    /// Infix operator dispatch.
    pub fn eval_infix_expression(&self, operator: &String, left: Object, right: Object) -> (r:
        Object)
        ensures
            r@ == eval_infix(operator@, left@, right@),
    {
        if !self.same_kind_values(&left, &right) {
            let lk = left.kind();
            let rk = right.kind();
            return err_6(
                "type mismatch: ",
                lk.as_str(),
                " ",
                operator.as_str(),
                " ",
                rk.as_str(),
            );
        }
        match (&left, &right) {
            (Object::Integer(a), Object::Integer(b)) => self.eval_integer_infix_expression(
                operator,
                *a,
                *b,
            ),
            (Object::Str(a), Object::Str(b)) => self.eval_string_infix_expression(operator, a, b),
            _ => {
                if operator.eq(&"==".to_owned()) {
                    let eq = self.objects_equal(&left, &right);
                    self.native_bool_to_boolean_object(eq)
                } else if operator.eq(&"!=".to_owned()) {
                    let eq = self.objects_equal(&left, &right);
                    self.native_bool_to_boolean_object(!eq)
                } else {
                    let lk = left.kind();
                    let rk = right.kind();
                    err_6(
                        "unknown operator: ",
                        lk.as_str(),
                        " ",
                        operator.as_str(),
                        " ",
                        rk.as_str(),
                    )
                }
            },
        }
    }

    /// Index dispatch over already-reduced operands.
    pub fn eval_index_expression(&self, left: Object, index: Object) -> (r: Object)
        ensures
            r@ == eval_index(left@, index@),
    {
        match &left {
            Object::Array(elements) => {
                proof {
                    lemma_objs_view_from(elements@, 0);
                }
                match &index {
                    Object::Integer(i) => {
                        let i = *i;
                        if i < 0 || (i as u64) >= (elements.len() as u64) {
                            Object::Null
                        } else {
                            elements[i as usize].duplicate()
                        }
                    },
                    _ => {
                        let k = index.kind();
                        err_2("index is not a integer: ", k.as_str())
                    },
                }
            },
            Object::Hash(pairs) => {
                match index.hash_key() {
                    Some(key) => {
                        match hash_get(pairs, 0, &key) {
                            Some(v) => v,
                            None => Object::Null,
                        }
                    },
                    None => {
                        let k = index.kind();
                        err_2(
                            "only string, integer and boolean can be hash key, found ",
                            k.as_str(),
                        )
                    },
                }
            },
            _ => {
                let k = left.kind();
                err_2("index operator not supported: ", k.as_str())
            },
        }
    }

    /// Lookup of `name` along the parent chain, starting at context `idx`.
    fn lookup_chain(&self, idx: usize, name: &String) -> (r: Option<Object>)
        requires
            idx < self.envs@.len(),
        ensures
            opt_obj_view(r) == lookup_env(self@.envs, idx as int, name@),
        decreases idx,
    {
        proof {
            lemma_envs_view_from(self.envs@, 0);
        }
        match self.envs[idx].get_local(name) {
            Some(v) => Some(v),
            None => match self.envs[idx].parent {
                Some(p) => if p < idx {
                    self.lookup_chain(p, name)
                } else {
                    None
                },
                None => None,
            },
        }
    }

    /// Identifier lookup: the context chain, then the built-in registry.
    pub fn eval_identifier(&self, name: &String) -> (r: Object)
        requires
            self.wf(),
        ensures
            r@ == eval_identifier(self@, self.cur as int, name@),
    {
        match self.lookup_chain(self.cur, name) {
            Some(v) => v,
            None => {
                if builtin_exists(name) {
                    Object::BuiltinFunction(name.clone())
                } else {
                    err_2("identifier not found: ", name.as_str())
                }
            },
        }
    }

    /// Reduces a syntax-tree node to a value, with `fuel` bounding the depth
    /// of function applications.  Returns, and leaves the evaluator in,
    /// exactly what the mathematical interpreter prescribes.
    pub fn eval(&mut self, node: &Node<'_>, fuel: u64) -> (r: Object)
        requires
            old(self).wf(),
        ensures
            final(self).wf(),
            final(self).cur == old(self).cur,
            final(self).envs@.len() >= old(self).envs@.len(),
            ({
                let (rv, stv) = eval_node(
                    old(self)@,
                    old(self).cur as int,
                    node_view(*node),
                    fuel as nat,
                );
                r@ == rv && final(self)@ == stv
            }),
        decreases fuel, node_size(node_view(*node)),
    {
        match node {
            Node::Program(p) => self.eval_program(&p.statements, 0, fuel),
            Node::Statement(Statement::Expression { value }) => self.eval(
                &Node::Expression(value),
                fuel,
            ),
            Node::Statement(Statement::Return { value }) => {
                let v = self.eval(&Node::Expression(value), fuel);
                if self.is_error(&v) {
                    v
                } else {
                    Object::ReturnValue(Box::new(v))
                }
            },
            Node::Statement(Statement::Let { name, value }) => {
                let v = self.eval(&Node::Expression(value), fuel);
                if self.is_error(&v) {
                    v
                } else {
                    let bound = v.duplicate();
                    self.set_current(name.clone(), bound);
                    v
                }
            },
            Node::BlockStatement(b) => self.eval_block_statement(&b.statements, 0, fuel),
            Node::Expression(Expression::Identifier { name }) => self.eval_identifier(name),
            Node::Expression(Expression::IntegerLiteral { value }) => Object::Integer(*value),
            Node::Expression(Expression::StringLiteral { value }) => Object::Str(value.clone()),
            Node::Expression(Expression::Boolean { value }) => self.native_bool_to_boolean_object(
                *value,
            ),
            Node::Expression(Expression::ArrayLiteral { elements }) => {
                let mut vs = self.eval_expressions(elements, 0, fuel);
                proof {
                    lemma_objs_view_from(vs@, 0);
                }
                if vs.len() == 1 && self.is_error(&vs[0]) {
                    vs.pop().unwrap()
                } else {
                    Object::Array(vs)
                }
            },
            Node::Expression(Expression::HashLiteral { members }) => {
                let acc: Vec<(HashKey, Object)> = Vec::new();
                proof {
                    lemma_hpairs_view_from(acc@, 0);
                    assert(hpairs_view_from(acc@, 0) =~= Seq::<(HashKeyV, ObjectV)>::empty());
                }
                self.eval_hash_literal(members, 0, acc, fuel)
            },
            Node::Expression(Expression::Index { left, index }) => {
                let l = self.eval(&Node::Expression(&**left), fuel);
                if self.is_error(&l) {
                    return l;
                }
                let ix = self.eval(&Node::Expression(&**index), fuel);
                if self.is_error(&ix) {
                    return ix;
                }
                self.eval_index_expression(l, ix)
            },
            Node::Expression(Expression::Prefix { operator, right }) => {
                let r = self.eval(&Node::Expression(&**right), fuel);
                if self.is_error(&r) {
                    r
                } else {
                    self.eval_prefix_expression(operator, r)
                }
            },
            Node::Expression(Expression::Infix { operator, left, right }) => {
                let l = self.eval(&Node::Expression(&**left), fuel);
                if self.is_error(&l) {
                    return l;
                }
                let r = self.eval(&Node::Expression(&**right), fuel);
                if self.is_error(&r) {
                    return r;
                }
                self.eval_infix_expression(operator, l, r)
            },
            Node::Expression(Expression::If { condition, consequence, alternative }) => {
                let c = self.eval(&Node::Expression(&**condition), fuel);
                if self.is_error(&c) {
                    return c;
                }
                if self.is_truthy(&c) {
                    self.eval(&Node::BlockStatement(consequence), fuel)
                } else {
                    match alternative {
                        Some(alt) => self.eval(&Node::BlockStatement(alt), fuel),
                        None => Object::Null,
                    }
                }
            },
            Node::Expression(Expression::Call { function, arguments }) => {
                let func = self.eval(&Node::Expression(&**function), fuel);
                if self.is_error(&func) {
                    return func;
                }
                match func {
                    Object::Function { parameters, body, env } => {
                        let mut args = self.eval_expressions(arguments, 0, fuel);
                        proof {
                            lemma_objs_view_from(args@, 0);
                        }
                        if args.len() == 1 && self.is_error(&args[0]) {
                            return args.pop().unwrap();
                        }
                        self.apply_function(parameters, body, env, args, fuel)
                    },
                    Object::BuiltinFunction(name) => {
                        let mut args = self.eval_expressions(arguments, 0, fuel);
                        proof {
                            lemma_objs_view_from(args@, 0);
                        }
                        if args.len() == 1 && self.is_error(&args[0]) {
                            return args.pop().unwrap();
                        }
                        apply_builtin(&name, args, &mut self.output)
                    },
                    other => {
                        let k = other.kind();
                        err_2("Not a function: ", k.as_str())
                    },
                }
            },
            Node::Expression(Expression::FunctionLiteral { parameters, body }) => {
                Object::Function {
                    parameters: clone_params(parameters),
                    body: share_block(body),
                    env: self.cur,
                }
            },
        }
    }

    /// Runs the top-level statements `ss[i..]` in order, unwrapping a return
    /// carrier and surfacing an error.
    fn eval_program(&mut self, ss: &Vec<Statement>, i: usize, fuel: u64) -> (r: Object)
        requires
            old(self).wf(),
            i <= ss@.len(),
        ensures
            final(self).wf(),
            final(self).cur == old(self).cur,
            final(self).envs@.len() >= old(self).envs@.len(),
            ({
                let (rv, stv) = eval_program(
                    old(self)@,
                    old(self).cur as int,
                    stmts_view_from(ss@, 0),
                    i as int,
                    fuel as nat,
                );
                r@ == rv && final(self)@ == stv
            }),
        decreases fuel, stmts_weight(stmts_view_from(ss@, 0), i as int),
    {
        proof {
            lemma_stmts_view_from(ss@, 0);
        }
        if i < ss.len() {
            let v = self.eval(&Node::Statement(&ss[i]), fuel);
            match v {
                Object::ReturnValue(rv) => *rv,
                other => {
                    if self.is_error(&other) {
                        other
                    } else if i + 1 < ss.len() {
                        self.eval_program(ss, i + 1, fuel)
                    } else {
                        other
                    }
                },
            }
        } else {
            Object::Null
        }
    }

    /// Runs the statements `ss[i..]` of a block in order; a return carrier
    /// passes along unopened.
    fn eval_block_statement(&mut self, ss: &Vec<Statement>, i: usize, fuel: u64) -> (r: Object)
        requires
            old(self).wf(),
            i <= ss@.len(),
        ensures
            final(self).wf(),
            final(self).cur == old(self).cur,
            final(self).envs@.len() >= old(self).envs@.len(),
            ({
                let (rv, stv) = eval_block(
                    old(self)@,
                    old(self).cur as int,
                    stmts_view_from(ss@, 0),
                    i as int,
                    fuel as nat,
                );
                r@ == rv && final(self)@ == stv
            }),
        decreases fuel, stmts_weight(stmts_view_from(ss@, 0), i as int),
    {
        proof {
            lemma_stmts_view_from(ss@, 0);
        }
        if i < ss.len() {
            let v = self.eval(&Node::Statement(&ss[i]), fuel);
            match v {
                Object::ReturnValue(..) => v,
                Object::RuntimeError(..) => v,
                other => {
                    if i + 1 < ss.len() {
                        self.eval_block_statement(ss, i + 1, fuel)
                    } else {
                        other
                    }
                },
            }
        } else {
            Object::Null
        }
    }

    /// Reduces the expressions `exps[i..]` left to right; the first error
    /// replaces the whole list by the one-element list holding it.
    fn eval_expressions(&mut self, exps: &Vec<Expression>, i: usize, fuel: u64) -> (r: Vec<Object>)
        requires
            old(self).wf(),
            i <= exps@.len(),
        ensures
            final(self).wf(),
            final(self).cur == old(self).cur,
            final(self).envs@.len() >= old(self).envs@.len(),
            ({
                let (rvs, stv) = eval_exprs(
                    old(self)@,
                    old(self).cur as int,
                    exprs_view_from(exps@, 0),
                    i as int,
                    fuel as nat,
                );
                objs_view_from(r@, 0) == rvs && final(self)@ == stv
            }),
        decreases fuel, exprs_weight(exprs_view_from(exps@, 0), i as int),
    {
        proof {
            lemma_exprs_view_from(exps@, 0);
        }
        if i < exps.len() {
            let v = self.eval(&Node::Expression(&exps[i]), fuel);
            if self.is_error(&v) {
                let mut out: Vec<Object> = Vec::new();
                out.push(v);
                proof {
                    lemma_objs_view_from(out@, 0);
                    assert(objs_view_from(out@, 0) =~= seq![out@[0]@]);
                }
                out
            } else {
                let mut rest = self.eval_expressions(exps, i + 1, fuel);
                proof {
                    lemma_objs_view_from(rest@, 0);
                }
                if rest.len() == 1 && self.is_error(&rest[0]) {
                    rest
                } else {
                    let ghost old_rest = rest@;
                    rest.insert(0, v);
                    proof {
                        lemma_objs_view_from(rest@, 0);
                        assert(objs_view_from(rest@, 0) =~= seq![obj_view(rest@[0])]
                            + objs_view_from(old_rest, 0));
                    }
                    rest
                }
            }
        } else {
            let out: Vec<Object> = Vec::new();
            proof {
                lemma_objs_view_from(out@, 0);
                assert(objs_view_from(out@, 0) =~= Seq::<ObjectV>::empty());
            }
            out
        }
    }

    /// Builds a hash from the members `ms[i..]`, accumulating into `acc`.
    fn eval_hash_literal(
        &mut self,
        ms: &Vec<(Expression, Expression)>,
        i: usize,
        acc: Vec<(HashKey, Object)>,
        fuel: u64,
    ) -> (r: Object)
        requires
            old(self).wf(),
            i <= ms@.len(),
        ensures
            final(self).wf(),
            final(self).cur == old(self).cur,
            final(self).envs@.len() >= old(self).envs@.len(),
            ({
                let (rv, stv) = eval_hash(
                    old(self)@,
                    old(self).cur as int,
                    pairs_view_from(ms@, 0),
                    i as int,
                    hpairs_view_from(acc@, 0),
                    fuel as nat,
                );
                r@ == rv && final(self)@ == stv
            }),
        decreases fuel, pairs_weight(pairs_view_from(ms@, 0), i as int),
    {
        proof {
            lemma_pairs_view_from(ms@, 0);
        }
        if i < ms.len() {
            let k = self.eval(&Node::Expression(&ms[i].0), fuel);
            if self.is_error(&k) {
                return k;
            }
            match k.hash_key() {
                None => {
                    let kk = k.kind();
                    err_2("only string, integer and boolean can be hash key, found ", kk.as_str())
                },
                Some(hk) => {
                    let v = self.eval(&Node::Expression(&ms[i].1), fuel);
                    if self.is_error(&v) {
                        v
                    } else {
                        let mut grown = acc;
                        hash_put(&mut grown, hk, v);
                        self.eval_hash_literal(ms, i + 1, grown, fuel)
                    }
                },
            }
        } else {
            Object::Hash(acc)
        }
    }

    /// Applies a function value: a fresh frame over the captured context,
    /// parameters bound positionally, the body run as a block, and a
    /// resulting return carrier unwrapped once.
    fn apply_function(
        &mut self,
        parameters: Vec<String>,
        body: std::rc::Rc<BlockStatement>,
        fenv: usize,
        args: Vec<Object>,
        fuel: u64,
    ) -> (r: Object)
        requires
            old(self).wf(),
        ensures
            final(self).wf(),
            final(self).cur == old(self).cur,
            final(self).envs@.len() >= old(self).envs@.len(),
            ({
                let (rv, stv) = apply_function(
                    old(self)@,
                    FunctionV {
                        parameters: params_view(parameters@),
                        body: block_view(*body),
                        env: fenv as int,
                    },
                    objs_view_from(args@, 0),
                    fuel as nat,
                );
                r@ == rv && final(self)@ == stv
            }),
        decreases fuel, 0int,
    {
        proof {
            lemma_objs_view_from(args@, 0);
        }
        if parameters.len() != args.len() {
            return wrong_args_err(args.len(), parameters.len() as u64);
        }
        if fuel == 0 {
            return Object::RuntimeError("call depth limit reached".to_owned());
        }
        let mut frame = Environment::with_parent(fenv);
        let mut i: usize = 0;
        while i < parameters.len()
            invariant
                i <= parameters@.len(),
                parameters@.len() == args@.len(),
                objs_view_from(args@, 0).len() == args@.len(),
                forall|j: int|
                    0 <= j < args@.len() ==> objs_view_from(args@, 0)[j] == obj_view(args@[j]),
                frame@.parent == Some(fenv as int),
                frame@.store.len() == i,
                forall|j: int|
                    0 <= j < i ==> frame@.store[j] == (parameters@[j]@, obj_view(args@[j])),
            decreases parameters@.len() - i,
        {
            frame.set(parameters[i].clone(), args[i].duplicate());
            i += 1;
        }
        proof {
            lemma_params_store(params_view(parameters@), objs_view_from(args@, 0), 0);
            assert(frame@.store =~= params_store(
                params_view(parameters@),
                objs_view_from(args@, 0),
                0,
            ));
            lemma_envs_view_from(self.envs@, 0);
        }
        let ghost pre_state = self@;
        let saved = self.cur;
        self.envs.push(frame);
        self.cur = self.envs.len() - 1;
        proof {
            lemma_envs_view_from(self.envs@, 0);
            assert(envs_view_from(self.envs@, 0) =~= pre_state.envs.push(env_view(frame)));
            assert(self@ =~~= (StateV { envs: pre_state.envs.push(env_view(frame)), out: pre_state.out }));
        }
        let rv = self.eval(&Node::BlockStatement(&*body), fuel - 1);
        self.cur = saved;
        self.unwrap_return_value(rv)
    }

    /// Binds `name` to `value` in the current context.
    fn set_current(&mut self, name: String, value: Object)
        requires
            old(self).wf(),
        ensures
            final(self).wf(),
            final(self).cur == old(self).cur,
            final(self).envs@.len() == old(self).envs@.len(),
            final(self)@ == set_in(old(self)@, old(self).cur as int, name@, value@),
    {
        let ghost pre = self.envs@;
        let ghost prestate = self@;
        let cur = self.cur;
        let mut e = self.envs.remove(cur);
        e.set(name, value);
        self.envs.insert(cur, e);
        proof {
            lemma_envs_view_from(pre, 0);
            lemma_envs_view_from(self.envs@, 0);
            assert(self.envs@ =~= pre.update(cur as int, self.envs@[cur as int]));
            assert(envs_view_from(self.envs@, 0) =~= prestate.envs.update(
                cur as int,
                env_view(self.envs@[cur as int]),
            ));
            assert(self@ =~~= set_in(prestate, cur as int, name@, value@));
        }
    }
}

} // verus!
