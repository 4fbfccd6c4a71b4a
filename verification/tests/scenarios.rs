use std::rc::Rc;

use treewalk::ast::{BlockStatement, Expression, Node, Program, Statement};
use treewalk::environment::Environment;
use treewalk::evaluator::Evaluator;
use treewalk::object::{HashKey, Object};

const FUEL: u64 = 1_000_000;

fn ident(n: &str) -> Expression {
    Expression::Identifier { name: n.to_string() }
}

fn int_lit(v: i64) -> Expression {
    Expression::IntegerLiteral { value: v }
}

fn boolean(v: bool) -> Expression {
    Expression::Boolean { value: v }
}

fn string(s: &str) -> Expression {
    Expression::StringLiteral { value: s.to_string() }
}

fn prefix(op: &str, r: Expression) -> Expression {
    Expression::Prefix { operator: op.to_string(), right: Box::new(r) }
}

fn infix(op: &str, l: Expression, r: Expression) -> Expression {
    Expression::Infix { operator: op.to_string(), left: Box::new(l), right: Box::new(r) }
}

fn index(l: Expression, i: Expression) -> Expression {
    Expression::Index { left: Box::new(l), index: Box::new(i) }
}

fn array(es: Vec<Expression>) -> Expression {
    Expression::ArrayLiteral { elements: es }
}

fn hash(ms: Vec<(Expression, Expression)>) -> Expression {
    Expression::HashLiteral { members: ms }
}

fn block(ss: Vec<Statement>) -> BlockStatement {
    BlockStatement { statements: ss }
}

fn if_else(c: Expression, cons: BlockStatement, alt: BlockStatement) -> Expression {
    Expression::If { condition: Box::new(c), consequence: cons, alternative: Some(alt) }
}

fn call(f: Expression, args: Vec<Expression>) -> Expression {
    Expression::Call { function: Box::new(f), arguments: args }
}

fn func(params: Vec<&str>, body: BlockStatement) -> Expression {
    Expression::FunctionLiteral {
        parameters: params.iter().map(|p| p.to_string()).collect(),
        body: Rc::new(body),
    }
}

fn let_stmt(n: &str, v: Expression) -> Statement {
    Statement::Let { name: n.to_string(), value: v }
}

fn expr_stmt(v: Expression) -> Statement {
    Statement::Expression { value: v }
}

fn run_with_fuel(stmts: Vec<Statement>, fuel: u64) -> Object {
    let program = Program { statements: stmts };
    let mut evaluator = Evaluator::new(Environment::new());
    evaluator.eval(&Node::Program(&program), fuel)
}

fn run(stmts: Vec<Statement>) -> Object {
    run_with_fuel(stmts, FUEL)
}

fn run_expr(e: Expression) -> Object {
    run(vec![expr_stmt(e)])
}

fn expect_integer(object: Object, expected: i64) {
    if let Object::Integer(value) = object {
        assert_eq!(value, expected);
    } else {
        panic!("not a integer");
    }
}

fn expect_error(object: Object, expected: &str) {
    if let Object::RuntimeError(_) = &object {
        assert_eq!(object.inspect(), format!("Error: {}", expected));
    } else {
        panic!("not a error");
    }
}

#[test]
fn test_lexical_scope_sees_later_bindings() {
    // let a = 1; let f = fn() { a }; let a = 2; f()  =>  2
    expect_integer(
        run(vec![
            let_stmt("a", int_lit(1)),
            let_stmt("f", func(vec![], block(vec![expr_stmt(ident("a"))]))),
            let_stmt("a", int_lit(2)),
            expr_stmt(call(ident("f"), vec![])),
        ]),
        2,
    );
}

#[test]
fn test_closure_of_two_arguments() {
    // let mk = fn(x) { fn(y) { x + y } }; mk(2)(3)  =>  5
    expect_integer(
        run(vec![
            let_stmt(
                "mk",
                func(
                    vec!["x"],
                    block(vec![expr_stmt(func(
                        vec!["y"],
                        block(vec![expr_stmt(infix("+", ident("x"), ident("y")))]),
                    ))]),
                ),
            ),
            expr_stmt(call(call(ident("mk"), vec![int_lit(2)]), vec![int_lit(3)])),
        ]),
        5,
    );
}

#[test]
fn test_truthiness_of_values() {
    let one_or_two = |cond: Expression| {
        if_else(cond, block(vec![expr_stmt(int_lit(1))]), block(vec![expr_stmt(int_lit(2))]))
    };
    // non-null, non-boolean values are truthy
    expect_integer(run_expr(one_or_two(int_lit(0))), 1);
    expect_integer(run_expr(one_or_two(string(""))), 1);
    expect_integer(run_expr(one_or_two(array(vec![]))), 1);
    expect_integer(run_expr(one_or_two(hash(vec![]))), 1);
    expect_integer(run_expr(one_or_two(func(vec![], block(vec![])))), 1);
    // null and false are falsy
    expect_integer(
        run(vec![
            let_stmt("n", index(array(vec![]), int_lit(0))),
            expr_stmt(one_or_two(ident("n"))),
        ]),
        2,
    );
    expect_integer(run_expr(one_or_two(boolean(false))), 2);
    expect_integer(run_expr(one_or_two(boolean(true))), 1);
}

#[test]
fn test_hash_index_expressions() {
    // {"one": 10 - 9, "two": 1 + 1, 4: 4, true: 5}["two"]  =>  2
    let h = || {
        hash(vec![
            (string("one"), infix("-", int_lit(10), int_lit(9))),
            (string("two"), infix("+", int_lit(1), int_lit(1))),
            (int_lit(4), int_lit(4)),
            (boolean(true), int_lit(5)),
        ])
    };
    expect_integer(run_expr(index(h(), string("two"))), 2);
    expect_integer(run_expr(index(h(), int_lit(4))), 4);
    expect_integer(run_expr(index(h(), boolean(true))), 5);
    // a miss is null
    assert!(matches!(run_expr(index(h(), string("none"))), Object::Null));
    // an ineligible key is an error
    expect_error(
        run_expr(index(h(), array(vec![]))),
        "only string, integer and boolean can be hash key, found ARRAY",
    );
}

#[test]
fn test_hash_duplicate_keys_overwrite() {
    // {"k": 1, "k": 2}["k"]  =>  2
    expect_integer(
        run_expr(index(hash(vec![(string("k"), int_lit(1)), (string("k"), int_lit(2))]), string("k"))),
        2,
    );
}

#[test]
fn test_division() {
    expect_integer(run_expr(infix("/", int_lit(7), int_lit(2))), 3);
    expect_integer(run_expr(infix("/", prefix("-", int_lit(7)), int_lit(2))), -3);
    expect_error(run_expr(infix("/", int_lit(5), int_lit(0))), "division by zero");
}

#[test]
fn test_index_errors() {
    // 5[0]
    expect_error(run_expr(index(int_lit(5), int_lit(0))), "index operator not supported: INTEGER");
    // [1][true]
    expect_error(
        run_expr(index(array(vec![int_lit(1)]), boolean(true))),
        "index is not a integer: BOOLEAN",
    );
}

#[test]
fn test_call_errors() {
    // 5(1)
    expect_error(run_expr(call(int_lit(5), vec![int_lit(1)])), "Not a function: INTEGER");
    // fn(x) { x }(1, 2)
    expect_error(
        run_expr(call(func(vec!["x"], block(vec![expr_stmt(ident("x"))])), vec![int_lit(1), int_lit(2)])),
        "wrong number of arguments. got=2, want=1",
    );
}

#[test]
fn test_hash_key_errors() {
    // {[1]: 2}
    expect_error(
        run_expr(hash(vec![(array(vec![int_lit(1)]), int_lit(2))])),
        "only string, integer and boolean can be hash key, found ARRAY",
    );
}

#[test]
fn test_string_comparison_is_unknown_operator() {
    expect_error(
        run_expr(infix("==", string("a"), string("a"))),
        "unknown operator: STRING == STRING",
    );
}

#[test]
fn test_self_recursive_function_runs_out_of_fuel() {
    // let f = fn() { f() }; f()  — the function captures the context that
    // binds it; a bounded budget surfaces as a runtime error.
    expect_error(
        run_with_fuel(
            vec![
                let_stmt("f", func(vec![], block(vec![expr_stmt(call(ident("f"), vec![]))]))),
                expr_stmt(call(ident("f"), vec![])),
            ],
            50,
        ),
        "call depth limit reached",
    );
}

#[test]
fn test_counting_with_recursion() {
    // let count = fn(n) { if (n > 9) { n } else { count(n + 1) } }; count(0)
    expect_integer(
        run(vec![
            let_stmt(
                "count",
                func(
                    vec!["n"],
                    block(vec![expr_stmt(if_else(
                        infix(">", ident("n"), int_lit(9)),
                        block(vec![expr_stmt(ident("n"))]),
                        block(vec![expr_stmt(call(ident("count"), vec![infix("+", ident("n"), int_lit(1))]))]),
                    ))]),
                ),
            ),
            expr_stmt(call(ident("count"), vec![int_lit(0)])),
        ]),
        10,
    );
}

#[test]
fn test_puts_writes_display_lines() {
    let program = Program {
        statements: vec![expr_stmt(call(
            ident("puts"),
            vec![int_lit(1), string("two"), array(vec![int_lit(3), boolean(true)])],
        ))],
    };
    let mut evaluator = Evaluator::new(Environment::new());
    let result = evaluator.eval(&Node::Program(&program), FUEL);
    assert!(matches!(result, Object::Null));
    let lines = evaluator.output();
    assert_eq!(lines.len(), 3);
    assert_eq!(lines[0], "1");
    assert_eq!(lines[1], "two");
    assert_eq!(lines[2], "[3, true]");
}

#[test]
fn test_push_builtin() {
    assert_eq!(
        run_expr(call(ident("push"), vec![array(vec![int_lit(1)]), int_lit(2)])).inspect(),
        "[1, 2]",
    );
    expect_error(
        run_expr(call(ident("push"), vec![int_lit(1), int_lit(2)])),
        "argument to `push` must be ARRAY, got INTEGER",
    );
}

#[test]
fn test_first_and_last_of_empty_array() {
    assert!(matches!(run_expr(call(ident("first"), vec![array(vec![])])), Object::Null));
    assert!(matches!(run_expr(call(ident("last"), vec![array(vec![])])), Object::Null));
    expect_error(
        run_expr(call(ident("first"), vec![int_lit(3)])),
        "argument to `first` must be ARRAY, got INTEGER",
    );
}

#[test]
fn test_len_counts_bytes() {
    // a two-byte character counts twice
    expect_integer(run_expr(call(ident("len"), vec![string("héllo")])), 6);
}

#[test]
fn test_display_forms() {
    assert_eq!(run_expr(prefix("-", int_lit(10))).inspect(), "-10");
    assert_eq!(run_expr(boolean(true)).inspect(), "true");
    assert_eq!(run_expr(index(array(vec![]), int_lit(0))).inspect(), "null");
    assert_eq!(run_expr(hash(vec![(string("a"), int_lit(1))])).inspect(), "{a: 1}");
    assert_eq!(
        run_expr(func(vec!["x", "y"], block(vec![expr_stmt(ident("x"))]))).inspect(),
        "fn(x, y) {\nx\n}",
    );
    assert_eq!(run_expr(ident("nope")).inspect(), "Error: identifier not found: nope");
}

#[test]
fn test_hash_key_stringify() {
    assert_eq!(HashKey::Integer(-7).stringify(), "I:-7");
    assert_eq!(HashKey::Boolean(true).stringify(), "B:true");
    assert_eq!(HashKey::Str("one".to_string()).stringify(), "S:one");
}

#[test]
fn test_builtin_names_are_values() {
    // an unbound builtin name evaluates to a builtin handle; a bound name
    // shadows it
    assert!(matches!(run_expr(ident("len")), Object::BuiltinFunction(_)));
    expect_integer(
        run(vec![let_stmt("len", int_lit(3)), expr_stmt(ident("len"))]),
        3,
    );
}
