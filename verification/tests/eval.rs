use std::rc::Rc;

use treewalk::ast::{block_display, BlockStatement, Expression, Node, Program, Statement};
use treewalk::environment::Environment;
use treewalk::evaluator::Evaluator;
use treewalk::object::{key_eq, HashKey, Object};

const FUEL: u64 = 1_000_000;

fn ident(n: &str) -> Expression {
    Expression::Identifier { name: n.to_string() }
}

fn int_lit(v: i64) -> Expression {
    Expression::IntegerLiteral { value: v }
}

fn boolean(v: bool) -> Expression {
    Expression::Boolean { value: v }
}

fn string(s: &str) -> Expression {
    Expression::StringLiteral { value: s.to_string() }
}

fn prefix(op: &str, r: Expression) -> Expression {
    Expression::Prefix { operator: op.to_string(), right: Box::new(r) }
}

fn infix(op: &str, l: Expression, r: Expression) -> Expression {
    Expression::Infix { operator: op.to_string(), left: Box::new(l), right: Box::new(r) }
}

fn index(l: Expression, i: Expression) -> Expression {
    Expression::Index { left: Box::new(l), index: Box::new(i) }
}

fn array(es: Vec<Expression>) -> Expression {
    Expression::ArrayLiteral { elements: es }
}

fn hash(ms: Vec<(Expression, Expression)>) -> Expression {
    Expression::HashLiteral { members: ms }
}

fn block(ss: Vec<Statement>) -> BlockStatement {
    BlockStatement { statements: ss }
}

fn iff(c: Expression, cons: BlockStatement) -> Expression {
    Expression::If { condition: Box::new(c), consequence: cons, alternative: None }
}

fn if_else(c: Expression, cons: BlockStatement, alt: BlockStatement) -> Expression {
    Expression::If { condition: Box::new(c), consequence: cons, alternative: Some(alt) }
}

fn call(f: Expression, args: Vec<Expression>) -> Expression {
    Expression::Call { function: Box::new(f), arguments: args }
}

fn func(params: Vec<&str>, body: BlockStatement) -> Expression {
    Expression::FunctionLiteral {
        parameters: params.iter().map(|p| p.to_string()).collect(),
        body: Rc::new(body),
    }
}

fn let_stmt(n: &str, v: Expression) -> Statement {
    Statement::Let { name: n.to_string(), value: v }
}

fn ret(v: Expression) -> Statement {
    Statement::Return { value: v }
}

fn expr_stmt(v: Expression) -> Statement {
    Statement::Expression { value: v }
}

fn run(stmts: Vec<Statement>) -> Object {
    let program = Program { statements: stmts };
    let mut evaluator = Evaluator::new(Environment::new());
    evaluator.eval(&Node::Program(&program), FUEL)
}

fn run_expr(e: Expression) -> Object {
    run(vec![expr_stmt(e)])
}

fn test_integer_object(object: Object, expected: i64) {
    if let Object::Integer(value) = object {
        assert_eq!(value, expected);
    } else {
        panic!("not a integer");
    }
}

fn test_string_object(object: Object, expected: String) {
    if let Object::Str(value) = object {
        assert_eq!(value, expected);
    } else {
        panic!("not a string");
    }
}

fn test_boolean_object(object: Object, expected: bool) {
    if let Object::Boolean(value) = object {
        assert_eq!(value, expected);
    } else {
        panic!("not a boolean");
    }
}

fn test_null_object(object: Object) {
    assert!(matches!(object, Object::Null));
}

fn test_error_object(object: Object, expected: String) {
    if let Object::RuntimeError(_) = &object {
        assert_eq!(object.inspect(), format!("Error: {}", expected));
    } else {
        panic!("not a error");
    }
}

#[test]
fn test_eval_integer_expressions() {
    // "5"
    test_integer_object(run_expr(int_lit(5)), 5);
    // "10"
    test_integer_object(run_expr(int_lit(10)), 10);
    // "-5"
    test_integer_object(run_expr(prefix("-", int_lit(5))), -5);
    // "-10"
    test_integer_object(run_expr(prefix("-", int_lit(10))), -10);
    // "5 + 5 + 5 + 5 - 10"
    test_integer_object(
        run_expr(infix("-", infix("+", infix("+", infix("+", int_lit(5), int_lit(5)), int_lit(5)), int_lit(5)), int_lit(10))),
        10,
    );
    // "2 * 2 * 2 * 2 * 2"
    test_integer_object(
        run_expr(infix("*", infix("*", infix("*", infix("*", int_lit(2), int_lit(2)), int_lit(2)), int_lit(2)), int_lit(2))),
        32,
    );
    // "-50 + 100 + -50"
    test_integer_object(
        run_expr(infix("+", infix("+", prefix("-", int_lit(50)), int_lit(100)), prefix("-", int_lit(50)))),
        0,
    );
    // "5 * 2 + 10"
    test_integer_object(run_expr(infix("+", infix("*", int_lit(5), int_lit(2)), int_lit(10))), 20);
    // "5 + 2 * 10"
    test_integer_object(run_expr(infix("+", int_lit(5), infix("*", int_lit(2), int_lit(10)))), 25);
    // "20 + 2 * -10"
    test_integer_object(run_expr(infix("+", int_lit(20), infix("*", int_lit(2), prefix("-", int_lit(10))))), 0);
    // "50 / 2 * 2 + 10"
    test_integer_object(
        run_expr(infix("+", infix("*", infix("/", int_lit(50), int_lit(2)), int_lit(2)), int_lit(10))),
        60,
    );
    // "2 * (5 + 10)"
    test_integer_object(run_expr(infix("*", int_lit(2), infix("+", int_lit(5), int_lit(10)))), 30);
    // "3 * 3 * 3 + 10"
    test_integer_object(run_expr(infix("+", infix("*", infix("*", int_lit(3), int_lit(3)), int_lit(3)), int_lit(10))), 37);
    // "3 * (3 * 3) + 10"
    test_integer_object(run_expr(infix("+", infix("*", int_lit(3), infix("*", int_lit(3), int_lit(3))), int_lit(10))), 37);
    // "(5 + 10 * 2 + 15 / 3) * 2 + -10"
    test_integer_object(
        run_expr(infix(
            "+",
            infix(
                "*",
                infix("+", infix("+", int_lit(5), infix("*", int_lit(10), int_lit(2))), infix("/", int_lit(15), int_lit(3))),
                int_lit(2),
            ),
            prefix("-", int_lit(10)),
        )),
        50,
    );
}

#[test]
fn test_eval_boolean_expresions() {
    test_boolean_object(run_expr(boolean(true)), true);
    test_boolean_object(run_expr(boolean(false)), false);
    test_boolean_object(run_expr(infix("<", int_lit(1), int_lit(2))), true);
    test_boolean_object(run_expr(infix(">", int_lit(1), int_lit(2))), false);
    test_boolean_object(run_expr(infix("<", int_lit(1), int_lit(1))), false);
    test_boolean_object(run_expr(infix(">", int_lit(1), int_lit(1))), false);
    test_boolean_object(run_expr(infix("==", int_lit(1), int_lit(1))), true);
    test_boolean_object(run_expr(infix("!=", int_lit(1), int_lit(1))), false);
    test_boolean_object(run_expr(infix("==", int_lit(1), int_lit(2))), false);
    test_boolean_object(run_expr(infix("!=", int_lit(1), int_lit(2))), true);
    test_boolean_object(run_expr(infix("==", boolean(true), boolean(true))), true);
    test_boolean_object(run_expr(infix("==", boolean(false), boolean(false))), true);
    test_boolean_object(run_expr(infix("==", boolean(true), boolean(false))), false);
    test_boolean_object(run_expr(infix("!=", boolean(true), boolean(false))), true);
    test_boolean_object(run_expr(infix("!=", boolean(false), boolean(true))), true);
    test_boolean_object(run_expr(infix("==", infix("<", int_lit(1), int_lit(2)), boolean(true))), true);
    test_boolean_object(run_expr(infix("==", infix("<", int_lit(1), int_lit(2)), boolean(false))), false);
    test_boolean_object(run_expr(infix("==", infix(">", int_lit(1), int_lit(2)), boolean(true))), false);
    test_boolean_object(run_expr(infix("==", infix(">", int_lit(1), int_lit(2)), boolean(false))), true);
}

#[test]
fn test_eval_bang_operators() {
    test_boolean_object(run_expr(prefix("!", boolean(true))), false);
    test_boolean_object(run_expr(prefix("!", boolean(false))), true);
    test_boolean_object(run_expr(prefix("!", int_lit(5))), false);
    test_boolean_object(run_expr(prefix("!", prefix("!", boolean(true)))), true);
    test_boolean_object(run_expr(prefix("!", prefix("!", boolean(false)))), false);
    test_boolean_object(run_expr(prefix("!", prefix("!", int_lit(5)))), true);
}

#[test]
fn test_if_else_expressions() {
    // "if (true) { 10 }"
    test_integer_object(run_expr(iff(boolean(true), block(vec![expr_stmt(int_lit(10))]))), 10);
    // "if (false) { 10 }"
    test_null_object(run_expr(iff(boolean(false), block(vec![expr_stmt(int_lit(10))]))));
    // "if (1) { 10 }"
    test_integer_object(run_expr(iff(int_lit(1), block(vec![expr_stmt(int_lit(10))]))), 10);
    // "if (1 < 2) { 10 }"
    test_integer_object(run_expr(iff(infix("<", int_lit(1), int_lit(2)), block(vec![expr_stmt(int_lit(10))]))), 10);
    // "if (1 > 2) { 10 }"
    test_null_object(run_expr(iff(infix(">", int_lit(1), int_lit(2)), block(vec![expr_stmt(int_lit(10))]))));
    // "if (1 > 2) { 10 } else { 20 }"
    test_integer_object(
        run_expr(if_else(
            infix(">", int_lit(1), int_lit(2)),
            block(vec![expr_stmt(int_lit(10))]),
            block(vec![expr_stmt(int_lit(20))]),
        )),
        20,
    );
    // "if (1 < 2) { 10 } else { 20 }"
    test_integer_object(
        run_expr(if_else(
            infix("<", int_lit(1), int_lit(2)),
            block(vec![expr_stmt(int_lit(10))]),
            block(vec![expr_stmt(int_lit(20))]),
        )),
        10,
    );
}

#[test]
fn test_return_statements() {
    // "return 10;"
    test_integer_object(run(vec![ret(int_lit(10))]), 10);
    // "return 10; 9;"
    test_integer_object(run(vec![ret(int_lit(10)), expr_stmt(int_lit(9))]), 10);
    // "return 2 * 5; 9;"
    test_integer_object(run(vec![ret(infix("*", int_lit(2), int_lit(5))), expr_stmt(int_lit(9))]), 10);
    // "9; return 2 * 5; 9;"
    test_integer_object(
        run(vec![expr_stmt(int_lit(9)), ret(infix("*", int_lit(2), int_lit(5))), expr_stmt(int_lit(9))]),
        10,
    );
    // "if (10 > 1) { if (10 > 1) { return 10; } return 1; }"
    test_integer_object(
        run(vec![expr_stmt(iff(
            infix(">", int_lit(10), int_lit(1)),
            block(vec![
                expr_stmt(iff(infix(">", int_lit(10), int_lit(1)), block(vec![ret(int_lit(10))]))),
                ret(int_lit(1)),
            ]),
        ))]),
        10,
    );
}

#[test]
fn test_error_handling() {
    // "5 + true;"
    test_error_object(
        run_expr(infix("+", int_lit(5), boolean(true))),
        "type mismatch: INTEGER + BOOLEAN".to_string(),
    );
    // "5 + true; 5;"
    test_error_object(
        run(vec![expr_stmt(infix("+", int_lit(5), boolean(true))), expr_stmt(int_lit(5))]),
        "type mismatch: INTEGER + BOOLEAN".to_string(),
    );
    // "-true"
    test_error_object(run_expr(prefix("-", boolean(true))), "unknown operator: -BOOLEAN".to_string());
    // "true + false;"
    test_error_object(
        run_expr(infix("+", boolean(true), boolean(false))),
        "unknown operator: BOOLEAN + BOOLEAN".to_string(),
    );
    // "if (10 > 1) { true + false; }"
    test_error_object(
        run_expr(iff(
            infix(">", int_lit(10), int_lit(1)),
            block(vec![expr_stmt(infix("+", boolean(true), boolean(false)))]),
        )),
        "unknown operator: BOOLEAN + BOOLEAN".to_string(),
    );
    // "if (10 > 1) { if (10 > 1) { return true + false; } return 1; }"
    test_error_object(
        run(vec![expr_stmt(iff(
            infix(">", int_lit(10), int_lit(1)),
            block(vec![
                expr_stmt(iff(
                    infix(">", int_lit(10), int_lit(1)),
                    block(vec![ret(infix("+", boolean(true), boolean(false)))]),
                )),
                ret(int_lit(1)),
            ]),
        ))]),
        "unknown operator: BOOLEAN + BOOLEAN".to_string(),
    );
    // "foobar"
    test_error_object(run_expr(ident("foobar")), "identifier not found: foobar".to_string());
    // "\"Hello\" - \"World\""
    test_error_object(
        run_expr(infix("-", string("Hello"), string("World"))),
        "unknown operator: STRING - STRING".to_string(),
    );
}

#[test]
fn test_let_statements() {
    // "let a = 5; a;"
    test_integer_object(run(vec![let_stmt("a", int_lit(5)), expr_stmt(ident("a"))]), 5);
    // "let a = 5 * 5; a;"
    test_integer_object(run(vec![let_stmt("a", infix("*", int_lit(5), int_lit(5))), expr_stmt(ident("a"))]), 25);
    // "let a = 5; let b = a; b;"
    test_integer_object(
        run(vec![let_stmt("a", int_lit(5)), let_stmt("b", ident("a")), expr_stmt(ident("b"))]),
        5,
    );
    // "let a = 5; let b = a; let c = a + b + 5; c;"
    test_integer_object(
        run(vec![
            let_stmt("a", int_lit(5)),
            let_stmt("b", ident("a")),
            let_stmt("c", infix("+", infix("+", ident("a"), ident("b")), int_lit(5))),
            expr_stmt(ident("c")),
        ]),
        15,
    );
}

#[test]
fn test_function_object() {
    // "fn(x) { x + 2 };"
    let evaluated = run_expr(func(vec!["x"], block(vec![expr_stmt(infix("+", ident("x"), int_lit(2)))])));
    if let Object::Function { parameters, body, .. } = evaluated {
        assert_eq!(parameters.len(), 1);
        assert_eq!(parameters[0], "x".to_string());
        assert_eq!(block_display(&body), "(x + 2)");
    } else {
        panic!("not a function");
    }
}

#[test]
fn test_function_application() {
    // "let identity = fn(x) { x; }; identity(5);"
    test_integer_object(
        run(vec![
            let_stmt("identity", func(vec!["x"], block(vec![expr_stmt(ident("x"))]))),
            expr_stmt(call(ident("identity"), vec![int_lit(5)])),
        ]),
        5,
    );
    // "let identity = fn(x) { return x; }; identity(5);"
    test_integer_object(
        run(vec![
            let_stmt("identity", func(vec!["x"], block(vec![ret(ident("x"))]))),
            expr_stmt(call(ident("identity"), vec![int_lit(5)])),
        ]),
        5,
    );
    // "let double = fn(x) { x * 2; }; double(5);"
    test_integer_object(
        run(vec![
            let_stmt("double", func(vec!["x"], block(vec![expr_stmt(infix("*", ident("x"), int_lit(2)))]))),
            expr_stmt(call(ident("double"), vec![int_lit(5)])),
        ]),
        10,
    );
    // "let add = fn(x, y) { x + y; }; add(5, 5);"
    test_integer_object(
        run(vec![
            let_stmt(
                "add",
                func(vec!["x", "y"], block(vec![expr_stmt(infix("+", ident("x"), ident("y")))])),
            ),
            expr_stmt(call(ident("add"), vec![int_lit(5), int_lit(5)])),
        ]),
        10,
    );
    // "let add = fn(x, y) { x + y; }; add(5 + 5, add(5, 5));"
    test_integer_object(
        run(vec![
            let_stmt(
                "add",
                func(vec!["x", "y"], block(vec![expr_stmt(infix("+", ident("x"), ident("y")))])),
            ),
            expr_stmt(call(
                ident("add"),
                vec![infix("+", int_lit(5), int_lit(5)), call(ident("add"), vec![int_lit(5), int_lit(5)])],
            )),
        ]),
        20,
    );
    // "fn(x) { x; }(5)"
    test_integer_object(
        run_expr(call(func(vec!["x"], block(vec![expr_stmt(ident("x"))])), vec![int_lit(5)])),
        5,
    );
}

#[test]
fn test_closures() {
    // "let newAdder = fn(x) { fn(y) { x + y }; };
    //  let addTwo = newAdder(2);
    //  addTwo(2);"
    test_integer_object(
        run(vec![
            let_stmt(
                "newAdder",
                func(
                    vec!["x"],
                    block(vec![expr_stmt(func(
                        vec!["y"],
                        block(vec![expr_stmt(infix("+", ident("x"), ident("y")))]),
                    ))]),
                ),
            ),
            let_stmt("addTwo", call(ident("newAdder"), vec![int_lit(2)])),
            expr_stmt(call(ident("addTwo"), vec![int_lit(2)])),
        ]),
        4,
    );
}

#[test]
fn test_string_literal() {
    // "\"Hello world!\""
    test_string_object(run_expr(string("Hello world!")), "Hello world!".into());
}

#[test]
fn test_string_concatenation() {
    // "\"Hello\" + \" \" + \"world!\""
    test_string_object(
        run_expr(infix("+", infix("+", string("Hello"), string(" ")), string("world!"))),
        "Hello world!".into(),
    );
}

#[test]
fn test_builtin_functions() {
    // len("") / len("four") / len("hello world") / len([1, 2, 3])
    test_integer_object(run_expr(call(ident("len"), vec![string("")])), 0);
    test_integer_object(run_expr(call(ident("len"), vec![string("four")])), 4);
    test_integer_object(run_expr(call(ident("len"), vec![string("hello world")])), 11);
    test_integer_object(run_expr(call(ident("len"), vec![array(vec![int_lit(1), int_lit(2), int_lit(3)])])), 3);
    // first([1, 2, 3]) / last([1, 2, 3])
    test_integer_object(run_expr(call(ident("first"), vec![array(vec![int_lit(1), int_lit(2), int_lit(3)])])), 1);
    test_integer_object(run_expr(call(ident("last"), vec![array(vec![int_lit(1), int_lit(2), int_lit(3)])])), 3);
    // len(1)
    test_error_object(
        run_expr(call(ident("len"), vec![int_lit(1)])),
        "argument to `len` not supported, got INTEGER".to_string(),
    );
    // len("one", "two")
    test_error_object(
        run_expr(call(ident("len"), vec![string("one"), string("two")])),
        "wrong number of arguments. got=2, want=1".to_string(),
    );
}

#[test]
fn test_rest_function() {
    // rest([1, 2, 3]) => "[2, 3]"
    assert_eq!(
        run_expr(call(ident("rest"), vec![array(vec![int_lit(1), int_lit(2), int_lit(3)])])).inspect(),
        "[2, 3]",
    );
    // rest([2, 3]) => "[3]"
    assert_eq!(run_expr(call(ident("rest"), vec![array(vec![int_lit(2), int_lit(3)])])).inspect(), "[3]");
}

#[test]
fn test_array_literals() {
    // "[1, 2 * 2, 3 + 3]"
    let evaluated = run_expr(array(vec![
        int_lit(1),
        infix("*", int_lit(2), int_lit(2)),
        infix("+", int_lit(3), int_lit(3)),
    ]));
    if let Object::Array(elements) = evaluated {
        test_integer_object(elements[0].duplicate(), 1);
        test_integer_object(elements[1].duplicate(), 4);
        test_integer_object(elements[2].duplicate(), 6);
    } else {
        panic!("not a array");
    }
}

#[test]
fn test_array_index_expressions() {
    let arr = || array(vec![int_lit(1), int_lit(2), int_lit(3)]);
    // "[1, 2, 3][0]" etc.
    test_integer_object(run_expr(index(arr(), int_lit(0))), 1);
    test_integer_object(run_expr(index(arr(), int_lit(1))), 2);
    test_integer_object(run_expr(index(arr(), int_lit(2))), 3);
    // "let i = 0; [1][i];"
    test_integer_object(
        run(vec![let_stmt("i", int_lit(0)), expr_stmt(index(array(vec![int_lit(1)]), ident("i")))]),
        1,
    );
    // "[1, 2, 3][1 + 1];"
    test_integer_object(run_expr(index(arr(), infix("+", int_lit(1), int_lit(1)))), 3);
    // "let myArray = [1, 2, 3]; myArray[2];"
    test_integer_object(
        run(vec![let_stmt("myArray", arr()), expr_stmt(index(ident("myArray"), int_lit(2)))]),
        3,
    );
    // "let myArray = [1, 2, 3]; myArray[0] + myArray[1] + myArray[2];"
    test_integer_object(
        run(vec![
            let_stmt("myArray", arr()),
            expr_stmt(infix(
                "+",
                infix("+", index(ident("myArray"), int_lit(0)), index(ident("myArray"), int_lit(1))),
                index(ident("myArray"), int_lit(2)),
            )),
        ]),
        6,
    );
    // "let myArray = [1, 2, 3]; let i = myArray[0]; myArray[i]"
    test_integer_object(
        run(vec![
            let_stmt("myArray", arr()),
            let_stmt("i", index(ident("myArray"), int_lit(0))),
            expr_stmt(index(ident("myArray"), ident("i"))),
        ]),
        2,
    );
    // "[1, 2, 3][3]" and "[1, 2, 3][-1]"
    test_null_object(run_expr(index(arr(), int_lit(3))));
    test_null_object(run_expr(index(arr(), prefix("-", int_lit(1)))));
}

#[test]
fn test_hash_literals() {
    // let two = "two";
    // { "one": 10 - 9, two: 1 + 1, "thr" + "ee": 6 / 2, 4: 4, true: 5, false: 6 }
    let evaluated = run(vec![
        let_stmt("two", string("two")),
        expr_stmt(hash(vec![
            (string("one"), infix("-", int_lit(10), int_lit(9))),
            (ident("two"), infix("+", int_lit(1), int_lit(1))),
            (infix("+", string("thr"), string("ee")), infix("/", int_lit(6), int_lit(2))),
            (int_lit(4), int_lit(4)),
            (boolean(true), int_lit(5)),
            (boolean(false), int_lit(6)),
        ])),
    ]);
    if let Object::Hash(pairs) = evaluated {
        let expected = [
            (HashKey::Str("one".to_string()), 1),
            (HashKey::Str("two".to_string()), 2),
            (HashKey::Str("three".to_string()), 3),
            (HashKey::Integer(4), 4),
            (HashKey::Boolean(true), 5),
            (HashKey::Boolean(false), 6),
        ];
        assert_eq!(pairs.len(), expected.len());
        for (key, value) in expected.iter() {
            let found = pairs.iter().find(|p| key_eq(&p.0, key));
            match found {
                Some(pair) => test_integer_object(pair.1.duplicate(), *value),
                None => panic!("key missing: {}", key.stringify()),
            }
        }
    } else {
        panic!("not a hash");
    }
}
