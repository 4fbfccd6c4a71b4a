//! The syntax tree that the evaluator consumes.
//!
//! The tree is produced elsewhere (by a parser) and is read-only during
//! evaluation.  Each node category has a mathematical view (`ProgramV`,
//! `StatementV`, `BlockV`, `ExpressionV`) over `Seq` and `Seq<char>`; the
//! contracts of the evaluator are stated over these views.

use vstd::prelude::*;
use std::rc::Rc;

verus! {

broadcast use vstd::std_specs::vec::axiom_vec_decreases_to_view;

/// A whole program: the top-level sequence of statements.
pub struct Program {
    pub statements: Vec<Statement>,
}

/// A statement: a `let` binding, a `return`, or a bare expression.
pub enum Statement {
    Let { name: String, value: Expression },
    Return { value: Expression },
    Expression { value: Expression },
}

/// A brace-delimited sequence of statements.
pub struct BlockStatement {
    pub statements: Vec<Statement>,
}

/// An expression node.  Operators are carried as strings, as the parser
/// produces them; operand positions hold boxed sub-expressions.
pub enum Expression {
    Identifier { name: String },
    IntegerLiteral { value: i64 },
    StringLiteral { value: String },
    Boolean { value: bool },
    ArrayLiteral { elements: Vec<Expression> },
    HashLiteral { members: Vec<(Expression, Expression)> },
    Index { left: Box<Expression>, index: Box<Expression> },
    Prefix { operator: String, right: Box<Expression> },
    Infix { operator: String, left: Box<Expression>, right: Box<Expression> },
    If {
        condition: Box<Expression>,
        consequence: BlockStatement,
        alternative: Option<BlockStatement>,
    },
    Call { function: Box<Expression>, arguments: Vec<Expression> },
    FunctionLiteral { parameters: Vec<String>, body: Rc<BlockStatement> },
}

/// A borrowed handle on any node category, the argument of `eval`.
pub enum Node<'a> {
    Program(&'a Program),
    Statement(&'a Statement),
    BlockStatement(&'a BlockStatement),
    Expression(&'a Expression),
}

/// Mathematical view of a program.
#[verifier::ext_equal]
pub struct ProgramV {
    pub statements: Seq<StatementV>,
}

/// Mathematical view of a statement.
#[verifier::ext_equal]
pub enum StatementV {
    Let { name: Seq<char>, value: ExpressionV },
    Return { value: ExpressionV },
    Expression { value: ExpressionV },
}

/// Mathematical view of a block.
#[verifier::ext_equal]
pub struct BlockV {
    pub statements: Seq<StatementV>,
}

/// Mathematical view of an expression.
#[verifier::ext_equal]
pub enum ExpressionV {
    Identifier { name: Seq<char> },
    IntegerLiteral { value: i64 },
    StringLiteral { value: Seq<char> },
    Boolean { value: bool },
    ArrayLiteral { elements: Seq<ExpressionV> },
    HashLiteral { members: Seq<(ExpressionV, ExpressionV)> },
    Index { left: Box<ExpressionV>, index: Box<ExpressionV> },
    Prefix { operator: Seq<char>, right: Box<ExpressionV> },
    Infix { operator: Seq<char>, left: Box<ExpressionV>, right: Box<ExpressionV> },
    If {
        condition: Box<ExpressionV>,
        consequence: BlockV,
        alternative: Option<BlockV>,
    },
    Call { function: Box<ExpressionV>, arguments: Seq<ExpressionV> },
    FunctionLiteral { parameters: Seq<Seq<char>>, body: BlockV },
}

/// Mathematical view of a `Node`.
#[verifier::ext_equal]
pub enum NodeV {
    Program(ProgramV),
    Statement(StatementV),
    BlockStatement(BlockV),
    Expression(ExpressionV),
}

pub open spec fn program_view(p: Program) -> ProgramV
    decreases p, 1int,
{
    ProgramV { statements: stmts_view_from(p.statements@, 0) }
}

pub open spec fn block_view(b: BlockStatement) -> BlockV
    decreases b, 1int,
{
    BlockV { statements: stmts_view_from(b.statements@, 0) }
}

pub open spec fn stmts_view_from(ss: Seq<Statement>, i: int) -> Seq<StatementV>
    decreases ss, ss.len() - i,
{
    if 0 <= i < ss.len() {
        seq![stmt_view(ss[i])] + stmts_view_from(ss, i + 1)
    } else {
        seq![]
    }
}

pub open spec fn stmt_view(s: Statement) -> StatementV
    decreases s, 0int,
{
    match s {
        Statement::Let { name, value } => StatementV::Let { name: name@, value: expr_view(value) },
        Statement::Return { value } => StatementV::Return { value: expr_view(value) },
        Statement::Expression { value } => StatementV::Expression { value: expr_view(value) },
    }
}

pub open spec fn exprs_view_from(es: Seq<Expression>, i: int) -> Seq<ExpressionV>
    decreases es, es.len() - i,
{
    if 0 <= i < es.len() {
        seq![expr_view(es[i])] + exprs_view_from(es, i + 1)
    } else {
        seq![]
    }
}

pub open spec fn pairs_view_from(ms: Seq<(Expression, Expression)>, i: int) -> Seq<
    (ExpressionV, ExpressionV),
>
    decreases ms, ms.len() - i,
{
    if 0 <= i < ms.len() {
        seq![(expr_view(ms[i].0), expr_view(ms[i].1))] + pairs_view_from(ms, i + 1)
    } else {
        seq![]
    }
}

pub open spec fn params_view(ps: Seq<String>) -> Seq<Seq<char>> {
    ps.map_values(|p: String| p@)
}

pub open spec fn expr_view(e: Expression) -> ExpressionV
    decreases e, 0int,
{
    match e {
        Expression::Identifier { name } => ExpressionV::Identifier { name: name@ },
        Expression::IntegerLiteral { value } => ExpressionV::IntegerLiteral { value },
        Expression::StringLiteral { value } => ExpressionV::StringLiteral { value: value@ },
        Expression::Boolean { value } => ExpressionV::Boolean { value },
        Expression::ArrayLiteral { elements } => ExpressionV::ArrayLiteral {
            elements: exprs_view_from(elements@, 0),
        },
        Expression::HashLiteral { members } => ExpressionV::HashLiteral {
            members: pairs_view_from(members@, 0),
        },
        Expression::Index { left, index } => ExpressionV::Index {
            left: Box::new(expr_view(*left)),
            index: Box::new(expr_view(*index)),
        },
        Expression::Prefix { operator, right } => ExpressionV::Prefix {
            operator: operator@,
            right: Box::new(expr_view(*right)),
        },
        Expression::Infix { operator, left, right } => ExpressionV::Infix {
            operator: operator@,
            left: Box::new(expr_view(*left)),
            right: Box::new(expr_view(*right)),
        },
        Expression::If { condition, consequence, alternative } => ExpressionV::If {
            condition: Box::new(expr_view(*condition)),
            consequence: block_view(consequence),
            alternative: match alternative {
                Some(alt) => Some(block_view(alt)),
                None => None,
            },
        },
        Expression::Call { function, arguments } => ExpressionV::Call {
            function: Box::new(expr_view(*function)),
            arguments: exprs_view_from(arguments@, 0),
        },
        Expression::FunctionLiteral { parameters, body } => ExpressionV::FunctionLiteral {
            parameters: params_view(parameters@),
            body: block_view(*body),
        },
    }
}

/// Relies on `Rc::clone`: the returned handle is the same shared block.
#[verifier::external_body]
pub fn share_block(b: &Rc<BlockStatement>) -> (r: Rc<BlockStatement>)
    ensures
        r == *b,
{
    Rc::clone(b)
}

/// `stmts_view_from(ss, i)` lists the views of `ss[i..]`, elementwise.
pub proof fn lemma_stmts_view_from(ss: Seq<Statement>, i: int)
    requires
        0 <= i <= ss.len(),
    ensures
        stmts_view_from(ss, i).len() == ss.len() - i,
        forall|j: int|
            0 <= j < ss.len() - i ==> stmts_view_from(ss, i)[j] == stmt_view(ss[i + j]),
    decreases ss.len() - i,
{
    if i < ss.len() {
        lemma_stmts_view_from(ss, i + 1);
    }
}

/// `exprs_view_from(es, i)` lists the views of `es[i..]`, elementwise.
pub proof fn lemma_exprs_view_from(es: Seq<Expression>, i: int)
    requires
        0 <= i <= es.len(),
    ensures
        exprs_view_from(es, i).len() == es.len() - i,
        forall|j: int|
            0 <= j < es.len() - i ==> exprs_view_from(es, i)[j] == expr_view(es[i + j]),
    decreases es.len() - i,
{
    if i < es.len() {
        lemma_exprs_view_from(es, i + 1);
    }
}

/// `pairs_view_from(ms, i)` lists the views of `ms[i..]`, pairwise.
pub proof fn lemma_pairs_view_from(ms: Seq<(Expression, Expression)>, i: int)
    requires
        0 <= i <= ms.len(),
    ensures
        pairs_view_from(ms, i).len() == ms.len() - i,
        forall|j: int|
            0 <= j < ms.len() - i ==> pairs_view_from(ms, i)[j] == (
                expr_view(ms[i + j].0),
                expr_view(ms[i + j].1),
            ),
    decreases ms.len() - i,
{
    if i < ms.len() {
        lemma_pairs_view_from(ms, i + 1);
    }
}

pub open spec fn node_view(n: Node<'_>) -> NodeV {
    match n {
        Node::Program(p) => NodeV::Program(program_view(*p)),
        Node::Statement(s) => NodeV::Statement(stmt_view(*s)),
        Node::BlockStatement(b) => NodeV::BlockStatement(block_view(*b)),
        Node::Expression(e) => NodeV::Expression(expr_view(*e)),
    }
}

impl View for Program {
    type V = ProgramV;

    open spec fn view(&self) -> ProgramV {
        program_view(*self)
    }
}

impl View for Statement {
    type V = StatementV;

    open spec fn view(&self) -> StatementV {
        stmt_view(*self)
    }
}

impl View for BlockStatement {
    type V = BlockV;

    open spec fn view(&self) -> BlockV {
        block_view(*self)
    }
}

impl View for Expression {
    type V = ExpressionV;

    open spec fn view(&self) -> ExpressionV {
        expr_view(*self)
    }
}

impl<'a> View for Node<'a> {
    type V = NodeV;

    open spec fn view(&self) -> NodeV {
        node_view(*self)
    }
}

/// Display form of a statement, in the syntax tree's own rendering.
pub open spec fn stmt_dchars(s: StatementV) -> Seq<char>
    decreases s, 0int,
{
    match s {
        StatementV::Let { name, value } => "let "@ + name + " = "@ + expr_dchars(value) + ";"@,
        StatementV::Return { value } => "return "@ + expr_dchars(value) + ";"@,
        StatementV::Expression { value } => expr_dchars(value),
    }
}

/// Display forms of the statements of `ss` from `i` on, concatenated.
pub open spec fn stmts_dchars(ss: Seq<StatementV>, i: int) -> Seq<char>
    decreases ss, ss.len() - i,
{
    if 0 <= i < ss.len() {
        stmt_dchars(ss[i]) + stmts_dchars(ss, i + 1)
    } else {
        Seq::empty()
    }
}

/// Display form of a block: its statements' forms, concatenated.
pub open spec fn block_dchars(b: BlockV) -> Seq<char>
    decreases b, 1int,
{
    stmts_dchars(b.statements, 0)
}

/// Display form of a program: its statements' forms, concatenated.
pub open spec fn program_dchars(p: ProgramV) -> Seq<char> {
    stmts_dchars(p.statements, 0)
}

/// Display forms of the expressions of `es` from `i` on, joined by `", "`.
pub open spec fn exprs_dchars(es: Seq<ExpressionV>, i: int) -> Seq<char>
    decreases es, es.len() - i,
{
    if 0 <= i < es.len() {
        if i + 1 < es.len() {
            expr_dchars(es[i]) + ", "@ + exprs_dchars(es, i + 1)
        } else {
            expr_dchars(es[i])
        }
    } else {
        Seq::empty()
    }
}

/// Display forms of the key/value pairs of `ms` from `i` on, joined by `", "`.
pub open spec fn hash_members_dchars(ms: Seq<(ExpressionV, ExpressionV)>, i: int) -> Seq<char>
    decreases ms, ms.len() - i,
{
    if 0 <= i < ms.len() {
        if i + 1 < ms.len() {
            expr_dchars(ms[i].0) + ":"@ + expr_dchars(ms[i].1) + ", "@ + hash_members_dchars(
                ms,
                i + 1,
            )
        } else {
            expr_dchars(ms[i].0) + ":"@ + expr_dchars(ms[i].1)
        }
    } else {
        Seq::empty()
    }
}

/// Parameter names joined by `", "`.
pub open spec fn params_dchars(ps: Seq<Seq<char>>, i: int) -> Seq<char>
    decreases ps.len() - i,
{
    if 0 <= i < ps.len() {
        if i + 1 < ps.len() {
            ps[i] + ", "@ + params_dchars(ps, i + 1)
        } else {
            ps[i]
        }
    } else {
        Seq::empty()
    }
}

/// Display form of an expression.
pub open spec fn expr_dchars(e: ExpressionV) -> Seq<char>
    decreases e, 0int,
{
    match e {
        ExpressionV::Identifier { name } => name,
        ExpressionV::IntegerLiteral { value } => crate::text::dec_chars(value as int),
        ExpressionV::StringLiteral { value } => value,
        ExpressionV::Boolean { value } => if value {
            "true"@
        } else {
            "false"@
        },
        ExpressionV::ArrayLiteral { elements } => "["@ + exprs_dchars(elements, 0) + "]"@,
        ExpressionV::HashLiteral { members } => "{"@ + hash_members_dchars(members, 0) + "}"@,
        ExpressionV::Index { left, index } => "("@ + expr_dchars(*left) + "["@ + expr_dchars(
            *index,
        ) + "])"@,
        ExpressionV::Prefix { operator, right } => "("@ + operator + expr_dchars(*right) + ")"@,
        ExpressionV::Infix { operator, left, right } => "("@ + expr_dchars(*left) + " "@ + operator
            + " "@ + expr_dchars(*right) + ")"@,
        ExpressionV::If { condition, consequence, alternative } => "if"@ + expr_dchars(*condition)
            + " "@ + block_dchars(consequence) + (match alternative {
            Some(alt) => "else "@ + block_dchars(alt),
            None => Seq::empty(),
        }),
        ExpressionV::Call { function, arguments } => expr_dchars(*function) + "("@ + exprs_dchars(
            arguments,
            0,
        ) + ")"@,
        ExpressionV::FunctionLiteral { parameters, body } => "fn("@ + params_dchars(parameters, 0)
            + ") "@ + block_dchars(body),
    }
}

/// Appends the display form of `s` to `buf`.
pub fn push_stmt_display(buf: &mut Vec<char>, s: &Statement)
    ensures
        final(buf)@ == old(buf)@ + stmt_dchars(stmt_view(*s)),
    decreases s, 0int,
{
    let ghost start = buf@;
    match s {
        Statement::Let { name, value } => {
            crate::text::append_str(buf, "let ");
            crate::text::append_str(buf, name.as_str());
            crate::text::append_str(buf, " = ");
            push_expr_display(buf, value);
            crate::text::append_str(buf, ";");
            proof {
                assert(buf@ =~= start + stmt_dchars(stmt_view(*s)));
            }
        },
        Statement::Return { value } => {
            crate::text::append_str(buf, "return ");
            push_expr_display(buf, value);
            crate::text::append_str(buf, ";");
            proof {
                assert(buf@ =~= start + stmt_dchars(stmt_view(*s)));
            }
        },
        Statement::Expression { value } => {
            push_expr_display(buf, value);
        },
    }
}

/// Appends the display forms of `ss[i..]` to `buf`.
pub fn push_stmts_display(buf: &mut Vec<char>, ss: &Vec<Statement>, i: usize)
    requires
        i <= ss@.len(),
    ensures
        final(buf)@ == old(buf)@ + stmts_dchars(stmts_view_from(ss@, 0), i as int),
    decreases ss@, ss@.len() - i,
{
    proof {
        lemma_stmts_view_from(ss@, 0);
    }
    if i < ss.len() {
        let ghost start = buf@;
        push_stmt_display(buf, &ss[i]);
        push_stmts_display(buf, ss, i + 1);
        proof {
            assert(buf@ =~= start + stmts_dchars(stmts_view_from(ss@, 0), i as int));
        }
    }
}

/// Appends the display form of `b` to `buf`.
pub fn push_block_display(buf: &mut Vec<char>, b: &BlockStatement)
    ensures
        final(buf)@ == old(buf)@ + block_dchars(block_view(*b)),
    decreases b, 1int,
{
    push_stmts_display(buf, &b.statements, 0);
}

/// Appends the display forms of `es[i..]`, joined by `", "`, to `buf`.
pub fn push_exprs_display(buf: &mut Vec<char>, es: &Vec<Expression>, i: usize)
    requires
        i <= es@.len(),
    ensures
        final(buf)@ == old(buf)@ + exprs_dchars(exprs_view_from(es@, 0), i as int),
    decreases es@, es@.len() - i,
{
    proof {
        lemma_exprs_view_from(es@, 0);
    }
    if i < es.len() {
        let ghost start = buf@;
        push_expr_display(buf, &es[i]);
        if i + 1 < es.len() {
            crate::text::append_str(buf, ", ");
            push_exprs_display(buf, es, i + 1);
        }
        proof {
            assert(buf@ =~= start + exprs_dchars(exprs_view_from(es@, 0), i as int));
        }
    }
}

/// Appends the display forms of the pairs `ms[i..]`, joined by `", "`, to
/// `buf`.
pub fn push_members_display(buf: &mut Vec<char>, ms: &Vec<(Expression, Expression)>, i: usize)
    requires
        i <= ms@.len(),
    ensures
        final(buf)@ == old(buf)@ + hash_members_dchars(pairs_view_from(ms@, 0), i as int),
    decreases ms@, ms@.len() - i,
{
    proof {
        lemma_pairs_view_from(ms@, 0);
    }
    if i < ms.len() {
        let ghost start = buf@;
        push_expr_display(buf, &ms[i].0);
        crate::text::append_str(buf, ":");
        push_expr_display(buf, &ms[i].1);
        if i + 1 < ms.len() {
            crate::text::append_str(buf, ", ");
            push_members_display(buf, ms, i + 1);
        }
        proof {
            assert(buf@ =~= start + hash_members_dchars(pairs_view_from(ms@, 0), i as int));
        }
    }
}

/// Appends the parameter names `ps[i..]`, joined by `", "`, to `buf`.
pub fn push_params_display(buf: &mut Vec<char>, ps: &Vec<String>, i: usize)
    requires
        i <= ps@.len(),
    ensures
        final(buf)@ == old(buf)@ + params_dchars(params_view(ps@), i as int),
    decreases ps@.len() - i,
{
    if i < ps.len() {
        let ghost start = buf@;
        crate::text::append_str(buf, ps[i].as_str());
        if i + 1 < ps.len() {
            crate::text::append_str(buf, ", ");
            push_params_display(buf, ps, i + 1);
        }
        proof {
            assert(buf@ =~= start + params_dchars(params_view(ps@), i as int));
        }
    }
}

/// Appends the display form of `e` to `buf`.
pub fn push_expr_display(buf: &mut Vec<char>, e: &Expression)
    ensures
        final(buf)@ == old(buf)@ + expr_dchars(expr_view(*e)),
    decreases e, 0int,
{
    let ghost start = buf@;
    match e {
        Expression::Identifier { name } => {
            crate::text::append_str(buf, name.as_str());
        },
        Expression::IntegerLiteral { value } => {
            crate::text::push_dec_i64(buf, *value);
        },
        Expression::StringLiteral { value } => {
            crate::text::append_str(buf, value.as_str());
        },
        Expression::Boolean { value } => {
            if *value {
                crate::text::append_str(buf, "true");
            } else {
                crate::text::append_str(buf, "false");
            }
        },
        Expression::ArrayLiteral { elements } => {
            crate::text::append_str(buf, "[");
            push_exprs_display(buf, elements, 0);
            crate::text::append_str(buf, "]");
            proof {
                assert(buf@ =~= start + expr_dchars(expr_view(*e)));
            }
        },
        Expression::HashLiteral { members } => {
            crate::text::append_str(buf, "{");
            push_members_display(buf, members, 0);
            crate::text::append_str(buf, "}");
            proof {
                assert(buf@ =~= start + expr_dchars(expr_view(*e)));
            }
        },
        Expression::Index { left, index } => {
            crate::text::append_str(buf, "(");
            push_expr_display(buf, &**left);
            crate::text::append_str(buf, "[");
            push_expr_display(buf, &**index);
            crate::text::append_str(buf, "])");
            proof {
                assert(buf@ =~= start + expr_dchars(expr_view(*e)));
            }
        },
        Expression::Prefix { operator, right } => {
            crate::text::append_str(buf, "(");
            crate::text::append_str(buf, operator.as_str());
            push_expr_display(buf, &**right);
            crate::text::append_str(buf, ")");
            proof {
                assert(buf@ =~= start + expr_dchars(expr_view(*e)));
            }
        },
        Expression::Infix { operator, left, right } => {
            crate::text::append_str(buf, "(");
            push_expr_display(buf, &**left);
            crate::text::append_str(buf, " ");
            crate::text::append_str(buf, operator.as_str());
            crate::text::append_str(buf, " ");
            push_expr_display(buf, &**right);
            crate::text::append_str(buf, ")");
            proof {
                assert(buf@ =~= start + expr_dchars(expr_view(*e)));
            }
        },
        Expression::If { condition, consequence, alternative } => {
            crate::text::append_str(buf, "if");
            push_expr_display(buf, &**condition);
            crate::text::append_str(buf, " ");
            push_block_display(buf, consequence);
            match alternative {
                Some(alt) => {
                    crate::text::append_str(buf, "else ");
                    push_block_display(buf, alt);
                },
                None => {},
            }
            proof {
                assert(buf@ =~= start + expr_dchars(expr_view(*e)));
            }
        },
        Expression::Call { function, arguments } => {
            push_expr_display(buf, &**function);
            crate::text::append_str(buf, "(");
            push_exprs_display(buf, arguments, 0);
            crate::text::append_str(buf, ")");
            proof {
                assert(buf@ =~= start + expr_dchars(expr_view(*e)));
            }
        },
        Expression::FunctionLiteral { parameters, body } => {
            crate::text::append_str(buf, "fn(");
            push_params_display(buf, parameters, 0);
            crate::text::append_str(buf, ") ");
            push_block_display(buf, &**body);
            proof {
                assert(buf@ =~= start + expr_dchars(expr_view(*e)));
            }
        },
    }
}

/// The display form of a block, as a string.
pub fn block_display(b: &BlockStatement) -> (r: String)
    ensures
        r@ == block_dchars(block_view(*b)),
{
    let mut buf: Vec<char> = Vec::new();
    push_block_display(&mut buf, b);
    crate::text::string_from_chars(&buf)
}

/// Size of an expression: a positive measure that shrinks from every node to
/// each of its children.  The evaluator's termination argument is built on it.
pub open spec fn expr_size(e: ExpressionV) -> nat
    decreases e, 0int,
{
    match e {
        ExpressionV::Identifier { .. } => 2,
        ExpressionV::IntegerLiteral { .. } => 2,
        ExpressionV::StringLiteral { .. } => 2,
        ExpressionV::Boolean { .. } => 2,
        ExpressionV::ArrayLiteral { elements } => 2 + exprs_weight(elements, 0),
        ExpressionV::HashLiteral { members } => 2 + pairs_weight(members, 0),
        ExpressionV::Index { left, index } => 2 + expr_size(*left) + expr_size(*index),
        ExpressionV::Prefix { right, .. } => 2 + expr_size(*right),
        ExpressionV::Infix { left, right, .. } => 2 + expr_size(*left) + expr_size(*right),
        ExpressionV::If { condition, consequence, alternative } => {
            2 + expr_size(*condition) + block_size(consequence) + match alternative {
                Some(alt) => block_size(alt),
                None => 0,
            }
        },
        ExpressionV::Call { function, arguments } => {
            2 + expr_size(*function) + exprs_weight(arguments, 0)
        },
        ExpressionV::FunctionLiteral { body, .. } => 2 + block_size(body),
    }
}

/// Combined size of the expressions of `s` from position `i` on.
pub open spec fn exprs_weight(s: Seq<ExpressionV>, i: int) -> nat
    decreases s, s.len() - i,
{
    if 0 <= i < s.len() {
        expr_size(s[i]) + 2 + exprs_weight(s, i + 1)
    } else {
        1
    }
}

/// Combined size of the key and value expressions of `s` from position `i` on.
pub open spec fn pairs_weight(s: Seq<(ExpressionV, ExpressionV)>, i: int) -> nat
    decreases s, s.len() - i,
{
    if 0 <= i < s.len() {
        expr_size(s[i].0) + expr_size(s[i].1) + 2 + pairs_weight(s, i + 1)
    } else {
        1
    }
}

/// Size of a statement.
pub open spec fn stmt_size(s: StatementV) -> nat
    decreases s, 0int,
{
    match s {
        StatementV::Let { value, .. } => 2 + expr_size(value),
        StatementV::Return { value } => 2 + expr_size(value),
        StatementV::Expression { value } => 2 + expr_size(value),
    }
}

/// Combined size of the statements of `s` from position `i` on.
pub open spec fn stmts_weight(s: Seq<StatementV>, i: int) -> nat
    decreases s, s.len() - i,
{
    if 0 <= i < s.len() {
        stmt_size(s[i]) + 2 + stmts_weight(s, i + 1)
    } else {
        1
    }
}

/// Size of a block.
pub open spec fn block_size(b: BlockV) -> nat
    decreases b, 0int,
{
    1 + stmts_weight(b.statements, 0)
}

/// Size of a node of any category.
pub open spec fn node_size(n: NodeV) -> nat {
    match n {
        NodeV::Program(p) => 2 + stmts_weight(p.statements, 0),
        NodeV::Statement(s) => 1 + stmt_size(s),
        NodeV::BlockStatement(b) => 1 + block_size(b),
        NodeV::Expression(e) => 1 + expr_size(e),
    }
}

} // verus!
