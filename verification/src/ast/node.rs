//! The nodes of the syntax tree and their canonical text.
//!
//! A tree is a plain nested value: every node owns its children, and the
//! two places where any kind of node may stand, an expression and a
//! statement, are closed sums over the kinds.

use super::decimal::{decimal_digits, decimal_string};
use super::{Expression, Node, Statement};
use crate::lexer::token::Token;
use vstd::prelude::*;
use vstd::string::StringExecFns;

verus! {

/// A name.
pub struct Identifier {
    pub token: Token,
    pub value: String,
}

/// `true` or `false`.
pub struct Boolean {
    pub token: Token,
    pub value: bool,
}

/// A non-negative integer.
pub struct IntegerLiteral {
    pub token: Token,
    pub value: usize,
}

/// An operator in front of its operand.
pub struct PrefixExpression {
    pub token: Token,
    pub operator: String,
    pub right: Box<ExpressionNode>,
}

/// A condition, what follows from it, and what follows otherwise.
pub struct IfExpression {
    pub token: Token,
    pub condition: Box<ExpressionNode>,
    pub consequence: BlockStatement,
    pub alternative: Option<BlockStatement>,
}

/// A function: its parameters and its body.
pub struct FunctionLiteral {
    pub token: Token,
    pub parameters: Vec<Identifier>,
    pub body: BlockStatement,
}

/// A call: what is called, and with which arguments.
pub struct CallExpression {
    pub token: Token,
    pub function: Box<ExpressionNode>,
    pub arguments: Vec<ExpressionNode>,
}

/// Any expression.
pub enum ExpressionNode {
    Identifier(Identifier),
    Boolean(Boolean),
    IntegerLiteral(IntegerLiteral),
    Prefix(PrefixExpression),
    If(IfExpression),
    Function(FunctionLiteral),
    Call(CallExpression),
}

/// The binding of a name to a value.
pub struct LetStatement {
    pub token: Token,
    pub name: Identifier,
    pub value: ExpressionNode,
}

/// A return, with or without a value.
pub struct ReturnStatement {
    pub token: Token,
    pub value: Option<ExpressionNode>,
}

/// An expression that stands where a statement is expected.
pub struct ExpressionStatement {
    pub token: Token,
    pub expression: Option<ExpressionNode>,
}

/// Statements between braces.
pub struct BlockStatement {
    pub token: Token,
    pub statements: Vec<StatementNode>,
}

/// Any statement.
pub enum StatementNode {
    Let(LetStatement),
    Return(ReturnStatement),
    Expression(ExpressionStatement),
    Block(BlockStatement),
}

/// The root of a tree: the statements of a program.
pub struct Program {
    pub statements: Vec<StatementNode>,
}

/// The texts of the first `count` statements, one after the other.
pub open spec fn statements_string(statements: Seq<StatementNode>, count: nat) -> Seq<char>
    decreases statements, count,
{
    if count == 0 || count > statements.len() {
        Seq::empty()
    } else {
        statements_string(statements, (count - 1) as nat) + statements[count - 1].spec_string()
    }
}

/// The names of the first `count` parameters, one after the other.
pub open spec fn parameters_string(parameters: Seq<Identifier>, count: nat) -> Seq<char>
    decreases count,
{
    if count == 0 || count > parameters.len() {
        Seq::empty()
    } else {
        parameters_string(parameters, (count - 1) as nat) + parameters[count - 1].spec_string()
    }
}

/// The texts of the first `count` arguments, with `", "` between each two.
pub open spec fn arguments_string(arguments: Seq<ExpressionNode>, count: nat) -> Seq<char>
    decreases arguments, count,
{
    if count == 0 || count > arguments.len() {
        Seq::empty()
    } else if count == 1 {
        arguments[0].spec_string()
    } else {
        arguments_string(arguments, (count - 1) as nat) + ", "@ + arguments[count
            - 1].spec_string()
    }
}

/// The text of an expression that may be absent: nothing where it is.
pub open spec fn optional_string(expression: Option<ExpressionNode>) -> Seq<char>
    decreases expression,
{
    match expression {
        Some(expression) => expression.spec_string(),
        None => Seq::empty(),
    }
}

impl Node for Identifier {
    open spec fn spec_token_literal(&self) -> Seq<char> {
        self.token.literal@
    }

    open spec fn spec_string(&self) -> Seq<char> {
        self.value@
    }

    fn token_literal(&self) -> (literal: String) {
        self.token.literal.clone()
    }

    fn string(&self) -> (out: String) {
        self.value.clone()
    }
}

impl Expression for Identifier {

}

impl Node for Boolean {
    open spec fn spec_token_literal(&self) -> Seq<char> {
        self.token.literal@
    }

    open spec fn spec_string(&self) -> Seq<char> {
        if self.value {
            "true"@
        } else {
            "false"@
        }
    }

    fn token_literal(&self) -> (literal: String) {
        self.token.literal.clone()
    }

    fn string(&self) -> (out: String) {
        if self.value {
            String::from_str("true")
        } else {
            String::from_str("false")
        }
    }
}

impl Expression for Boolean {

}

impl Node for IntegerLiteral {
    open spec fn spec_token_literal(&self) -> Seq<char> {
        self.token.literal@
    }

    open spec fn spec_string(&self) -> Seq<char> {
        decimal_digits(self.value as nat)
    }

    fn token_literal(&self) -> (literal: String) {
        self.token.literal.clone()
    }

    fn string(&self) -> (out: String) {
        decimal_string(self.value)
    }
}

impl Expression for IntegerLiteral {

}

impl Node for PrefixExpression {
    open spec fn spec_token_literal(&self) -> Seq<char> {
        self.token.literal@
    }

    open spec fn spec_string(&self) -> Seq<char>
        decreases self,
    {
        "("@ + self.operator@ + self.right.spec_string() + ")"@
    }

    fn token_literal(&self) -> (literal: String) {
        self.token.literal.clone()
    }

    fn string(&self) -> (out: String)
        decreases self,
    {
        let mut out = String::new();
        out.append("(");
        out.append(self.operator.as_str());
        out.append(self.right.string().as_str());
        out.append(")");
        out
    }
}

impl Expression for PrefixExpression {

}

impl Node for IfExpression {
    open spec fn spec_token_literal(&self) -> Seq<char> {
        self.token.literal@
    }

    open spec fn spec_string(&self) -> Seq<char>
        decreases self,
    {
        let head = "if"@ + self.condition.spec_string() + " "@ + self.consequence.spec_string();
        match self.alternative {
            Some(alternative) => head + "else"@ + alternative.spec_string(),
            None => head,
        }
    }

    fn token_literal(&self) -> (literal: String) {
        self.token.literal.clone()
    }

    fn string(&self) -> (out: String)
        decreases self,
    {
        let mut out = String::new();
        out.append("if");
        out.append(self.condition.string().as_str());
        out.append(" ");
        out.append(self.consequence.string().as_str());
        match &self.alternative {
            Some(alternative) => {
                out.append("else");
                out.append(alternative.string().as_str());
            },
            None => {},
        }
        out
    }
}

impl Expression for IfExpression {

}

impl Node for FunctionLiteral {
    open spec fn spec_token_literal(&self) -> Seq<char> {
        self.token.literal@
    }

    open spec fn spec_string(&self) -> Seq<char>
        decreases self,
    {
        self.token.literal@ + "("@ + parameters_string(self.parameters@, self.parameters@.len())
            + ")"@ + self.body.spec_string()
    }

    fn token_literal(&self) -> (literal: String) {
        self.token.literal.clone()
    }

    fn string(&self) -> (out: String)
        decreases self,
    {
        let mut out = self.token.literal.clone();
        out.append("(");
        let ghost head = out@;
        let mut i: usize = 0;
        while i < self.parameters.len()
            invariant
                i <= self.parameters@.len(),
                out@ == head + parameters_string(self.parameters@, i as nat),
            decreases self.parameters@.len() - i,
        {
            out.append(self.parameters[i].string().as_str());
            i += 1;
        }
        out.append(")");
        out.append(self.body.string().as_str());
        out
    }
}

impl Expression for FunctionLiteral {

}

impl Node for CallExpression {
    open spec fn spec_token_literal(&self) -> Seq<char> {
        self.token.literal@
    }

    open spec fn spec_string(&self) -> Seq<char>
        decreases self,
    {
        self.function.spec_string() + "("@ + arguments_string(
            self.arguments@,
            self.arguments@.len(),
        ) + ")"@
    }

    fn token_literal(&self) -> (literal: String) {
        self.token.literal.clone()
    }

    fn string(&self) -> (out: String)
        decreases self,
    {
        let mut out = self.function.string();
        out.append("(");
        let ghost head = out@;
        let mut i: usize = 0;
        while i < self.arguments.len()
            invariant
                i <= self.arguments@.len(),
                out@ == head + arguments_string(self.arguments@, i as nat),
            decreases self.arguments@.len() - i,
        {
            if i > 0 {
                out.append(", ");
            }
            out.append(self.arguments[i].string().as_str());
            i += 1;
        }
        out.append(")");
        out
    }
}

impl Expression for CallExpression {

}

impl Node for ExpressionNode {
    open spec fn spec_token_literal(&self) -> Seq<char> {
        match self {
            ExpressionNode::Identifier(node) => node.spec_token_literal(),
            ExpressionNode::Boolean(node) => node.spec_token_literal(),
            ExpressionNode::IntegerLiteral(node) => node.spec_token_literal(),
            ExpressionNode::Prefix(node) => node.spec_token_literal(),
            ExpressionNode::If(node) => node.spec_token_literal(),
            ExpressionNode::Function(node) => node.spec_token_literal(),
            ExpressionNode::Call(node) => node.spec_token_literal(),
        }
    }

    open spec fn spec_string(&self) -> Seq<char>
        decreases self,
    {
        match self {
            ExpressionNode::Identifier(node) => node.spec_string(),
            ExpressionNode::Boolean(node) => node.spec_string(),
            ExpressionNode::IntegerLiteral(node) => node.spec_string(),
            ExpressionNode::Prefix(node) => node.spec_string(),
            ExpressionNode::If(node) => node.spec_string(),
            ExpressionNode::Function(node) => node.spec_string(),
            ExpressionNode::Call(node) => node.spec_string(),
        }
    }

    fn token_literal(&self) -> (literal: String) {
        match self {
            ExpressionNode::Identifier(node) => node.token_literal(),
            ExpressionNode::Boolean(node) => node.token_literal(),
            ExpressionNode::IntegerLiteral(node) => node.token_literal(),
            ExpressionNode::Prefix(node) => node.token_literal(),
            ExpressionNode::If(node) => node.token_literal(),
            ExpressionNode::Function(node) => node.token_literal(),
            ExpressionNode::Call(node) => node.token_literal(),
        }
    }

    fn string(&self) -> (out: String)
        decreases self,
    {
        match self {
            ExpressionNode::Identifier(node) => node.string(),
            ExpressionNode::Boolean(node) => node.string(),
            ExpressionNode::IntegerLiteral(node) => node.string(),
            ExpressionNode::Prefix(node) => node.string(),
            ExpressionNode::If(node) => node.string(),
            ExpressionNode::Function(node) => node.string(),
            ExpressionNode::Call(node) => node.string(),
        }
    }
}

impl Expression for ExpressionNode {

}

impl Node for LetStatement {
    open spec fn spec_token_literal(&self) -> Seq<char> {
        self.token.literal@
    }

    open spec fn spec_string(&self) -> Seq<char>
        decreases self,
    {
        self.token.literal@ + " "@ + self.name.spec_string() + " = "@ + self.value.spec_string()
            + ";"@
    }

    fn token_literal(&self) -> (literal: String) {
        self.token.literal.clone()
    }

    fn string(&self) -> (out: String)
        decreases self,
    {
        let mut out = String::new();
        out.append(self.token.literal.as_str());
        out.append(" ");
        out.append(self.name.string().as_str());
        out.append(" = ");
        out.append(self.value.string().as_str());
        out.append(";");
        out
    }
}

impl Statement for LetStatement {

}

impl Node for ReturnStatement {
    open spec fn spec_token_literal(&self) -> Seq<char> {
        self.token.literal@
    }

    open spec fn spec_string(&self) -> Seq<char>
        decreases self,
    {
        self.token.literal@ + " "@ + optional_string(self.value) + ";"@
    }

    fn token_literal(&self) -> (literal: String) {
        self.token.literal.clone()
    }

    fn string(&self) -> (out: String)
        decreases self,
    {
        let mut out = self.token.literal.clone();
        out.append(" ");
        match &self.value {
            Some(value) => {
                out.append(value.string().as_str());
            },
            None => {},
        }
        out.append(";");
        out
    }
}

impl Statement for ReturnStatement {

}

impl Node for ExpressionStatement {
    open spec fn spec_token_literal(&self) -> Seq<char> {
        self.token.literal@
    }

    open spec fn spec_string(&self) -> Seq<char>
        decreases self,
    {
        optional_string(self.expression)
    }

    fn token_literal(&self) -> (literal: String) {
        self.token.literal.clone()
    }

    fn string(&self) -> (out: String)
        decreases self,
    {
        match &self.expression {
            Some(expression) => expression.string(),
            None => String::new(),
        }
    }
}

impl Statement for ExpressionStatement {

}

impl Node for BlockStatement {
    open spec fn spec_token_literal(&self) -> Seq<char> {
        self.token.literal@
    }

    open spec fn spec_string(&self) -> Seq<char>
        decreases self,
    {
        statements_string(self.statements@, self.statements@.len())
    }

    fn token_literal(&self) -> (literal: String) {
        self.token.literal.clone()
    }

    fn string(&self) -> (out: String)
        decreases self,
    {
        let mut out = String::new();
        let mut i: usize = 0;
        while i < self.statements.len()
            invariant
                i <= self.statements@.len(),
                out@ == statements_string(self.statements@, i as nat),
            decreases self.statements@.len() - i,
        {
            out.append(self.statements[i].string().as_str());
            i += 1;
        }
        out
    }
}

impl Statement for BlockStatement {

}

impl Node for StatementNode {
    open spec fn spec_token_literal(&self) -> Seq<char> {
        match self {
            StatementNode::Let(node) => node.spec_token_literal(),
            StatementNode::Return(node) => node.spec_token_literal(),
            StatementNode::Expression(node) => node.spec_token_literal(),
            StatementNode::Block(node) => node.spec_token_literal(),
        }
    }

    open spec fn spec_string(&self) -> Seq<char>
        decreases self,
    {
        match self {
            StatementNode::Let(node) => node.spec_string(),
            StatementNode::Return(node) => node.spec_string(),
            StatementNode::Expression(node) => node.spec_string(),
            StatementNode::Block(node) => node.spec_string(),
        }
    }

    fn token_literal(&self) -> (literal: String) {
        match self {
            StatementNode::Let(node) => node.token_literal(),
            StatementNode::Return(node) => node.token_literal(),
            StatementNode::Expression(node) => node.token_literal(),
            StatementNode::Block(node) => node.token_literal(),
        }
    }

    fn string(&self) -> (out: String)
        decreases self,
    {
        match self {
            StatementNode::Let(node) => node.string(),
            StatementNode::Return(node) => node.string(),
            StatementNode::Expression(node) => node.string(),
            StatementNode::Block(node) => node.string(),
        }
    }
}

impl Statement for StatementNode {

}

impl Node for Program {
    open spec fn spec_token_literal(&self) -> Seq<char> {
        if self.statements@.len() > 0 {
            self.statements@[0].spec_token_literal()
        } else {
            Seq::empty()
        }
    }

    open spec fn spec_string(&self) -> Seq<char> {
        statements_string(self.statements@, self.statements@.len())
    }

    fn token_literal(&self) -> (literal: String) {
        if self.statements.len() > 0 {
            self.statements[0].token_literal()
        } else {
            String::new()
        }
    }

    fn string(&self) -> (out: String) {
        let mut out = String::new();
        let mut i: usize = 0;
        while i < self.statements.len()
            invariant
                i <= self.statements@.len(),
                out@ == statements_string(self.statements@, i as nat),
            decreases self.statements@.len() - i,
        {
            out.append(self.statements[i].string().as_str());
            i += 1;
        }
        out
    }
}

} // verus!
