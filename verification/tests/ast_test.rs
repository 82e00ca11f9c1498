use script_syntax::ast::decimal::decimal_string;
use script_syntax::ast::node::{
    BlockStatement, Boolean, CallExpression, ExpressionNode, ExpressionStatement,
    FunctionLiteral, Identifier, IfExpression, IntegerLiteral, LetStatement, PrefixExpression,
    Program, ReturnStatement, StatementNode,
};
use script_syntax::ast::Node;
use script_syntax::{KeyWords, Token};

fn identifier(name: &str) -> Identifier {
    Identifier { token: Token::new(KeyWords::IDENT, name.to_string()), value: name.to_string() }
}

fn name(text: &str) -> ExpressionNode {
    ExpressionNode::Identifier(identifier(text))
}

fn integer(value: usize) -> ExpressionNode {
    ExpressionNode::IntegerLiteral(IntegerLiteral {
        token: Token::new(KeyWords::INT, value.to_string()),
        value,
    })
}

fn block(statements: Vec<StatementNode>) -> BlockStatement {
    BlockStatement { token: Token::new(KeyWords::LBRACE, "{".to_string()), statements }
}

fn bare(expression: ExpressionNode) -> StatementNode {
    let token = Token::new(KeyWords::IDENT, expression.token_literal());
    StatementNode::Expression(ExpressionStatement { token, expression: Some(expression) })
}

fn call(function: ExpressionNode, arguments: Vec<ExpressionNode>) -> CallExpression {
    CallExpression {
        token: Token::new(KeyWords::LPAREN, "(".to_string()),
        function: Box::new(function),
        arguments,
    }
}

#[test]
fn ast_test() {
    let program = Program {
        statements: vec![StatementNode::Let(LetStatement {
            token: Token::new(KeyWords::LET, "let".to_string()),
            name: Identifier {
                token: Token::new(KeyWords::IDENT, "five".to_string()),
                value: "five".to_string(),
            },
            value: ExpressionNode::Identifier(Identifier {
                token: Token::new(KeyWords::IDENT, "ten".to_string()),
                value: "ten".to_string(),
            }),
        })],
    };

    assert_eq!(program.string(), "let five = ten;".to_string());
}

#[test]
fn program_is_its_statements_without_separator() {
    let program = Program {
        statements: vec![
            StatementNode::Let(LetStatement {
                token: Token::new(KeyWords::LET, "let".to_string()),
                name: identifier("a"),
                value: integer(1),
            }),
            StatementNode::Return(ReturnStatement {
                token: Token::new(KeyWords::RETURN, "return".to_string()),
                value: Some(name("a")),
            }),
            bare(name("b")),
        ],
    };
    assert_eq!(program.string(), "let a = 1;return a;b");
    assert_eq!(program.token_literal(), "let");
}

#[test]
fn empty_program_is_empty_text() {
    let program = Program { statements: vec![] };
    assert_eq!(program.string(), "");
    assert_eq!(program.token_literal(), "");
}

#[test]
fn return_with_and_without_value() {
    let with = ReturnStatement {
        token: Token::new(KeyWords::RETURN, "return".to_string()),
        value: Some(integer(5)),
    };
    assert_eq!(with.string(), "return 5;");
    assert_eq!(with.token_literal(), "return");
    let without =
        ReturnStatement { token: Token::new(KeyWords::RETURN, "return".to_string()), value: None };
    assert_eq!(without.string(), "return ;");
}

#[test]
fn expression_statement_is_its_expression() {
    let statement = ExpressionStatement {
        token: Token::new(KeyWords::IDENT, "x".to_string()),
        expression: Some(name("x")),
    };
    assert_eq!(statement.string(), "x");
    assert_eq!(statement.token_literal(), "x");
    let empty = ExpressionStatement {
        token: Token::new(KeyWords::SEMICOLON, ";".to_string()),
        expression: None,
    };
    assert_eq!(empty.string(), "");
    assert_eq!(empty.token_literal(), ";");
}

#[test]
fn block_is_its_statements_without_separator() {
    let body = block(vec![bare(name("x")), bare(name("y"))]);
    assert_eq!(body.string(), "xy");
    assert_eq!(body.token_literal(), "{");
    assert_eq!(block(vec![]).string(), "");
    assert_eq!(StatementNode::Block(block(vec![bare(integer(7))])).string(), "7");
}

#[test]
fn leaves_are_their_values() {
    assert_eq!(identifier("foo").string(), "foo");
    assert_eq!(identifier("foo").token_literal(), "foo");
    let yes = Boolean { token: Token::new(KeyWords::TRUE, "true".to_string()), value: true };
    let no = Boolean { token: Token::new(KeyWords::FALSE, "false".to_string()), value: false };
    assert_eq!(yes.string(), "true");
    assert_eq!(no.string(), "false");
    assert_eq!(no.token_literal(), "false");
    let number = IntegerLiteral { token: Token::new(KeyWords::INT, "0042".to_string()), value: 42 };
    assert_eq!(number.string(), "42");
    assert_eq!(number.token_literal(), "0042");
    let other = Identifier {
        token: Token::new(KeyWords::IDENT, "a".to_string()),
        value: "b".to_string(),
    };
    assert_eq!(other.string(), "b");
    assert_eq!(other.token_literal(), "a");
}

#[test]
fn integers_in_decimal() {
    assert_eq!(decimal_string(0), "0");
    assert_eq!(decimal_string(7), "7");
    assert_eq!(decimal_string(9), "9");
    assert_eq!(decimal_string(10), "10");
    assert_eq!(decimal_string(120), "120");
    assert_eq!(decimal_string(1234567890), "1234567890");
    assert_eq!(decimal_string(usize::MAX), usize::MAX.to_string());
    for value in 0..2000usize {
        assert_eq!(decimal_string(value), value.to_string());
    }
}

#[test]
fn prefix_in_parentheses() {
    let negation = PrefixExpression {
        token: Token::new(KeyWords::MINUS, "-".to_string()),
        operator: "-".to_string(),
        right: Box::new(integer(5)),
    };
    assert_eq!(negation.string(), "(-5)");
    assert_eq!(negation.token_literal(), "-");
    let twice = PrefixExpression {
        token: Token::new(KeyWords::BANG, "!".to_string()),
        operator: "!".to_string(),
        right: Box::new(ExpressionNode::Prefix(negation)),
    };
    assert_eq!(twice.string(), "(!(-5))");
}

#[test]
fn if_with_and_without_alternative() {
    let without = IfExpression {
        token: Token::new(KeyWords::IF, "if".to_string()),
        condition: Box::new(name("x")),
        consequence: block(vec![bare(name("y"))]),
        alternative: None,
    };
    assert_eq!(without.string(), "ifx y");
    assert_eq!(without.token_literal(), "if");
    let with = IfExpression {
        token: Token::new(KeyWords::IF, "if".to_string()),
        condition: Box::new(name("x")),
        consequence: block(vec![bare(name("y"))]),
        alternative: Some(block(vec![bare(name("z"))])),
    };
    assert_eq!(with.string(), "ifx yelsez");
}

#[test]
fn function_literal_text() {
    let function = FunctionLiteral {
        token: Token::new(KeyWords::FUNCTION, "fn".to_string()),
        parameters: vec![identifier("x"), identifier("y")],
        body: block(vec![bare(name("x"))]),
    };
    assert_eq!(function.string(), "fn(xy)x");
    assert_eq!(function.token_literal(), "fn");
    let constant = FunctionLiteral {
        token: Token::new(KeyWords::FUNCTION, "fn".to_string()),
        parameters: vec![],
        body: block(vec![]),
    };
    assert_eq!(constant.string(), "fn()");
}

#[test]
fn call_separates_arguments_with_comma_and_space() {
    assert_eq!(call(name("add"), vec![]).string(), "add()");
    assert_eq!(call(name("add"), vec![integer(1)]).string(), "add(1)");
    assert_eq!(call(name("add"), vec![integer(1), integer(2)]).string(), "add(1, 2)");
    assert_eq!(
        call(name("add"), vec![name("five"), name("ten"), integer(15)]).string(),
        "add(five, ten, 15)"
    );
    assert_eq!(call(name("f"), vec![]).token_literal(), "(");
}

#[test]
fn nested_tree_text() {
    let inner = call(name("g"), vec![name("a")]);
    let outer = call(
        name("f"),
        vec![
            ExpressionNode::Call(inner),
            ExpressionNode::Prefix(PrefixExpression {
                token: Token::new(KeyWords::BANG, "!".to_string()),
                operator: "!".to_string(),
                right: Box::new(ExpressionNode::Boolean(Boolean {
                    token: Token::new(KeyWords::TRUE, "true".to_string()),
                    value: true,
                })),
            }),
        ],
    );
    let function = FunctionLiteral {
        token: Token::new(KeyWords::FUNCTION, "fn".to_string()),
        parameters: vec![identifier("a")],
        body: block(vec![StatementNode::Return(ReturnStatement {
            token: Token::new(KeyWords::RETURN, "return".to_string()),
            value: Some(ExpressionNode::Call(outer)),
        })]),
    };
    let program = Program {
        statements: vec![StatementNode::Let(LetStatement {
            token: Token::new(KeyWords::LET, "let".to_string()),
            name: identifier("h"),
            value: ExpressionNode::Function(function),
        })],
    };
    assert_eq!(program.string(), "let h = fn(a)return f(g(a), (!true));;");
    assert_eq!(program.token_literal(), "let");
}

#[test]
fn sums_answer_as_their_variants() {
    let expression = ExpressionNode::If(IfExpression {
        token: Token::new(KeyWords::IF, "if".to_string()),
        condition: Box::new(integer(1)),
        consequence: block(vec![]),
        alternative: Some(block(vec![])),
    });
    assert_eq!(expression.string(), "if1 else");
    assert_eq!(expression.token_literal(), "if");
    let statement = StatementNode::Let(LetStatement {
        token: Token::new(KeyWords::LET, "let".to_string()),
        name: identifier("x"),
        value: expression,
    });
    assert_eq!(statement.string(), "let x = if1 else;");
    assert_eq!(statement.token_literal(), "let");
}
