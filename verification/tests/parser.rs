use compiler_solidity::yul::error::Error;
use compiler_solidity::yul::lexer::lexeme::Keyword;
use compiler_solidity::yul::lexer::lexeme::Lexeme;
use compiler_solidity::yul::lexer::lexeme::Literal;
use compiler_solidity::yul::lexer::lexeme::LiteralKind;
use compiler_solidity::yul::lexer::lexeme::Symbol;
use compiler_solidity::yul::lexer::Lexer;
use compiler_solidity::yul::parser::ast::Assignment;
use compiler_solidity::yul::parser::ast::Block;
use compiler_solidity::yul::parser::ast::Expression;
use compiler_solidity::yul::parser::ast::FunctionCall;
use compiler_solidity::yul::parser::ast::Name;
use compiler_solidity::yul::parser::ast::Statement;
use compiler_solidity::yul::parser::ast::Switch;
use compiler_solidity::yul::parser::ast::VariableDeclaration;
use compiler_solidity::yul::parser::parse;

fn identifier(name: &str) -> Expression {
    Expression::Identifier(name.to_owned())
}

fn decimal(text: &str) -> Literal {
    Literal { kind: LiteralKind::Decimal, text: text.to_owned() }
}

#[test]
fn ok_nested() {
    let input = r#"{
            {}
        }"#;

    let expected = Ok(Block {
        statements: vec![Statement::Block(Block { statements: vec![] })],
    });

    let mut lexer = Lexer::new(input.to_owned());
    let result = Block::parse(&mut lexer, None);
    assert_eq!(expected, result);
}

#[test]
fn error_expected_bracket_curly_right() {
    let input = r#"{
            {}{}{{
        }"#;

    let mut lexer = Lexer::new(input.to_owned());
    assert!(Block::parse(&mut lexer, None).is_err());
}

#[test]
fn ok_list() {
    let input = r#"{
            id
            3
            foo(x, y)
        }"#;

    let block = parse(input).expect("the block parses");
    assert_eq!(
        block,
        Block {
            statements: vec![
                Statement::Expression(identifier("id")),
                Statement::Expression(Expression::Literal(decimal("3"))),
                Statement::Expression(Expression::FunctionCall(FunctionCall {
                    name: Name::UserDefined("foo".to_owned()),
                    arguments: vec![identifier("x"), identifier("y")],
                })),
            ],
        }
    );
}

#[test]
fn empty_nested_block_with_spaces() {
    assert_eq!(
        parse("{ { } }"),
        Ok(Block { statements: vec![Statement::Block(Block { statements: vec![] })] })
    );
}

#[test]
fn multi_assign() {
    let block = parse("{ let x, y := f() x := add(x,y) }").expect("the block parses");
    assert_eq!(
        block.statements,
        vec![
            Statement::VariableDeclaration(VariableDeclaration {
                bindings: vec!["x".to_owned(), "y".to_owned()],
                expression: Some(Expression::FunctionCall(FunctionCall {
                    name: Name::UserDefined("f".to_owned()),
                    arguments: vec![],
                })),
            }),
            Statement::Assignment(Assignment {
                bindings: vec!["x".to_owned()],
                initializer: Expression::FunctionCall(FunctionCall {
                    name: Name::Add,
                    arguments: vec![identifier("x"), identifier("y")],
                }),
            }),
        ]
    );
}

#[test]
fn switch_without_branches_is_a_syntax_error() {
    match parse("{ switch x }") {
        Err(Error::Syntax { expected, found }) => {
            assert_eq!(expected, vec!["case", "default"]);
            assert_eq!(found, Lexeme::Identifier("x".to_owned()));
        }
        other => panic!("expected a syntax error, found {:?}", other),
    }
}

#[test]
fn switch_with_cases_and_default() {
    let block = parse("{ switch x case 1 { } case 0x2 { leave } default { break } }")
        .expect("the block parses");
    match &block.statements[0] {
        Statement::Switch(Switch { expression, cases, default }) => {
            assert_eq!(*expression, identifier("x"));
            assert_eq!(cases.len(), 2);
            assert_eq!(cases[0].literal, decimal("1"));
            assert_eq!(
                cases[1].literal,
                Literal { kind: LiteralKind::Hexadecimal, text: "0x2".to_owned() }
            );
            assert_eq!(cases[1].block.statements, vec![Statement::Leave]);
            assert_eq!(*default, Some(Block { statements: vec![Statement::Break] }));
        }
        other => panic!("expected a switch, found {:?}", other),
    }
}

#[test]
fn switch_with_default_only() {
    let block = parse("{ switch f() default { } }").expect("the block parses");
    match &block.statements[0] {
        Statement::Switch(switch) => {
            assert!(switch.cases.is_empty());
            assert_eq!(switch.default, Some(Block { statements: vec![] }));
        }
        other => panic!("expected a switch, found {:?}", other),
    }
}

#[test]
fn peek_then_next_gives_the_same_lexeme() {
    let mut lexer = Lexer::new("  let /* c */ x := 0x1f // end\n \"text\" -> true".to_owned());
    let expected = vec![
        Lexeme::Keyword(Keyword::Let),
        Lexeme::Identifier("x".to_owned()),
        Lexeme::Symbol(Symbol::Assignment),
        Lexeme::Literal(Literal { kind: LiteralKind::Hexadecimal, text: "0x1f".to_owned() }),
        Lexeme::Literal(Literal { kind: LiteralKind::String, text: "text".to_owned() }),
        Lexeme::Symbol(Symbol::Arrow),
        Lexeme::Literal(Literal { kind: LiteralKind::Boolean, text: "true".to_owned() }),
        Lexeme::End,
        Lexeme::End,
    ];
    for lexeme in expected {
        let first = lexer.peek().expect("a lexeme");
        let second = lexer.peek().expect("a lexeme");
        let taken = lexer.next().expect("a lexeme");
        assert_eq!(first, lexeme);
        assert_eq!(second, lexeme);
        assert_eq!(taken, lexeme);
    }
}

#[test]
fn lexical_errors_carry_the_offset() {
    let mut lexer = Lexer::new("x \"open".to_owned());
    assert_eq!(lexer.next(), Ok(Lexeme::Identifier("x".to_owned())));
    assert_eq!(lexer.peek(), Err(Error::Lexical { offset: 2 }));
    assert_eq!(lexer.next(), Err(Error::Lexical { offset: 2 }));
    assert_eq!(lexer.offset(), 1);

    let mut lexer = Lexer::new(" # ".to_owned());
    assert_eq!(lexer.next(), Err(Error::Lexical { offset: 1 }));

    let mut lexer = Lexer::new("a /* never closed".to_owned());
    assert_eq!(lexer.next(), Ok(Lexeme::Identifier("a".to_owned())));
    assert_eq!(lexer.next(), Err(Error::Lexical { offset: 2 }));
}

#[test]
fn identifiers_take_dots_and_dollars() {
    let mut lexer = Lexer::new("$a.b_1 9z".to_owned());
    assert_eq!(lexer.next(), Ok(Lexeme::Identifier("$a.b_1".to_owned())));
    assert_eq!(lexer.next(), Ok(Lexeme::Literal(decimal("9"))));
    assert_eq!(lexer.next(), Ok(Lexeme::Identifier("z".to_owned())));
    assert_eq!(lexer.offset(), 9);
}

#[test]
fn duplicate_assignment_target_is_a_semantic_error() {
    let error = parse("{ a, b, a := f() }").expect_err("the list repeats a name");
    assert_eq!(error, Error::DuplicateIdentifier { name: "a".to_owned() });
    assert!(error.is_semantic());
    assert!(!error.is_syntax());
}

#[test]
fn function_call_tolerates_a_trailing_comma_and_a_missing_parenthesis() {
    let block = parse("{ f(a,) g(b }").expect("the block parses");
    assert_eq!(
        block.statements,
        vec![
            Statement::Expression(Expression::FunctionCall(FunctionCall {
                name: Name::UserDefined("f".to_owned()),
                arguments: vec![identifier("a")],
            })),
            Statement::Expression(Expression::FunctionCall(FunctionCall {
                name: Name::UserDefined("g".to_owned()),
                arguments: vec![identifier("b")],
            })),
        ]
    );
}

#[test]
fn block_rejects_what_starts_no_statement() {
    match parse("{ ) }") {
        Err(Error::Syntax { expected, found }) => {
            assert_eq!(
                expected,
                vec!["{keyword}", "{expression}", "{identifier}", "{", "}"]
            );
            assert_eq!(found, Lexeme::Symbol(Symbol::ParenthesisRight));
        }
        other => panic!("expected a syntax error, found {:?}", other),
    }
    match parse("x") {
        Err(Error::Syntax { expected, found }) => {
            assert_eq!(expected, vec!["{"]);
            assert_eq!(found, Lexeme::Identifier("x".to_owned()));
        }
        other => panic!("expected a syntax error, found {:?}", other),
    }
}
