use defpub::codegen::CodegenError;
use defpub::codegen::generate_code;
use defpub::lexer::Token;
use defpub::parser::AST;
use defpub::parser::parse;

fn add_tree() -> AST {
    AST::FunctionDef {
        name: "add".to_string(),
        params: vec![
            ("a".to_string(), "int".to_string()),
            ("b".to_string(), "int".to_string()),
        ],
        body: Box::new(AST::ReturnStatement(Box::new(AST::BinaryExpr {
            left: Box::new(AST::Identifier("a".to_string())),
            op: Token::Plus,
            right: Box::new(AST::Identifier("b".to_string())),
        }))),
    }
}

#[test]
fn round_trip_add() {
    let ast = parse("defpub add(a: int, b: int):\n    return a + b").unwrap();
    assert_eq!(ast, add_tree());
    let out = generate_code(ast).unwrap();
    assert_eq!(out, "(define-private (add (a uint) (b uint) ) (+ (+ a b)))");
}

#[test]
fn empty_parameter_list_output() {
    let ast = parse("defpub noop():\n    return a + b").unwrap();
    match &ast {
        AST::FunctionDef { params, .. } => assert!(params.is_empty()),
        _ => panic!("Expected function definition"),
    }
    let out = generate_code(ast).unwrap();
    assert_eq!(out, "(define-private (noop ) (+ (+ a b)))");
}

#[test]
fn generation_is_deterministic() {
    let first = generate_code(add_tree()).unwrap();
    let second = generate_code(add_tree()).unwrap();
    assert_eq!(first, second);
}

#[test]
fn identifier_is_emitted_verbatim() {
    let out = generate_code(AST::Identifier("counter".to_string())).unwrap();
    assert_eq!(out, "counter");
}

#[test]
fn binary_expr_output() {
    let out = generate_code(AST::BinaryExpr {
        left: Box::new(AST::Identifier("a".to_string())),
        op: Token::Plus,
        right: Box::new(AST::Identifier("b".to_string())),
    })
    .unwrap();
    assert_eq!(out, "(+ a b)");
}

#[test]
fn return_statement_wraps_expression_again() {
    let out = generate_code(AST::ReturnStatement(Box::new(AST::BinaryExpr {
        left: Box::new(AST::Identifier("a".to_string())),
        op: Token::Plus,
        right: Box::new(AST::Identifier("b".to_string())),
    })))
    .unwrap();
    assert_eq!(out, "(+ (+ a b))");
}

#[test]
fn unsupported_operator_is_an_error() {
    let e = generate_code(AST::BinaryExpr {
        left: Box::new(AST::Identifier("a".to_string())),
        op: Token::Comma,
        right: Box::new(AST::Identifier("b".to_string())),
    })
    .unwrap_err();
    assert_eq!(e, CodegenError::UnsupportedOperator(Token::Comma));
}
