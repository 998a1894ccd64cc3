use defpub::lexer::Token;
use defpub::parser::AST;
use defpub::parser::Rule;
use defpub::parser::binary_expr;
use defpub::parser::parameter_list;
use defpub::parser::parse;

#[test]
fn test_param_list() {
    let input = "(a: int, b: int)";
    let g = parameter_list(input).unwrap();
    assert_eq!(
        g.1,
        vec![
            ("a".to_string(), "int".to_string()),
            ("b".to_string(), "int".to_string())
        ]
    );
}

#[test]
fn test_binary_exp() {
    let input = "a + b";
    let g = binary_expr(input).unwrap();
    assert_eq!(
        g.1,
        AST::BinaryExpr {
            left: Box::new(AST::Identifier("a".to_string())),
            op: Token::Plus,
            right: Box::new(AST::Identifier("b".to_string())),
        },
    );
}

#[test]
fn test_parse_function_def() {
    let input = "defpub something(a: int, b: int):\n    return a + b";
    match parse(input) {
        Ok(ast) => match ast {
            AST::FunctionDef { name, params, body } => {
                assert_eq!(name, "something");
                assert_eq!(params.len(), 2);
                assert_eq!(params[0].0, "a");
                assert_eq!(params[0].1, "int");
                assert_eq!(params[1].0, "b");
                assert_eq!(params[1].1, "int");
                match *body {
                    AST::ReturnStatement(expr) => match *expr {
                        AST::BinaryExpr { left, op, right } => {
                            match *left {
                                AST::Identifier(ref name) => assert_eq!(name, "a"),
                                _ => panic!("Expected identifier for left operand"),
                            }
                            assert_eq!(op, Token::Plus);
                            match *right {
                                AST::Identifier(ref name) => assert_eq!(name, "b"),
                                _ => panic!("Expected identifier for right operand"),
                            }
                        }
                        _ => panic!("Expected binary expression in return statement"),
                    },
                    _ => panic!("Expected return statement"),
                }
            }
            _ => panic!("Expected function definition"),
        },
        Err(e) => panic!("Failed to parse input: {:?}", e),
    }
}

#[test]
fn param_list_preserves_order_and_types() {
    let g = parameter_list("(x: int, y: int, z: int)").unwrap();
    let names: Vec<&str> = g.1.iter().map(|p| p.0.as_str()).collect();
    assert_eq!(names, vec!["x", "y", "z"]);
    for p in &g.1 {
        assert_eq!(p.1, "int");
    }
}

#[test]
fn param_list_empty() {
    let g = parameter_list("()").unwrap();
    assert!(g.1.is_empty());
    assert_eq!(g.0, 2);
}

#[test]
fn param_list_only_whitespace_inside() {
    let g = parameter_list("(   )").unwrap();
    assert!(g.1.is_empty());
}

#[test]
fn param_list_trailing_comma_fails() {
    assert!(parameter_list("(a: int,)").is_err());
}

#[test]
fn binary_expr_without_operator_fails() {
    let e = binary_expr("a b").unwrap_err();
    assert_eq!(e.rules, vec![Rule::BinaryExp]);
    assert_eq!(e.pos, 2);
}

#[test]
fn missing_colon_after_param_list_fails() {
    let input = "defpub add(a: int, b: int)\n    return a + b";
    let e = parse(input).unwrap_err();
    assert_eq!(e.rules, vec![Rule::FunctionDefinition]);
    assert_eq!(e.pos, 26);
}

#[test]
fn parse_error_at_start() {
    let e = parse("nothing here").unwrap_err();
    assert_eq!(e.rules, vec![Rule::FunctionDefinition]);
    assert_eq!(e.pos, 0);
}

#[test]
fn parameter_error_carries_rule_chain() {
    // The first parameter is malformed, so the list stays empty and the
    // closing parenthesis is not found where the comma stands.
    let input = "defpub f(a int): return a + b";
    let e = parse(input).unwrap_err();
    assert_eq!(e.rules, vec![Rule::FunctionDefinition]);
}

#[test]
fn trailing_input_is_ignored() {
    let input = "defpub f(): return a + b ; trailing garbage";
    let ast = parse(input).unwrap();
    match ast {
        AST::FunctionDef { name, params, .. } => {
            assert_eq!(name, "f");
            assert!(params.is_empty());
        }
        _ => panic!("Expected function definition"),
    }
}

#[test]
fn whitespace_between_name_and_params_is_allowed() {
    let input = "defpub f (a: int):\n return a + b";
    assert!(parse(input).is_ok());
}
