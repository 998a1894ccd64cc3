use defpub::lexer::LexError;
use defpub::parser::Rule;
use defpub::pipeline::PipelineError;
use defpub::pipeline::compile;

#[test]
fn compile_add() {
    let out = compile("defpub add(a: int, b: int):\n    return a + b").unwrap();
    assert_eq!(out, "(define-private (add (a uint) (b uint) ) (+ (+ a b)))");
}

#[test]
fn compile_unrecognized_character_is_a_lex_error() {
    let e = compile("defpub f(a: int): return a # b").unwrap_err();
    assert_eq!(e, PipelineError::Lex(LexError { ch: '#', pos: 27 }));
}

#[test]
fn compile_grammar_mismatch_is_a_parse_error() {
    let e = compile("defpub add(a: int, b: int)\n    return a + b").unwrap_err();
    match e {
        PipelineError::Parse(pe) => {
            assert_eq!(pe.rules, vec![Rule::FunctionDefinition]);
            assert_eq!(pe.pos, 26);
        }
        other => panic!("Expected a parse error, got {:?}", other),
    }
}

#[test]
fn compile_is_deterministic() {
    let src = "defpub f(x: int):\n    return x + x";
    assert_eq!(compile(src).unwrap(), compile(src).unwrap());
}
