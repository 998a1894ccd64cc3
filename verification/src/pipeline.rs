//! The full pipeline: tokenization, parsing and code generation, composed
//! in sequence. Each stage either fully succeeds or fails the whole
//! invocation with a structured, caller-visible error; there is no local
//! recovery or retry.

use vstd::prelude::*;

verus! {

use crate::codegen::CodegenError;
use crate::codegen::generate_code;
use crate::codegen::spec_generate;
use crate::lexer::LexError;
use crate::lexer::SpecToken;
use crate::lexer::spec_tokenize;
use crate::lexer::tokenize;
use crate::parser::ParseError;
use crate::parser::SpecAst;
use crate::parser::SpecParseError;
use crate::parser::parse;
use crate::parser::spec_parse;

/// A failure of one stage of the pipeline.
#[derive(Debug, PartialEq, Eq)]
pub enum PipelineError {
    Lex(LexError),
    Parse(ParseError),
    Codegen(CodegenError),
}

/// The mathematical value of a pipeline failure.
pub enum SpecPipelineError {
    Lex(LexError),
    Parse(SpecParseError),
    Codegen(SpecToken),
}

/// The outcome of the whole pipeline on the input: the generated text, or
/// the failure of the first stage that rejects it. The lexical scan runs
/// first, so an unrecognized character is a lexical error even where the
/// grammar would already have failed.
pub open spec fn spec_compile(s: Seq<char>) -> Result<Seq<char>, SpecPipelineError> {
    match spec_tokenize(s) {
        Err(e) => Err(SpecPipelineError::Lex(e)),
        Ok(_) => match spec_parse(s) {
            Err(e) => Err(SpecPipelineError::Parse(e)),
            Ok(ast) => match spec_generate(ast) {
                Err(op) => Err(SpecPipelineError::Codegen(op)),
                Ok(text) => Ok(text),
            },
        },
    }
}

/// Runs the three stages on the source text and returns the generated
/// output text, or the error of the stage that failed.
pub fn compile(input: &str) -> (r: Result<String, PipelineError>)
    ensures
        match r {
            Ok(text) => spec_compile(input@) == Ok::<Seq<char>, SpecPipelineError>(text@),
            Err(PipelineError::Lex(e)) => spec_compile(input@) == Err::<
                Seq<char>,
                SpecPipelineError,
            >(SpecPipelineError::Lex(e)),
            Err(PipelineError::Parse(e)) => spec_compile(input@) == Err::<
                Seq<char>,
                SpecPipelineError,
            >(SpecPipelineError::Parse(e@)),
            Err(PipelineError::Codegen(CodegenError::UnsupportedOperator(op))) => spec_compile(
                input@,
            ) == Err::<Seq<char>, SpecPipelineError>(SpecPipelineError::Codegen(op@)),
        },
{
    match tokenize(input) {
        Err(e) => Err(PipelineError::Lex(e)),
        Ok(_) => match parse(input) {
            Err(e) => Err(PipelineError::Parse(e)),
            Ok(ast) => match generate_code(ast) {
                Err(e) => Err(PipelineError::Codegen(e)),
                Ok(text) => Ok(text),
            },
        },
    }
}

/// Every tree the parser produces lies within the generator's mapping: its
/// only operator is the additive one, so code generation succeeds on it.
pub proof fn lemma_parse_then_generate(s: Seq<char>)
    ensures
        match spec_parse(s) {
            Ok(a) => spec_generate(a) is Ok,
            Err(_) => true,
        },
{
    reveal_with_fuel(spec_generate, 5);
}

/// The pipeline succeeds exactly on the inputs that both the lexer and the
/// parser accept: code generation never rejects a parsed tree.
pub proof fn lemma_compile_ok(s: Seq<char>)
    ensures
        spec_compile(s) is Ok <==> (spec_tokenize(s) is Ok && spec_parse(s) is Ok),
{
    lemma_parse_then_generate(s);
}

} // verus!
