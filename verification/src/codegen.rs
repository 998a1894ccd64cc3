//! Code generation: a validated syntax tree is rendered as output text by
//! structural recursion. Generation is a pure syntax-directed transform:
//! identical trees always yield byte-identical text.
//!
//! Two behaviours of the mapping are deliberate: each parameter is emitted
//! with the fixed unsigned-integer type keyword of the target syntax,
//! whatever type name the tree records, and a return statement is wrapped
//! in one more additive form around its expression.
//! A binary expression with any operator other than the additive one has no
//! mapping and is reported as an error.

use vstd::prelude::*;

verus! {

use vstd::string::*;
use crate::lexer::SpecToken;
use crate::lexer::Token;
use crate::parser::AST;
use crate::parser::SpecAst;
use crate::parser::ast_view;
use crate::parser::params_view;

/// A tree shape the generator has no mapping for: a binary expression whose
/// operator is not the additive one, with the offending operator token.
#[derive(Debug, PartialEq, Eq)]
pub enum CodegenError {
    UnsupportedOperator(Token),
}

/// The text of one parameter sequence: `(name uint) ` for each parameter,
/// in order.
pub open spec fn spec_gen_params(params: Seq<(Seq<char>, Seq<char>)>) -> Seq<char>
    decreases params.len(),
{
    if params.len() == 0 {
        Seq::<char>::empty()
    } else {
        "("@ + params[0].0 + " uint) "@ + spec_gen_params(params.drop_first())
    }
}

/// The generated text of a tree, or the first operator (in generation
/// order) for which no mapping exists.
pub open spec fn spec_generate(a: SpecAst) -> Result<Seq<char>, SpecToken>
    decreases a,
{
    match a {
        SpecAst::FunctionDef { name, params, body } => match spec_generate(*body) {
            Ok(b) => Ok("(define-private ("@ + name + " "@ + spec_gen_params(params) + ") "@ + b + ")"@),
            Err(t) => Err(t),
        },
        SpecAst::ReturnStatement(e) => match spec_generate(*e) {
            Ok(t) => Ok("(+ "@ + t + ")"@),
            Err(t) => Err(t),
        },
        SpecAst::BinaryExpr { left, op, right } => {
            if op == SpecToken::Plus {
                match spec_generate(*left) {
                    Err(t) => Err(t),
                    Ok(l) => match spec_generate(*right) {
                        Err(t) => Err(t),
                        Ok(r) => Ok("(+ "@ + l + " "@ + r + ")"@),
                    },
                }
            } else {
                Err(op)
            }
        },
        SpecAst::Identifier(name) => Ok(name),
    }
}

/// Renders the parameters of a function definition from index `k` on.
fn gen_params(params: &Vec<(String, String)>, k: usize) -> (r: String)
    requires
        k <= params@.len(),
    ensures
        r@ == spec_gen_params(params_view(params@).skip(k as int)),
    decreases params@.len() - k,
{
    if k == params.len() {
        assert(params_view(params@).skip(k as int) =~= Seq::<(Seq<char>, Seq<char>)>::empty());
        String::new()
    } else {
        let mut s = String::from_str("(");
        s.append(params[k].0.as_str());
        s.append(" uint) ");
        let rest = gen_params(params, k + 1);
        s.append(rest.as_str());
        proof {
            let pv = params_view(params@);
            assert(pv.skip(k as int).drop_first() =~= pv.skip(k + 1));
            assert(pv.skip(k as int)[0] == pv[k as int]);
        }
        s
    }
}

/// Renders a validated tree as output text. Generation is deterministic:
/// the result is a function of the tree alone. The only failing shape is a
/// binary expression whose operator is not the additive one; its operator
/// token is reported.
pub fn generate_code(ast: AST) -> (r: Result<String, CodegenError>)
    ensures
        match r {
            Ok(text) => spec_generate(ast@) == Ok::<Seq<char>, SpecToken>(text@),
            Err(CodegenError::UnsupportedOperator(op)) => spec_generate(ast@) == Err::<
                Seq<char>,
                SpecToken,
            >(op@),
        },
    decreases ast,
{
    match ast {
        AST::FunctionDef { name, params, body } => {
            match generate_code(*body) {
                Err(e) => Err(e),
                Ok(b) => {
                    let mut code = String::from_str("(define-private (");
                    code.append(name.as_str());
                    code.append(" ");
                    let ps = gen_params(&params, 0);
                    code.append(ps.as_str());
                    code.append(") ");
                    code.append(b.as_str());
                    code.append(")");
                    assert(params_view(params@).skip(0) =~= params_view(params@));
                    Ok(code)
                },
            }
        },
        AST::ReturnStatement(e) => {
            match generate_code(*e) {
                Err(err) => Err(err),
                Ok(t) => {
                    let mut code = String::from_str("(+ ");
                    code.append(t.as_str());
                    code.append(")");
                    Ok(code)
                },
            }
        },
        AST::BinaryExpr { left, op, right } => {
            match op {
                Token::Plus => {
                    match generate_code(*left) {
                        Err(e) => Err(e),
                        Ok(l) => match generate_code(*right) {
                            Err(e) => Err(e),
                            Ok(rt) => {
                                let mut code = String::from_str("(+ ");
                                code.append(l.as_str());
                                code.append(" ");
                                code.append(rt.as_str());
                                code.append(")");
                                Ok(code)
                            },
                        },
                    }
                },
                _ => Err(CodegenError::UnsupportedOperator(op)),
            }
        },
        AST::Identifier(name) => Ok(name),
    }
}

/// Code generation is deterministic and pure: the generated text is a
/// function of the tree alone, so equal trees yield byte-identical output.
pub proof fn lemma_generate_deterministic(a1: SpecAst, a2: SpecAst)
    requires
        a1 == a2,
    ensures
        spec_generate(a1) == spec_generate(a2),
{
}

} // verus!
