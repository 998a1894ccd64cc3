//! Grammar-driven parsing: each production of the source grammar is its own
//! matcher over a remaining-input cursor, and the productions compose by
//! sequencing, optional comma-separated repetition, and mapping of matched
//! text into tree fragments. On failure, the labels of the enclosing rules
//! and the position of the deepest failure propagate outward.
//!
//! The grammar, with `ws` for whitespace:
//!
//! ```text
//! function_def := "defpub" ws+ identifier ws* param_list ":" ws+ return_stmt
//! param_list   := "(" (param ("," ws* param)*)? ws* ")"
//! param        := identifier ws* ":" ws+ "int"
//! return_stmt  := "return" ws+ binary_expr
//! binary_expr  := identifier ws* "+" ws* identifier
//! identifier   := one or more ASCII alphabetic characters
//! ```
//!
//! The entry point accepts a match of `function_def` at the start of the
//! input and ignores trailing unconsumed input.

use vstd::prelude::*;

verus! {

use vstd::string::*;
use crate::lexer::Token;
use crate::lexer::SpecToken;
use crate::lexer::is_space_char;
use crate::lexer::is_letter;
use crate::lexer::space_char;
use crate::lexer::letter_char;

/// The label of a grammar rule, used to build the context chain of a parse
/// error.
#[derive(Debug, PartialEq, Eq, Structural, Clone, Copy)]
pub enum Rule {
    Parameter,
    BinaryExp,
    FunctionDefinition,
}

/// A grammar mismatch: the labels of the rules the failure propagated
/// through, innermost first, and the position (in characters, counted from
/// zero) of the deepest failure.
#[derive(Debug, PartialEq, Eq)]
pub struct ParseError {
    pub rules: Vec<Rule>,
    pub pos: usize,
}

/// The mathematical value of a parse error.
pub struct SpecParseError {
    pub rules: Seq<Rule>,
    pub pos: int,
}

impl View for ParseError {
    type V = SpecParseError;

    open spec fn view(&self) -> SpecParseError {
        SpecParseError { rules: self.rules@, pos: self.pos as int }
    }
}

/// The abstract syntax tree of a parsed function definition. Every non-leaf
/// node exclusively owns its children.
#[derive(Debug, PartialEq, Eq)]
pub enum AST {
    FunctionDef { name: String, params: Vec<(String, String)>, body: Box<AST> },
    ReturnStatement(Box<AST>),
    BinaryExpr { left: Box<AST>, op: Token, right: Box<AST> },
    Identifier(String),
}

/// The mathematical value of a syntax tree, with all text as character
/// sequences.
pub enum SpecAst {
    FunctionDef { name: Seq<char>, params: Seq<(Seq<char>, Seq<char>)>, body: Box<SpecAst> },
    ReturnStatement(Box<SpecAst>),
    BinaryExpr { left: Box<SpecAst>, op: SpecToken, right: Box<SpecAst> },
    Identifier(Seq<char>),
}

/// The views of a parameter vector, element by element.
pub open spec fn params_view(ps: Seq<(String, String)>) -> Seq<(Seq<char>, Seq<char>)> {
    ps.map_values(|p: (String, String)| (p.0@, p.1@))
}

/// The view of a syntax tree.
pub open spec fn ast_view(a: AST) -> SpecAst
    decreases a,
{
    match a {
        AST::FunctionDef { name, params, body } => SpecAst::FunctionDef {
            name: name@,
            params: params_view(params@),
            body: Box::new(ast_view(*body)),
        },
        AST::ReturnStatement(e) => SpecAst::ReturnStatement(Box::new(ast_view(*e))),
        AST::BinaryExpr { left, op, right } => SpecAst::BinaryExpr {
            left: Box::new(ast_view(*left)),
            op: op@,
            right: Box::new(ast_view(*right)),
        },
        AST::Identifier(s) => SpecAst::Identifier(s@),
    }
}

impl View for AST {
    type V = SpecAst;

    open spec fn view(&self) -> SpecAst {
        ast_view(*self)
    }
}

/// The position just past the run of whitespace that starts at `i`.
pub open spec fn ws_end(s: Seq<char>, i: int) -> int
    decreases s.len() - i when 0 <= i <= s.len()
{
    if i < s.len() && is_space_char(s[i]) {
        ws_end(s, i + 1)
    } else {
        i
    }
}

pub proof fn lemma_ws_end(s: Seq<char>, i: int)
    requires
        0 <= i <= s.len(),
    ensures
        i <= ws_end(s, i) <= s.len(),
        i < s.len() && is_space_char(s[i]) ==> i + 1 <= ws_end(s, i),
    decreases s.len() - i,
{
    if i < s.len() && is_space_char(s[i]) {
        lemma_ws_end(s, i + 1);
    }
}

/// The position just past the maximal run of ASCII letters that starts at
/// `i`.
pub open spec fn alpha_end(s: Seq<char>, i: int) -> int
    decreases s.len() - i when 0 <= i <= s.len()
{
    if i < s.len() && is_letter(s[i]) {
        alpha_end(s, i + 1)
    } else {
        i
    }
}

pub proof fn lemma_alpha_end(s: Seq<char>, i: int)
    requires
        0 <= i <= s.len(),
    ensures
        i <= alpha_end(s, i) <= s.len(),
        i < s.len() && is_letter(s[i]) ==> i + 1 <= alpha_end(s, i),
    decreases s.len() - i,
{
    if i < s.len() && is_letter(s[i]) {
        lemma_alpha_end(s, i + 1);
    }
}

/// Appends an enclosing rule's label to a propagating failure.
pub open spec fn with_rule(e: SpecParseError, r: Rule) -> SpecParseError {
    SpecParseError { rules: e.rules.push(r), pos: e.pos }
}

/// Matches one or more ASCII alphabetic characters and yields the matched
/// text.
pub open spec fn spec_identifier(s: Seq<char>, i: int) -> Result<(int, Seq<char>), SpecParseError> {
    if i < s.len() && is_letter(s[i]) {
        Ok((alpha_end(s, i), s.subrange(i, alpha_end(s, i))))
    } else {
        Err(SpecParseError { rules: seq![], pos: i })
    }
}

/// Matches one given character.
pub open spec fn spec_char_tok(s: Seq<char>, i: int, c: char) -> Result<int, SpecParseError> {
    if i < s.len() && s[i] == c {
        Ok(i + 1)
    } else {
        Err(SpecParseError { rules: seq![], pos: i })
    }
}

/// Matches the given text verbatim.
pub open spec fn spec_tag(s: Seq<char>, i: int, t: Seq<char>) -> Result<int, SpecParseError> {
    if i + t.len() <= s.len() && s.subrange(i, i + t.len()) == t {
        Ok(i + t.len())
    } else {
        Err(SpecParseError { rules: seq![], pos: i })
    }
}

/// Matches one or more whitespace characters.
pub open spec fn spec_ws1(s: Seq<char>, i: int) -> Result<int, SpecParseError> {
    if i < s.len() && is_space_char(s[i]) {
        Ok(ws_end(s, i))
    } else {
        Err(SpecParseError { rules: seq![], pos: i })
    }
}

/// `param := identifier ws* ":" ws+ "int"`. The recorded type is always the
/// literal "int", the only type keyword of the grammar.
pub open spec fn spec_parameter(s: Seq<char>, i: int) -> Result<
    (int, (Seq<char>, Seq<char>)),
    SpecParseError,
> {
    match spec_identifier(s, i) {
        Err(e) => Err(with_rule(e, Rule::Parameter)),
        Ok((i1, name)) => match spec_char_tok(s, ws_end(s, i1), ':') {
            Err(e) => Err(with_rule(e, Rule::Parameter)),
            Ok(i2) => match spec_ws1(s, i2) {
                Err(e) => Err(with_rule(e, Rule::Parameter)),
                Ok(i3) => match spec_tag(s, i3, "int"@) {
                    Err(e) => Err(with_rule(e, Rule::Parameter)),
                    Ok(i4) => Ok((i4, (name, "int"@))),
                },
            },
        },
    }
}

pub proof fn lemma_parameter_advances(s: Seq<char>, i: int)
    requires
        0 <= i <= s.len(),
    ensures
        match spec_parameter(s, i) {
            Ok((j, p)) => i < j <= s.len() && p.1 == "int"@,
            Err(_) => true,
        },
{
    if i < s.len() && is_letter(s[i]) {
        lemma_alpha_end(s, i);
        let i1 = alpha_end(s, i);
        lemma_ws_end(s, i1);
        let w = ws_end(s, i1);
        if w < s.len() && s[w] == ':' {
            let i2 = w + 1;
            if i2 < s.len() && is_space_char(s[i2]) {
                lemma_ws_end(s, i2);
            }
        }
    }
}

/// The comma-separated tail of a parameter list, after `acc` has already
/// been matched: `("," ws* param)*`. A failing separator or parameter ends
/// the repetition without consuming anything.
pub open spec fn spec_params_rest(
    s: Seq<char>,
    i: int,
    acc: Seq<(Seq<char>, Seq<char>)>,
) -> (Seq<(Seq<char>, Seq<char>)>, int)
    decreases s.len() - i when 0 <= i <= s.len() via spec_params_rest_decreases
{
    match spec_char_tok(s, ws_end(s, i), ',') {
        Err(_) => (acc, i),
        Ok(j) => match spec_parameter(s, ws_end(s, j)) {
            Err(_) => (acc, i),
            Ok((k, p)) => spec_params_rest(s, k, acc.push(p)),
        },
    }
}

#[via_fn]
proof fn spec_params_rest_decreases(s: Seq<char>, i: int, acc: Seq<(Seq<char>, Seq<char>)>) {
    if 0 <= i <= s.len() {
        lemma_ws_end(s, i);
        if spec_char_tok(s, ws_end(s, i), ',') is Ok {
            let j = ws_end(s, i) + 1;
            lemma_ws_end(s, j);
            lemma_parameter_advances(s, ws_end(s, j));
        }
    }
}

/// `param_list := "(" (param ("," ws* param)*)? ws* ")"`, with optional
/// whitespace before each parameter and before the closing parenthesis.
pub open spec fn spec_parameter_list(s: Seq<char>, i: int) -> Result<
    (int, Seq<(Seq<char>, Seq<char>)>),
    SpecParseError,
> {
    match spec_char_tok(s, i, '(') {
        Err(e) => Err(e),
        Ok(i1) => {
            let matched = match spec_parameter(s, ws_end(s, i1)) {
                Err(_) => (Seq::<(Seq<char>, Seq<char>)>::empty(), i1),
                Ok((j, p)) => spec_params_rest(s, j, seq![p]),
            };
            match spec_char_tok(s, ws_end(s, matched.1), ')') {
                Err(e) => Err(e),
                Ok(i2) => Ok((i2, matched.0)),
            }
        },
    }
}

/// `binary_expr := identifier ws* "+" ws* identifier`, with the additive
/// operator as the tree's operator token.
pub open spec fn spec_binary_expr(s: Seq<char>, i: int) -> Result<(int, SpecAst), SpecParseError> {
    match spec_identifier(s, i) {
        Err(e) => Err(with_rule(e, Rule::BinaryExp)),
        Ok((i1, left)) => match spec_char_tok(s, ws_end(s, i1), '+') {
            Err(e) => Err(with_rule(e, Rule::BinaryExp)),
            Ok(i2) => match spec_identifier(s, ws_end(s, i2)) {
                Err(e) => Err(with_rule(e, Rule::BinaryExp)),
                Ok((i3, right)) => Ok(
                    (
                        i3,
                        SpecAst::BinaryExpr {
                            left: Box::new(SpecAst::Identifier(left)),
                            op: SpecToken::Plus,
                            right: Box::new(SpecAst::Identifier(right)),
                        },
                    ),
                ),
            },
        },
    }
}

/// `return_stmt := "return" ws+ binary_expr`. This rule carries no label of
/// its own: failures propagate unchanged.
pub open spec fn spec_return_statement(s: Seq<char>, i: int) -> Result<
    (int, SpecAst),
    SpecParseError,
> {
    match spec_tag(s, i, "return"@) {
        Err(e) => Err(e),
        Ok(i1) => match spec_ws1(s, i1) {
            Err(e) => Err(e),
            Ok(i2) => match spec_binary_expr(s, i2) {
                Err(e) => Err(e),
                Ok((i3, expr)) => Ok((i3, SpecAst::ReturnStatement(Box::new(expr)))),
            },
        },
    }
}

/// `function_def := "defpub" ws+ identifier ws* param_list ":" ws+
/// return_stmt`. The colon must directly follow the parameter list.
pub open spec fn spec_function_def(s: Seq<char>, i: int) -> Result<(int, SpecAst), SpecParseError> {
    match spec_tag(s, i, "defpub"@) {
        Err(e) => Err(with_rule(e, Rule::FunctionDefinition)),
        Ok(i1) => match spec_ws1(s, i1) {
            Err(e) => Err(with_rule(e, Rule::FunctionDefinition)),
            Ok(i2) => match spec_identifier(s, i2) {
                Err(e) => Err(with_rule(e, Rule::FunctionDefinition)),
                Ok((i3, name)) => match spec_parameter_list(s, ws_end(s, i3)) {
                    Err(e) => Err(with_rule(e, Rule::FunctionDefinition)),
                    Ok((i4, params)) => match spec_tag(s, i4, ":"@) {
                        Err(e) => Err(with_rule(e, Rule::FunctionDefinition)),
                        Ok(i5) => match spec_ws1(s, i5) {
                            Err(e) => Err(with_rule(e, Rule::FunctionDefinition)),
                            Ok(i6) => match spec_return_statement(s, i6) {
                                Err(e) => Err(with_rule(e, Rule::FunctionDefinition)),
                                Ok((i7, body)) => Ok(
                                    (
                                        i7,
                                        SpecAst::FunctionDef {
                                            name,
                                            params,
                                            body: Box::new(body),
                                        },
                                    ),
                                ),
                            },
                        },
                    },
                },
            },
        },
    }
}

/// The parse of the whole input: the tree of the `function_def` match at the
/// start of the input, with trailing unconsumed input ignored.
pub open spec fn spec_parse(s: Seq<char>) -> Result<SpecAst, SpecParseError> {
    match spec_function_def(s, 0) {
        Ok((_, a)) => Ok(a),
        Err(e) => Err(e),
    }
}

proof fn lemma_params_rest_types(s: Seq<char>, i: int, acc: Seq<(Seq<char>, Seq<char>)>)
    requires
        0 <= i <= s.len(),
        forall|k: int| 0 <= k < acc.len() ==> (#[trigger] acc[k]).1 == "int"@,
    ensures
        forall|k: int|
            0 <= k < spec_params_rest(s, i, acc).0.len() ==> (#[trigger] spec_params_rest(
                s,
                i,
                acc,
            ).0[k]).1 == "int"@,
    decreases s.len() - i,
{
    lemma_ws_end(s, i);
    if spec_char_tok(s, ws_end(s, i), ',') is Ok {
        let j = ws_end(s, i) + 1;
        lemma_ws_end(s, j);
        lemma_parameter_advances(s, ws_end(s, j));
        match spec_parameter(s, ws_end(s, j)) {
            Err(_) => {},
            Ok((k2, p)) => {
                assert forall|k: int|
                    0 <= k < acc.push(p).len() implies (#[trigger] acc.push(p)[k]).1
                    == "int"@ by {
                    if k < acc.len() {
                        assert(acc.push(p)[k] == acc[k]);
                    } else {
                        assert(acc.push(p)[k] == p);
                    }
                }
                lemma_params_rest_types(s, k2, acc.push(p));
                assert(spec_params_rest(s, i, acc) == spec_params_rest(s, k2, acc.push(p)));
            },
        }
    }
}

/// The repetition of a parameter list preserves source order: parameters
/// already matched keep their places, and each further match is appended
/// after them, so the resulting sequence lists the parameters exactly in
/// the order in which they stand in the source.
pub proof fn lemma_params_rest_order(s: Seq<char>, i: int, acc: Seq<(Seq<char>, Seq<char>)>)
    requires
        0 <= i <= s.len(),
    ensures
        spec_params_rest(s, i, acc).0.len() >= acc.len(),
        forall|k: int|
            0 <= k < acc.len() ==> #[trigger] spec_params_rest(s, i, acc).0[k] == acc[k],
    decreases s.len() - i,
{
    lemma_ws_end(s, i);
    if spec_char_tok(s, ws_end(s, i), ',') is Ok {
        let j = ws_end(s, i) + 1;
        lemma_ws_end(s, j);
        lemma_parameter_advances(s, ws_end(s, j));
        match spec_parameter(s, ws_end(s, j)) {
            Err(_) => {},
            Ok((k2, p)) => {
                lemma_params_rest_order(s, k2, acc.push(p));
                assert(spec_params_rest(s, i, acc) == spec_params_rest(s, k2, acc.push(p)));
                assert forall|k: int| 0 <= k < acc.len() implies #[trigger] spec_params_rest(
                    s,
                    i,
                    acc,
                ).0[k] == acc[k] by {
                    assert(spec_params_rest(s, k2, acc.push(p)).0[k] == acc.push(p)[k]);
                    assert(acc.push(p)[k] == acc[k]);
                }
            },
        }
    }
}

/// Every parameter list the grammar accepts records the literal "int" as
/// each parameter's type. The sequence holds the parameters in the order
/// in which they were matched from the source, left to right.
pub proof fn lemma_parameter_list_types(s: Seq<char>, i: int)
    requires
        0 <= i <= s.len(),
    ensures
        match spec_parameter_list(s, i) {
            Ok((j, params)) => forall|k: int|
                0 <= k < params.len() ==> (#[trigger] params[k]).1 == "int"@,
            Err(_) => true,
        },
{
    if spec_char_tok(s, i, '(') is Ok {
        let i1 = i + 1;
        lemma_ws_end(s, i1);
        lemma_parameter_advances(s, ws_end(s, i1));
        match spec_parameter(s, ws_end(s, i1)) {
            Err(_) => {},
            Ok((j, p)) => {
                lemma_params_rest_types(s, j, seq![p]);
            },
        }
    }
}

/// Every expression the `binary_expr` rule accepts is an additive
/// expression of exactly two identifiers: the tree pairs the two matched
/// identifier texts around the additive operator token.
pub proof fn lemma_binary_expr_shape(s: Seq<char>, i: int)
    requires
        0 <= i <= s.len(),
    ensures
        match spec_binary_expr(s, i) {
            Ok((j, a)) => {
                let x = s.subrange(i, alpha_end(s, i));
                let r0 = ws_end(s, ws_end(s, alpha_end(s, i)) + 1);
                let y = s.subrange(r0, alpha_end(s, r0));
                a == (SpecAst::BinaryExpr {
                    left: Box::new(SpecAst::Identifier(x)),
                    op: SpecToken::Plus,
                    right: Box::new(SpecAst::Identifier(y)),
                }) && j == alpha_end(s, r0)
            },
            Err(_) => true,
        },
{
}

fn fail_at(pos: usize) -> (e: ParseError)
    ensures
        e@ == (SpecParseError { rules: seq![], pos: pos as int }),
{
    let e = ParseError { rules: Vec::new(), pos };
    assert(e@.rules =~= seq![]);
    e
}

/// Skips whitespace: returns the position just past the run of whitespace at
/// `pos`.
fn ws_at(input: &str, pos: usize) -> (j: usize)
    requires
        pos <= input@.len(),
    ensures
        j as int == ws_end(input@, pos as int),
        pos <= j <= input@.len(),
{
    let n = input.unicode_len();
    let mut j: usize = pos;
    while j < n && space_char(input.get_char(j))
        invariant
            n == input@.len(),
            pos <= j <= n,
            ws_end(input@, pos as int) == ws_end(input@, j as int),
        decreases n - j,
    {
        j = j + 1;
    }
    j
}

/// Demands at least one whitespace character, then skips the whole run.
fn ws1_at(input: &str, pos: usize) -> (r: Result<usize, ParseError>)
    requires
        pos <= input@.len(),
    ensures
        match r {
            Ok(j) => spec_ws1(input@, pos as int) == Ok::<int, SpecParseError>(j as int) && pos < j
                <= input@.len(),
            Err(e) => spec_ws1(input@, pos as int) == Err::<int, SpecParseError>(e@),
        },
{
    let n = input.unicode_len();
    if pos < n && space_char(input.get_char(pos)) {
        proof {
            lemma_ws_end(input@, pos as int);
        }
        Ok(ws_at(input, pos))
    } else {
        Err(fail_at(pos))
    }
}

/// Matches one given character.
fn char_tok_at(input: &str, pos: usize, c: char) -> (r: Result<usize, ParseError>)
    requires
        pos <= input@.len(),
    ensures
        match r {
            Ok(j) => spec_char_tok(input@, pos as int, c) == Ok::<int, SpecParseError>(j as int)
                && j as int == pos + 1 && j <= input@.len(),
            Err(e) => spec_char_tok(input@, pos as int, c) == Err::<int, SpecParseError>(e@),
        },
{
    let n = input.unicode_len();
    if pos < n && input.get_char(pos) == c {
        Ok(pos + 1)
    } else {
        Err(fail_at(pos))
    }
}

/// Matches the given text verbatim.
fn tag_at(input: &str, pos: usize, t: &str) -> (r: Result<usize, ParseError>)
    requires
        pos <= input@.len(),
    ensures
        match r {
            Ok(j) => spec_tag(input@, pos as int, t@) == Ok::<int, SpecParseError>(j as int)
                && j as int == pos + t@.len() && j <= input@.len(),
            Err(e) => spec_tag(input@, pos as int, t@) == Err::<int, SpecParseError>(e@),
        },
{
    let n = input.unicode_len();
    let m = t.unicode_len();
    if m > n - pos {
        return Err(fail_at(pos));
    }
    let mut k: usize = 0;
    while k < m
        invariant
            n == input@.len(),
            m == t@.len(),
            pos + m <= n,
            k <= m,
            forall|l: int| 0 <= l < k ==> input@[pos + l] == t@[l],
        decreases m - k,
    {
        if input.get_char(pos + k) != t.get_char(k) {
            proof {
                let sub = input@.subrange(pos as int, pos + t@.len());
                if sub == t@ {
                    assert(sub[k as int] == t@[k as int]);
                }
            }
            return Err(fail_at(pos));
        }
        k = k + 1;
    }
    assert(input@.subrange(pos as int, pos + t@.len()) =~= t@);
    Ok(pos + m)
}

/// `identifier`: one or more ASCII alphabetic characters, as an owned
/// string.
fn identifier(input: &str, pos: usize) -> (r: Result<(usize, String), ParseError>)
    requires
        pos <= input@.len(),
    ensures
        match r {
            Ok((j, name)) => spec_identifier(input@, pos as int) == Ok::<
                (int, Seq<char>),
                SpecParseError,
            >((j as int, name@)) && pos < j <= input@.len(),
            Err(e) => spec_identifier(input@, pos as int) == Err::<
                (int, Seq<char>),
                SpecParseError,
            >(e@),
        },
{
    let n = input.unicode_len();
    if pos < n && letter_char(input.get_char(pos)) {
        let mut j: usize = pos;
        while j < n && letter_char(input.get_char(j))
            invariant
                n == input@.len(),
                pos <= j <= n,
                alpha_end(input@, pos as int) == alpha_end(input@, j as int),
            decreases n - j,
        {
            j = j + 1;
        }
        proof {
            lemma_alpha_end(input@, pos as int);
        }
        let name = input.substring_char(pos, j).to_owned();
        Ok((j, name))
    } else {
        Err(fail_at(pos))
    }
}

/// `param`: an identifier, a colon and the type keyword; the recorded type
/// is always the literal "int".
fn parameter(input: &str, pos: usize) -> (r: Result<(usize, (String, String)), ParseError>)
    requires
        pos <= input@.len(),
    ensures
        match r {
            Ok((j, p)) => spec_parameter(input@, pos as int) == Ok::<
                (int, (Seq<char>, Seq<char>)),
                SpecParseError,
            >((j as int, (p.0@, p.1@))) && pos < j <= input@.len(),
            Err(e) => spec_parameter(input@, pos as int) == Err::<
                (int, (Seq<char>, Seq<char>)),
                SpecParseError,
            >(e@),
        },
{
    match identifier(input, pos) {
        Err(mut e) => {
            e.rules.push(Rule::Parameter);
            Err(e)
        },
        Ok((i1, name)) => {
            let w = ws_at(input, i1);
            match char_tok_at(input, w, ':') {
                Err(mut e) => {
                    e.rules.push(Rule::Parameter);
                    Err(e)
                },
                Ok(i2) => match ws1_at(input, i2) {
                    Err(mut e) => {
                        e.rules.push(Rule::Parameter);
                        Err(e)
                    },
                    Ok(i3) => match tag_at(input, i3, "int") {
                        Err(mut e) => {
                            e.rules.push(Rule::Parameter);
                            Err(e)
                        },
                        Ok(i4) => Ok((i4, (name, String::from_str("int")))),
                    },
                },
            }
        },
    }
}

/// `param_list`, from a given position: the parenthesised, comma-separated
/// parameters in source order.
fn parameter_list_at(input: &str, pos: usize) -> (r: Result<
    (usize, Vec<(String, String)>),
    ParseError,
>)
    requires
        pos <= input@.len(),
    ensures
        match r {
            Ok((j, ps)) => spec_parameter_list(input@, pos as int) == Ok::<
                (int, Seq<(Seq<char>, Seq<char>)>),
                SpecParseError,
            >((j as int, params_view(ps@))) && pos < j <= input@.len(),
            Err(e) => spec_parameter_list(input@, pos as int) == Err::<
                (int, Seq<(Seq<char>, Seq<char>)>),
                SpecParseError,
            >(e@),
        },
{
    let n = input.unicode_len();
    match char_tok_at(input, pos, '(') {
        Err(e) => Err(e),
        Ok(i1) => {
            let mut params: Vec<(String, String)> = Vec::new();
            let mut cur: usize = i1;
            let ghost list_spec = match spec_parameter(input@, ws_end(input@, i1 as int)) {
                Err(_) => (Seq::<(Seq<char>, Seq<char>)>::empty(), i1 as int),
                Ok((j, p)) => spec_params_rest(input@, j, seq![p]),
            };
            let w0 = ws_at(input, i1);
            match parameter(input, w0) {
                Err(_) => {
                    assert(params_view(params@) =~= Seq::<(Seq<char>, Seq<char>)>::empty());
                },
                Ok((j, p)) => {
                    let ghost pv = (p.0@, p.1@);
                    params.push(p);
                    cur = j;
                    assert(params_view(params@) =~= seq![pv]);
                    loop
                        invariant
                            n == input@.len(),
                            i1 <= cur <= n,
                            spec_params_rest(input@, j as int, seq![pv]) == spec_params_rest(
                                input@,
                                cur as int,
                                params_view(params@),
                            ),
                        ensures
                            n == input@.len(),
                            i1 <= cur <= n,
                            spec_params_rest(input@, j as int, seq![pv]) == (
                                params_view(params@),
                                cur as int,
                            ),
                        decreases n - cur,
                    {
                        let w1 = ws_at(input, cur);
                        match char_tok_at(input, w1, ',') {
                            Err(_) => {
                                break;
                            },
                            Ok(jc) => {
                                let w2 = ws_at(input, jc);
                                match parameter(input, w2) {
                                    Err(_) => {
                                        break;
                                    },
                                    Ok((k, p2)) => {
                                        let ghost acc_old = params_view(params@);
                                        let ghost p2v = (p2.0@, p2.1@);
                                        params.push(p2);
                                        cur = k;
                                        assert(params_view(params@) =~= acc_old.push(p2v));
                                    },
                                }
                            },
                        }
                    }
                },
            }
            assert((params_view(params@), cur as int) == list_spec);
            let w3 = ws_at(input, cur);
            match char_tok_at(input, w3, ')') {
                Err(e) => Err(e),
                Ok(i2) => Ok((i2, params)),
            }
        },
    }
}

/// `param_list` at the start of the input. Returns the position of the
/// remaining input and the parameter pairs in source order.
pub fn parameter_list(input: &str) -> (r: Result<(usize, Vec<(String, String)>), ParseError>)
    ensures
        match r {
            Ok((j, ps)) => spec_parameter_list(input@, 0) == Ok::<
                (int, Seq<(Seq<char>, Seq<char>)>),
                SpecParseError,
            >((j as int, params_view(ps@))),
            Err(e) => spec_parameter_list(input@, 0) == Err::<
                (int, Seq<(Seq<char>, Seq<char>)>),
                SpecParseError,
            >(e@),
        },
{
    parameter_list_at(input, 0)
}

/// `binary_expr`, from a given position.
fn binary_expr_at(input: &str, pos: usize) -> (r: Result<(usize, AST), ParseError>)
    requires
        pos <= input@.len(),
    ensures
        match r {
            Ok((j, a)) => spec_binary_expr(input@, pos as int) == Ok::<
                (int, SpecAst),
                SpecParseError,
            >((j as int, a@)) && pos < j <= input@.len(),
            Err(e) => spec_binary_expr(input@, pos as int) == Err::<
                (int, SpecAst),
                SpecParseError,
            >(e@),
        },
{
    match identifier(input, pos) {
        Err(mut e) => {
            e.rules.push(Rule::BinaryExp);
            Err(e)
        },
        Ok((i1, left)) => {
            let w1 = ws_at(input, i1);
            match char_tok_at(input, w1, '+') {
                Err(mut e) => {
                    e.rules.push(Rule::BinaryExp);
                    Err(e)
                },
                Ok(i2) => {
                    let w2 = ws_at(input, i2);
                    match identifier(input, w2) {
                        Err(mut e) => {
                            e.rules.push(Rule::BinaryExp);
                            Err(e)
                        },
                        Ok((i3, right)) => {
                            proof {
                                reveal_with_fuel(ast_view, 2);
                            }
                            Ok(
                                (
                                    i3,
                                    AST::BinaryExpr {
                                        left: Box::new(AST::Identifier(left)),
                                        op: Token::Plus,
                                        right: Box::new(AST::Identifier(right)),
                                    },
                                ),
                            )
                        },
                    }
                },
            }
        },
    }
}

/// `binary_expr` at the start of the input. Returns the position of the
/// remaining input and the expression tree.
pub fn binary_expr(input: &str) -> (r: Result<(usize, AST), ParseError>)
    ensures
        match r {
            Ok((j, a)) => spec_binary_expr(input@, 0) == Ok::<(int, SpecAst), SpecParseError>(
                (j as int, a@),
            ),
            Err(e) => spec_binary_expr(input@, 0) == Err::<(int, SpecAst), SpecParseError>(e@),
        },
{
    binary_expr_at(input, 0)
}

/// `return_stmt`: the return keyword and the returned binary expression.
fn return_statement(input: &str, pos: usize) -> (r: Result<(usize, AST), ParseError>)
    requires
        pos <= input@.len(),
    ensures
        match r {
            Ok((j, a)) => spec_return_statement(input@, pos as int) == Ok::<
                (int, SpecAst),
                SpecParseError,
            >((j as int, a@)) && pos < j <= input@.len(),
            Err(e) => spec_return_statement(input@, pos as int) == Err::<
                (int, SpecAst),
                SpecParseError,
            >(e@),
        },
{
    match tag_at(input, pos, "return") {
        Err(e) => Err(e),
        Ok(i1) => match ws1_at(input, i1) {
            Err(e) => Err(e),
            Ok(i2) => match binary_expr_at(input, i2) {
                Err(e) => Err(e),
                Ok((i3, expr)) => Ok((i3, AST::ReturnStatement(Box::new(expr)))),
            },
        },
    }
}

/// `function_def`: the whole declaration form.
fn function_def(input: &str, pos: usize) -> (r: Result<(usize, AST), ParseError>)
    requires
        pos <= input@.len(),
    ensures
        match r {
            Ok((j, a)) => spec_function_def(input@, pos as int) == Ok::<
                (int, SpecAst),
                SpecParseError,
            >((j as int, a@)) && pos <= j <= input@.len(),
            Err(e) => spec_function_def(input@, pos as int) == Err::<
                (int, SpecAst),
                SpecParseError,
            >(e@),
        },
{
    match tag_at(input, pos, "defpub") {
        Err(mut e) => {
            e.rules.push(Rule::FunctionDefinition);
            Err(e)
        },
        Ok(i1) => match ws1_at(input, i1) {
            Err(mut e) => {
                e.rules.push(Rule::FunctionDefinition);
                Err(e)
            },
            Ok(i2) => match identifier(input, i2) {
                Err(mut e) => {
                    e.rules.push(Rule::FunctionDefinition);
                    Err(e)
                },
                Ok((i3, name)) => {
                    let w = ws_at(input, i3);
                    match parameter_list_at(input, w) {
                        Err(mut e) => {
                            e.rules.push(Rule::FunctionDefinition);
                            Err(e)
                        },
                        Ok((i4, params)) => match tag_at(input, i4, ":") {
                            Err(mut e) => {
                                e.rules.push(Rule::FunctionDefinition);
                                Err(e)
                            },
                            Ok(i5) => match ws1_at(input, i5) {
                                Err(mut e) => {
                                    e.rules.push(Rule::FunctionDefinition);
                                    Err(e)
                                },
                                Ok(i6) => match return_statement(input, i6) {
                                    Err(mut e) => {
                                        e.rules.push(Rule::FunctionDefinition);
                                        Err(e)
                                    },
                                    Ok((i7, body)) => Ok(
                                        (
                                            i7,
                                            AST::FunctionDef {
                                                name,
                                                params,
                                                body: Box::new(body),
                                            },
                                        ),
                                    ),
                                },
                            },
                        },
                    }
                },
            },
        },
    }
}

/// Parses the input as one function definition, or reports the failed rules
/// and the position of the deepest failure. Trailing input after the
/// definition is ignored.
pub fn parse(input: &str) -> (r: Result<AST, ParseError>)
    ensures
        match r {
            Ok(a) => spec_parse(input@) == Ok::<SpecAst, SpecParseError>(a@),
            Err(e) => spec_parse(input@) == Err::<SpecAst, SpecParseError>(e@),
        },
{
    match function_def(input, 0) {
        Ok((_, a)) => Ok(a),
        Err(e) => Err(e),
    }
}

} // verus!
