//! Lexical analysis: source text is scanned left to right into a sequence of
//! tokens terminated by an end-of-input marker. Whitespace is skipped,
//! single-character punctuation maps directly to its token, and a maximal run
//! of letters, digits and underscores starting with a letter is an identifier,
//! reclassified as a keyword when it matches one of the reserved words.
//! Any other character is reported as a lexical error with its position.

use vstd::prelude::*;

verus! {

use vstd::string::*;

/// The smallest lexical unit of the source language.
#[derive(Debug, PartialEq, Eq)]
pub enum Token {
    DefPub,
    Identifier(String),
    LeftParen,
    RightParen,
    Colon,
    Comma,
    IntType,
    Return,
    Plus,
    EOF,
}

/// The mathematical value of a token, with identifier text as a character
/// sequence.
pub enum SpecToken {
    DefPub,
    Identifier(Seq<char>),
    LeftParen,
    RightParen,
    Colon,
    Comma,
    IntType,
    Return,
    Plus,
    EOF,
}

impl View for Token {
    type V = SpecToken;

    open spec fn view(&self) -> SpecToken {
        match self {
            Token::DefPub => SpecToken::DefPub,
            Token::Identifier(s) => SpecToken::Identifier(s@),
            Token::LeftParen => SpecToken::LeftParen,
            Token::RightParen => SpecToken::RightParen,
            Token::Colon => SpecToken::Colon,
            Token::Comma => SpecToken::Comma,
            Token::IntType => SpecToken::IntType,
            Token::Return => SpecToken::Return,
            Token::Plus => SpecToken::Plus,
            Token::EOF => SpecToken::EOF,
        }
    }
}

/// An input character outside the recognized set, together with the position
/// (in characters, counted from zero) at which it stands.
#[derive(Debug, PartialEq, Eq, Structural, Clone, Copy)]
pub struct LexError {
    pub ch: char,
    pub pos: usize,
}

/// The whitespace characters the lexer skips.
pub open spec fn is_space_char(c: char) -> bool {
    c == ' ' || c == '\n' || c == '\t' || c == '\r'
}

/// ASCII letters, which may start an identifier.
pub open spec fn is_letter(c: char) -> bool {
    ('a' <= c && c <= 'z') || ('A' <= c && c <= 'Z')
}

/// Characters that may continue an identifier: letters, digits, underscore.
pub open spec fn is_ident_char(c: char) -> bool {
    is_letter(c) || ('0' <= c && c <= '9') || c == '_'
}

/// The position just past the maximal run of identifier characters that
/// starts at `i`.
pub open spec fn ident_end(s: Seq<char>, i: int) -> int
    decreases s.len() - i when 0 <= i <= s.len()
{
    if i < s.len() && is_ident_char(s[i]) {
        ident_end(s, i + 1)
    } else {
        i
    }
}

pub proof fn lemma_ident_end(s: Seq<char>, i: int)
    requires
        0 <= i <= s.len(),
    ensures
        i <= ident_end(s, i) <= s.len(),
        i < s.len() && is_ident_char(s[i]) ==> i + 1 <= ident_end(s, i),
        ident_end(s, i) < s.len() ==> !is_ident_char(s[ident_end(s, i)]),
        forall|k: int| i <= k < ident_end(s, i) ==> is_ident_char(s[k]),
    decreases s.len() - i,
{
    if i < s.len() && is_ident_char(s[i]) {
        lemma_ident_end(s, i + 1);
    }
}

/// Keyword classification: a word is a reserved word or an identifier.
/// Reserved-word matching takes precedence, so reserved words can never be
/// identifiers.
pub open spec fn spec_classify(word: Seq<char>) -> SpecToken {
    if word == "defpub"@ {
        SpecToken::DefPub
    } else if word == "int"@ {
        SpecToken::IntType
    } else if word == "return"@ {
        SpecToken::Return
    } else {
        SpecToken::Identifier(word)
    }
}

/// Prepends one token to a lexing outcome; an error swallows the token.
pub open spec fn cons_token(t: SpecToken, rest: Result<Seq<SpecToken>, LexError>) -> Result<
    Seq<SpecToken>,
    LexError,
> {
    match rest {
        Ok(ts) => Ok(seq![t] + ts),
        Err(e) => Err(e),
    }
}

/// Prepends an already-lexed prefix to a lexing outcome.
pub open spec fn cons_tokens(prefix: Seq<SpecToken>, rest: Result<Seq<SpecToken>, LexError>) -> Result<
    Seq<SpecToken>,
    LexError,
> {
    match rest {
        Ok(ts) => Ok(prefix + ts),
        Err(e) => Err(e),
    }
}

/// The tokens of the input from position `i` on: either the token sequence
/// ending in the end-of-input marker, or the first unrecognized character
/// with its position.
pub open spec fn spec_tokenize_from(s: Seq<char>, i: int) -> Result<Seq<SpecToken>, LexError>
    decreases s.len() - i when 0 <= i <= s.len() via spec_tokenize_from_decreases
{
    if i >= s.len() {
        Ok(seq![SpecToken::EOF])
    } else if is_space_char(s[i]) {
        spec_tokenize_from(s, i + 1)
    } else if s[i] == '(' {
        cons_token(SpecToken::LeftParen, spec_tokenize_from(s, i + 1))
    } else if s[i] == ')' {
        cons_token(SpecToken::RightParen, spec_tokenize_from(s, i + 1))
    } else if s[i] == ':' {
        cons_token(SpecToken::Colon, spec_tokenize_from(s, i + 1))
    } else if s[i] == ',' {
        cons_token(SpecToken::Comma, spec_tokenize_from(s, i + 1))
    } else if s[i] == '+' {
        cons_token(SpecToken::Plus, spec_tokenize_from(s, i + 1))
    } else if is_letter(s[i]) {
        let j = ident_end(s, i);
        cons_token(spec_classify(s.subrange(i, j)), spec_tokenize_from(s, j))
    } else {
        Err(LexError { ch: s[i], pos: i as usize })
    }
}

#[via_fn]
proof fn spec_tokenize_from_decreases(s: Seq<char>, i: int) {
    if 0 <= i < s.len() {
        lemma_ident_end(s, i);
    }
}

/// The tokens of the whole input.
pub open spec fn spec_tokenize(s: Seq<char>) -> Result<Seq<SpecToken>, LexError> {
    spec_tokenize_from(s, 0)
}

/// The views of a token vector, element by element.
pub open spec fn tokens_view(ts: Seq<Token>) -> Seq<SpecToken> {
    ts.map_values(|t: Token| t@)
}

pub(crate) fn space_char(c: char) -> (b: bool)
    ensures
        b == is_space_char(c),
{
    c == ' ' || c == '\n' || c == '\t' || c == '\r'
}

pub(crate) fn letter_char(c: char) -> (b: bool)
    ensures
        b == is_letter(c),
{
    ('a' <= c && c <= 'z') || ('A' <= c && c <= 'Z')
}

fn ident_char(c: char) -> (b: bool)
    ensures
        b == is_ident_char(c),
{
    letter_char(c) || ('0' <= c && c <= '9') || c == '_'
}

fn keyword_matches(w: &String, kw: &str) -> (b: bool)
    ensures
        b == (w@ == kw@),
{
    let k: String = kw.to_owned();
    *w == k
}

proof fn lemma_cons_shift(prefix: Seq<SpecToken>, t: SpecToken, rest: Result<Seq<SpecToken>, LexError>)
    ensures
        cons_tokens(prefix, cons_token(t, rest)) == cons_tokens(prefix.push(t), rest),
{
    match rest {
        Ok(ts) => {
            assert(prefix + (seq![t] + ts) =~= prefix.push(t) + ts);
        },
        Err(_) => {},
    }
}

/// Scans the source text into a token sequence terminated by the
/// end-of-input marker, or reports the first character outside the
/// recognized set together with its position.
pub fn tokenize(input: &str) -> (r: Result<Vec<Token>, LexError>)
    ensures
        match r {
            Ok(tokens) => spec_tokenize(input@) == Ok::<Seq<SpecToken>, LexError>(
                tokens_view(tokens@),
            ),
            Err(e) => spec_tokenize(input@) == Err::<Seq<SpecToken>, LexError>(e),
        },
{
    let n: usize = input.unicode_len();
    let mut tokens: Vec<Token> = Vec::new();
    let mut i: usize = 0;
    while i < n
        invariant
            n == input@.len(),
            i <= n,
            spec_tokenize(input@) == cons_tokens(
                tokens_view(tokens@),
                spec_tokenize_from(input@, i as int),
            ),
        decreases n - i,
    {
        let ghost prefix = tokens_view(tokens@);
        let c = input.get_char(i);
        if space_char(c) {
            i = i + 1;
        } else if c == '(' {
            proof {
                lemma_cons_shift(prefix, SpecToken::LeftParen, spec_tokenize_from(input@, i + 1));
            }
            tokens.push(Token::LeftParen);
            i = i + 1;
            assert(tokens_view(tokens@) =~= prefix.push(SpecToken::LeftParen));
        } else if c == ')' {
            proof {
                lemma_cons_shift(prefix, SpecToken::RightParen, spec_tokenize_from(input@, i + 1));
            }
            tokens.push(Token::RightParen);
            i = i + 1;
            assert(tokens_view(tokens@) =~= prefix.push(SpecToken::RightParen));
        } else if c == ':' {
            proof {
                lemma_cons_shift(prefix, SpecToken::Colon, spec_tokenize_from(input@, i + 1));
            }
            tokens.push(Token::Colon);
            i = i + 1;
            assert(tokens_view(tokens@) =~= prefix.push(SpecToken::Colon));
        } else if c == ',' {
            proof {
                lemma_cons_shift(prefix, SpecToken::Comma, spec_tokenize_from(input@, i + 1));
            }
            tokens.push(Token::Comma);
            i = i + 1;
            assert(tokens_view(tokens@) =~= prefix.push(SpecToken::Comma));
        } else if c == '+' {
            proof {
                lemma_cons_shift(prefix, SpecToken::Plus, spec_tokenize_from(input@, i + 1));
            }
            tokens.push(Token::Plus);
            i = i + 1;
            assert(tokens_view(tokens@) =~= prefix.push(SpecToken::Plus));
        } else if letter_char(c) {
            let start = i;
            let mut j: usize = i;
            while j < n && ident_char(input.get_char(j))
                invariant
                    n == input@.len(),
                    start <= j <= n,
                    ident_end(input@, start as int) == ident_end(input@, j as int),
                decreases n - j,
            {
                j = j + 1;
            }
            proof {
                lemma_ident_end(input@, start as int);
            }
            assert(ident_end(input@, start as int) == j as int);
            let word: &str = input.substring_char(start, j);
            let wkey: String = word.to_owned();
            let tok: Token = if keyword_matches(&wkey, "defpub") {
                Token::DefPub
            } else if keyword_matches(&wkey, "int") {
                Token::IntType
            } else if keyword_matches(&wkey, "return") {
                Token::Return
            } else {
                Token::Identifier(wkey)
            };
            let ghost tokv = tok@;
            assert(tokv == spec_classify(input@.subrange(start as int, j as int)));
            proof {
                lemma_cons_shift(prefix, tokv, spec_tokenize_from(input@, j as int));
            }
            tokens.push(tok);
            i = j;
            assert(tokens_view(tokens@) =~= prefix.push(tokv));
        } else {
            let e = LexError { ch: c, pos: i };
            assert(spec_tokenize_from(input@, i as int) == Err::<Seq<SpecToken>, LexError>(e));
            return Err(e);
        }
    }
    let ghost prefix = tokens_view(tokens@);
    assert(spec_tokenize_from(input@, i as int) == Ok::<Seq<SpecToken>, LexError>(
        seq![SpecToken::EOF],
    ));
    tokens.push(Token::EOF);
    assert(tokens_view(tokens@) =~= prefix + seq![SpecToken::EOF]);
    Ok(tokens)
}

} // verus!
