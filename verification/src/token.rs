//! Lexical rules of the language: numeric literals, identifiers, quoted
//! strings (header values), the operator and punctuation characters, and
//! line breaks, which separate declarations.
//!
//! `lex` turns source bytes into a token list and is specified exactly by
//! the recursive function `lex_from`.

use vstd::prelude::*;

use crate::num::is_digit;

verus! {

/// What a token is; the payload of numbers, identifiers and strings is
/// kept beside the kind in `Token`.
#[derive(Clone, Copy, PartialEq, Eq, Structural, Debug)]
pub enum TokenKind {
    /// A numeric literal: digits with at most one interior dot.
    Number,
    /// A letter-led alphanumeric word.
    Ident,
    /// A quoted string; the text holds what stands between the quotes.
    Str,
    Plus,
    Minus,
    Star,
    Slash,
    Caret,
    Percent,
    LParen,
    RParen,
    Comma,
    Equals,
    Newline,
}

/// One token of source text.
#[derive(PartialEq, Eq, Debug)]
pub struct Token {
    pub kind: TokenKind,
    /// The literal, word or string body for `Number`, `Ident` and `Str`;
    /// empty for the fixed tokens.
    pub text: Vec<u8>,
}

/// The mathematical image of a token.
pub struct TokenModel {
    pub kind: TokenKind,
    pub text: Seq<u8>,
}

impl View for Token {
    type V = TokenModel;

    open spec fn view(&self) -> TokenModel {
        TokenModel { kind: self.kind, text: self.text@ }
    }
}

/// The token images of a token list.
pub open spec fn token_views(ts: Seq<Token>) -> Seq<TokenModel> {
    ts.map_values(|t: Token| t@)
}

/// An ASCII letter.
pub open spec fn is_letter(b: u8) -> bool {
    (65 <= b <= 90) || (97 <= b <= 122)
}

/// A byte that may continue an identifier.
pub open spec fn is_word_byte(b: u8) -> bool {
    is_letter(b) || is_digit(b)
}

/// How many consecutive digit bytes stand at `i`.
pub open spec fn digits_len(s: Seq<u8>, i: int) -> nat
    decreases s.len() - i,
{
    if 0 <= i < s.len() && is_digit(s[i]) {
        1 + digits_len(s, i + 1)
    } else {
        0
    }
}

/// How many consecutive identifier bytes stand at `i`.
pub open spec fn word_len(s: Seq<u8>, i: int) -> nat
    decreases s.len() - i,
{
    if 0 <= i < s.len() && is_word_byte(s[i]) {
        1 + word_len(s, i + 1)
    } else {
        0
    }
}

/// How many bytes stand at `i` before a closing quote, a line break or
/// the end of the input.
pub open spec fn quoted_len(s: Seq<u8>, i: int) -> nat
    decreases s.len() - i,
{
    if 0 <= i < s.len() && s[i] != 34 && s[i] != 10 {
        1 + quoted_len(s, i + 1)
    } else {
        0
    }
}

/// The extent of the numeric literal at `i`: its integer digits and,
/// when a dot with a digit behind it follows, the dot and the fraction
/// digits.
pub open spec fn number_len(s: Seq<u8>, i: int) -> nat {
    let d = digits_len(s, i);
    if i + d + 1 < s.len() && s[i + d] == 46 && is_digit(s[i + d + 1]) {
        (d + 1 + digits_len(s, i + d + 1)) as nat
    } else {
        d
    }
}

/// A token of the given kind with no text.
pub open spec fn plain_token(kind: TokenKind) -> TokenModel {
    TokenModel { kind, text: Seq::empty() }
}

/// Lexing from position `i` with the tokens already read: the token list
/// of the whole input, or the position of the first unacceptable byte.
pub open spec fn lex_from(s: Seq<u8>, i: int, acc: Seq<TokenModel>) -> Result<
    Seq<TokenModel>,
    int,
>
    decreases s.len() - i,
{
    if i < 0 {
        Err(i)
    } else if i >= s.len() {
        Ok(acc)
    } else {
        let b = s[i];
        if b == 32 || b == 9 || b == 13 {
            lex_from(s, i + 1, acc)
        } else if b == 10 {
            lex_from(s, i + 1, acc.push(plain_token(TokenKind::Newline)))
        } else if b == 43 {
            lex_from(s, i + 1, acc.push(plain_token(TokenKind::Plus)))
        } else if b == 45 {
            lex_from(s, i + 1, acc.push(plain_token(TokenKind::Minus)))
        } else if b == 42 {
            lex_from(s, i + 1, acc.push(plain_token(TokenKind::Star)))
        } else if b == 47 {
            lex_from(s, i + 1, acc.push(plain_token(TokenKind::Slash)))
        } else if b == 94 {
            lex_from(s, i + 1, acc.push(plain_token(TokenKind::Caret)))
        } else if b == 37 {
            lex_from(s, i + 1, acc.push(plain_token(TokenKind::Percent)))
        } else if b == 40 {
            lex_from(s, i + 1, acc.push(plain_token(TokenKind::LParen)))
        } else if b == 41 {
            lex_from(s, i + 1, acc.push(plain_token(TokenKind::RParen)))
        } else if b == 44 {
            lex_from(s, i + 1, acc.push(plain_token(TokenKind::Comma)))
        } else if b == 61 {
            lex_from(s, i + 1, acc.push(plain_token(TokenKind::Equals)))
        } else if is_digit(b) {
            // The scan takes at least the digit at `i` and never leaves the
            // input; the explicit bounds keep the recursion well-founded.
            let n = number_len(s, i);
            if 1 <= n && i + n <= s.len() {
                lex_from(
                    s,
                    i + n,
                    acc.push(TokenModel { kind: TokenKind::Number, text: s.subrange(i, i + n) }),
                )
            } else {
                Err(i)
            }
        } else if is_letter(b) {
            let n = word_len(s, i);
            if 1 <= n && i + n <= s.len() {
                lex_from(
                    s,
                    i + n,
                    acc.push(TokenModel { kind: TokenKind::Ident, text: s.subrange(i, i + n) }),
                )
            } else {
                Err(i)
            }
        } else if b == 34 {
            let n = quoted_len(s, i + 1);
            let close = i + 1 + n;
            if close < s.len() && s[close] == 34 {
                lex_from(
                    s,
                    close + 1,
                    acc.push(
                        TokenModel { kind: TokenKind::Str, text: s.subrange(i + 1, close) },
                    ),
                )
            } else {
                Err(i)
            }
        } else {
            Err(i)
        }
    }
}

/// The token list of the input, or the position of the first byte that no
/// token may begin with.
pub open spec fn lex_of(s: Seq<u8>) -> Result<Seq<TokenModel>, int> {
    lex_from(s, 0, Seq::empty())
}

/// Why a source text was refused.
#[derive(Clone, Copy, PartialEq, Eq, Structural, Debug)]
pub enum ParseError {
    /// A byte no token may begin with, or an unterminated string, at the
    /// given byte position.
    BadByte { at: usize },
    /// A token that the grammar does not allow at the given token index.
    UnexpectedToken { at: usize },
    /// The input ended where the grammar needs more.
    UnexpectedEnd,
    /// A declaration repeats a parameter name.
    DuplicateParameter { at: usize },
}

/// The executable digit test.
pub fn digit_exec(b: u8) -> (r: bool)
    ensures
        r == is_digit(b),
{
    48 <= b && b <= 57
}

/// The executable letter test.
pub fn letter_exec(b: u8) -> (r: bool)
    ensures
        r == is_letter(b),
{
    (65 <= b && b <= 90) || (97 <= b && b <= 122)
}

/// The executable identifier-byte test.
pub fn word_byte_exec(b: u8) -> (r: bool)
    ensures
        r == is_word_byte(b),
{
    letter_exec(b) || digit_exec(b)
}

fn scan_digits(s: &[u8], from: usize) -> (n: usize)
    requires
        from <= s@.len(),
    ensures
        n == digits_len(s@, from as int),
        from + n <= s@.len(),
{
    let len = s.len();
    let mut n: usize = 0;
    while from + n < len && digit_exec(s[from + n])
        invariant
            len == s@.len(),
            from + n <= len,
            digits_len(s@, from as int) == n + digits_len(s@, (from + n) as int),
        decreases s@.len() - (from + n),
    {
        n = n + 1;
    }
    n
}

fn scan_word(s: &[u8], from: usize) -> (n: usize)
    requires
        from <= s@.len(),
    ensures
        n == word_len(s@, from as int),
        from + n <= s@.len(),
{
    let len = s.len();
    let mut n: usize = 0;
    while from + n < len && word_byte_exec(s[from + n])
        invariant
            len == s@.len(),
            from + n <= len,
            word_len(s@, from as int) == n + word_len(s@, (from + n) as int),
        decreases s@.len() - (from + n),
    {
        n = n + 1;
    }
    n
}

fn scan_quoted(s: &[u8], from: usize) -> (n: usize)
    requires
        from <= s@.len(),
    ensures
        n == quoted_len(s@, from as int),
        from + n <= s@.len(),
{
    let len = s.len();
    let mut n: usize = 0;
    while from + n < len && s[from + n] != 34 && s[from + n] != 10
        invariant
            len == s@.len(),
            from + n <= len,
            quoted_len(s@, from as int) == n + quoted_len(s@, (from + n) as int),
        decreases s@.len() - (from + n),
    {
        n = n + 1;
    }
    n
}

fn scan_number(s: &[u8], from: usize) -> (n: usize)
    requires
        from <= s@.len(),
    ensures
        n == number_len(s@, from as int),
        from + n <= s@.len(),
{
    let len = s.len();
    let d = scan_digits(s, from);
    if from + d < len && s[from + d] == 46 && from + d + 1 < len && digit_exec(s[from + d + 1]) {
        let f = scan_digits(s, from + d + 1);
        d + 1 + f
    } else {
        d
    }
}

/// Copy the bytes of `s` from `a` up to `b`.
fn copy_range(s: &[u8], a: usize, b: usize) -> (r: Vec<u8>)
    requires
        a <= b <= s@.len(),
    ensures
        r@ == s@.subrange(a as int, b as int),
{
    let mut r: Vec<u8> = Vec::new();
    let mut k: usize = a;
    while k < b
        invariant
            a <= k <= b <= s@.len(),
            r@ == s@.subrange(a as int, k as int),
        decreases b - k,
    {
        r.push(s[k]);
        k = k + 1;
        proof {
            assert(r@ =~= s@.subrange(a as int, k as int));
        }
    }
    r
}

proof fn lemma_views_push(ts: Seq<Token>, t: Token)
    ensures
        token_views(ts.push(t)) == token_views(ts).push(t@),
{
    assert(token_views(ts.push(t)) =~= token_views(ts).push(t@));
}

/// Cut the source text into tokens; the contract ties the result exactly
/// to `lex_of`.
pub fn lex(s: &[u8]) -> (r: Result<Vec<Token>, ParseError>)
    ensures
        match lex_of(s@) {
            Ok(ts) => r is Ok && token_views(r.unwrap()@) == ts,
            Err(p) => r is Err && r.unwrap_err() == (ParseError::BadByte { at: p as usize }),
        },
{
    let mut i: usize = 0;
    let mut out: Vec<Token> = Vec::new();
    proof {
        assert(token_views(out@) =~= Seq::<TokenModel>::empty());
    }
    loop
        invariant
            i <= s@.len(),
            lex_of(s@) == lex_from(s@, i as int, token_views(out@)),
        decreases s@.len() - i,
    {
        if i >= s.len() {
            return Ok(out);
        }
        let b = s[i];
        let ghost prev = token_views(out@);
        if b == 32 || b == 9 || b == 13 {
            i = i + 1;
        } else if b == 10 || b == 43 || b == 45 || b == 42 || b == 47 || b == 94 || b == 37 || b
            == 40 || b == 41 || b == 44 || b == 61 {
            let kind = if b == 10 {
                TokenKind::Newline
            } else if b == 43 {
                TokenKind::Plus
            } else if b == 45 {
                TokenKind::Minus
            } else if b == 42 {
                TokenKind::Star
            } else if b == 47 {
                TokenKind::Slash
            } else if b == 94 {
                TokenKind::Caret
            } else if b == 37 {
                TokenKind::Percent
            } else if b == 40 {
                TokenKind::LParen
            } else if b == 41 {
                TokenKind::RParen
            } else if b == 44 {
                TokenKind::Comma
            } else {
                TokenKind::Equals
            };
            let t = Token { kind, text: Vec::new() };
            proof {
                lemma_views_push(out@, t);
            }
            out.push(t);
            i = i + 1;
        } else if digit_exec(b) {
            let n = scan_number(s, i);
            proof {
                assert(digits_len(s@, i as int) >= 1);
                assert(n >= 1);
            }
            let t = Token { kind: TokenKind::Number, text: copy_range(s, i, i + n) };
            proof {
                lemma_views_push(out@, t);
            }
            out.push(t);
            i = i + n;
        } else if letter_exec(b) {
            let n = scan_word(s, i);
            proof {
                assert(n >= 1);
            }
            let t = Token { kind: TokenKind::Ident, text: copy_range(s, i, i + n) };
            proof {
                lemma_views_push(out@, t);
            }
            out.push(t);
            i = i + n;
        } else if b == 34 {
            let n = scan_quoted(s, i + 1);
            let close = i + 1 + n;
            if close < s.len() && s[close] == 34 {
                let t = Token { kind: TokenKind::Str, text: copy_range(s, i + 1, close) };
                proof {
                    lemma_views_push(out@, t);
                }
                out.push(t);
                i = close + 1;
            } else {
                return Err(ParseError::BadByte { at: i });
            }
        } else {
            return Err(ParseError::BadByte { at: i });
        }
    }
}

} // verus!
