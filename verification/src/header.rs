//! The textual header that precedes the program body: `KEY = value`
//! lines carrying metadata such as the title and the duration. A value is
//! a quoted string or a number; the header ends at the first line that
//! does not have this shape.

use vstd::prelude::*;

use crate::expression::{bytes_eq, copy_bytes, lemma_token_view, refuse_at, tok_at};
use crate::num::{is_number_literal, lit_bits};
use crate::num::{lit_exec, number_literal_exec};
use crate::token::{token_views, ParseError, Token, TokenKind, TokenModel};

verus! {

/// A header value: a quoted string or a number.
#[derive(PartialEq, Eq, Debug)]
pub enum HeaderValue {
    /// The text between the quotes.
    String(Vec<u8>),
    /// The encoded double value of the numeral.
    Number(u64),
}

/// The mathematical image of a header value.
pub enum HeaderValueModel {
    String(Seq<u8>),
    Number(u64),
}

impl View for HeaderValue {
    type V = HeaderValueModel;

    open spec fn view(&self) -> HeaderValueModel {
        match self {
            HeaderValue::String(s) => HeaderValueModel::String(s@),
            HeaderValue::Number(bits) => HeaderValueModel::Number(*bits),
        }
    }
}

/// One `KEY = value` line.
#[derive(PartialEq, Eq, Debug)]
pub struct HeaderDeclaration {
    pub key: Vec<u8>,
    pub value: HeaderValue,
}

/// The mathematical image of a declaration.
pub struct HeaderDeclarationModel {
    pub key: Seq<u8>,
    pub value: HeaderValueModel,
}

impl View for HeaderDeclaration {
    type V = HeaderDeclarationModel;

    open spec fn view(&self) -> HeaderDeclarationModel {
        HeaderDeclarationModel { key: self.key@, value: self.value@ }
    }
}

/// The collected metadata; a later line for a key wins.
#[derive(PartialEq, Eq, Debug)]
pub struct Header {
    key_values: Vec<(Vec<u8>, HeaderValue)>,
}

/// The header entries folded into a map.
pub open spec fn header_map(s: Seq<(Vec<u8>, HeaderValue)>) -> Map<Seq<u8>, HeaderValueModel>
    decreases s.len(),
{
    if s.len() == 0 {
        Map::empty()
    } else {
        header_map(s.drop_last()).insert(s.last().0@, s.last().1@)
    }
}

impl View for Header {
    type V = Map<Seq<u8>, HeaderValueModel>;

    closed spec fn view(&self) -> Map<Seq<u8>, HeaderValueModel> {
        header_map(self.key_values@)
    }
}

/// The key `TITLE`.
pub open spec fn title_key() -> Seq<u8> {
    seq![84u8, 73u8, 84u8, 76u8, 69u8]
}

/// The key `DURATION`.
pub open spec fn duration_key() -> Seq<u8> {
    seq![68u8, 85u8, 82u8, 65u8, 84u8, 73u8, 79u8, 78u8]
}

/// The title, when the header binds `TITLE` to a string.
pub open spec fn spec_title(m: Map<Seq<u8>, HeaderValueModel>) -> Option<Seq<u8>> {
    if m.contains_key(title_key()) {
        match m[title_key()] {
            HeaderValueModel::String(s) => Some(s),
            HeaderValueModel::Number(_) => None,
        }
    } else {
        None
    }
}

/// The duration in seconds, when the header binds `DURATION` to a
/// number; given as the encoded double.
pub open spec fn spec_duration(m: Map<Seq<u8>, HeaderValueModel>) -> Option<u64> {
    if m.contains_key(duration_key()) {
        match m[duration_key()] {
            HeaderValueModel::Number(bits) => Some(bits),
            HeaderValueModel::String(_) => None,
        }
    } else {
        None
    }
}

/// A header value token: a string, or a numeral.
pub open spec fn parse_header_value_at(ts: Seq<TokenModel>, i: int) -> Result<
    (HeaderValueModel, int),
    ParseError,
> {
    if !(0 <= i < ts.len()) {
        Err(ParseError::UnexpectedEnd)
    } else {
        match ts[i].kind {
            TokenKind::Str => Ok((HeaderValueModel::String(ts[i].text), i + 1)),
            TokenKind::Number => if is_number_literal(ts[i].text) {
                Ok((HeaderValueModel::Number(lit_bits(ts[i].text)), i + 1))
            } else {
                Err(refuse_at(i))
            },
            _ => Err(refuse_at(i)),
        }
    }
}

/// One `KEY = value` declaration.
pub open spec fn parse_header_declaration_at(ts: Seq<TokenModel>, i: int) -> Result<
    (HeaderDeclarationModel, int),
    ParseError,
> {
    if !(0 <= i < ts.len()) {
        Err(ParseError::UnexpectedEnd)
    } else if ts[i].kind != TokenKind::Ident {
        Err(refuse_at(i))
    } else if tok_at(ts, i + 1) != Some(TokenKind::Equals) {
        if i + 1 >= ts.len() {
            Err(ParseError::UnexpectedEnd)
        } else {
            Err(refuse_at(i + 1))
        }
    } else {
        match parse_header_value_at(ts, i + 2) {
            Err(e) => Err(e),
            Ok((value, j)) => Ok((HeaderDeclarationModel { key: ts[i].text, value }, j)),
        }
    }
}

/// The header section: declarations and blank lines, collected until the
/// first token that cannot begin one; each declaration ends its line.
pub open spec fn header_decls_at(
    ts: Seq<TokenModel>,
    i: int,
    acc: Map<Seq<u8>, HeaderValueModel>,
) -> Result<(Map<Seq<u8>, HeaderValueModel>, int), ParseError>
    decreases ts.len() - i,
{
    if !(0 <= i < ts.len()) {
        Ok((acc, if i < 0 {
            i
        } else {
            ts.len() as int
        }))
    } else if ts[i].kind == TokenKind::Newline {
        header_decls_at(ts, i + 1, acc)
    } else if ts[i].kind == TokenKind::Ident && tok_at(ts, i + 1) == Some(TokenKind::Equals) {
        match parse_header_declaration_at(ts, i) {
            Err(e) => Err(e),
            Ok((decl, j)) => if i < j <= ts.len() {
                if j < ts.len() && ts[j].kind != TokenKind::Newline {
                    Err(refuse_at(j))
                } else {
                    header_decls_at(ts, j, acc.insert(decl.key, decl.value))
                }
            } else {
                Err(refuse_at(i))
            },
        }
    } else {
        Ok((acc, i))
    }
}

impl HeaderValue {
    /// Parse a header value from `pos`.
    pub fn parse(tokens: &Vec<Token>, pos: usize) -> (r: Result<(HeaderValue, usize), ParseError>)
        ensures
            match r {
                Ok((v, j)) => parse_header_value_at(token_views(tokens@), pos as int) == Ok::<
                    (HeaderValueModel, int),
                    ParseError,
                >((v@, j as int)),
                Err(e) => parse_header_value_at(token_views(tokens@), pos as int) == Err::<
                    (HeaderValueModel, int),
                    ParseError,
                >(e),
            },
    {
        if pos >= tokens.len() {
            return Err(ParseError::UnexpectedEnd);
        }
        proof {
            lemma_token_view(tokens@, pos as int);
        }
        let t = &tokens[pos];
        match t.kind {
            TokenKind::Str => Ok((HeaderValue::String(copy_bytes(&t.text)), pos + 1)),
            TokenKind::Number => {
                if number_literal_exec(&t.text) {
                    Ok((HeaderValue::Number(lit_exec(&t.text)), pos + 1))
                } else {
                    Err(ParseError::UnexpectedToken { at: pos })
                }
            },
            _ => Err(ParseError::UnexpectedToken { at: pos }),
        }
    }
}

impl HeaderDeclaration {
    /// Parse one `KEY = value` line from `pos`.
    pub fn parse(tokens: &Vec<Token>, pos: usize) -> (r: Result<
        (HeaderDeclaration, usize),
        ParseError,
    >)
        ensures
            match r {
                Ok((d, j)) => parse_header_declaration_at(token_views(tokens@), pos as int) == Ok::<
                    (HeaderDeclarationModel, int),
                    ParseError,
                >((d@, j as int)),
                Err(e) => parse_header_declaration_at(token_views(tokens@), pos as int) == Err::<
                    (HeaderDeclarationModel, int),
                    ParseError,
                >(e),
            },
    {
        if pos >= tokens.len() {
            return Err(ParseError::UnexpectedEnd);
        }
        proof {
            lemma_token_view(tokens@, pos as int);
            if pos + 1 < tokens@.len() {
                lemma_token_view(tokens@, pos as int + 1);
            }
        }
        let t = &tokens[pos];
        if t.kind != TokenKind::Ident {
            return Err(ParseError::UnexpectedToken { at: pos });
        }
        if !(pos + 1 < tokens.len() && tokens[pos + 1].kind == TokenKind::Equals) {
            if pos + 1 >= tokens.len() {
                return Err(ParseError::UnexpectedEnd);
            } else {
                return Err(ParseError::UnexpectedToken { at: pos + 1 });
            }
        }
        match HeaderValue::parse(tokens, pos + 2) {
            Err(e) => Err(e),
            Ok((value, j)) => Ok((HeaderDeclaration { key: copy_bytes(&t.text), value }, j)),
        }
    }
}

impl Header {
    /// Parse the header section from `pos`; the returned position is
    /// where the body begins.
    #[verifier::rlimit(60)]
    pub fn parse(tokens: &Vec<Token>, pos: usize) -> (r: Result<(Header, usize), ParseError>)
        ensures
            match r {
                Ok((h, j)) => header_decls_at(token_views(tokens@), pos as int, Map::empty())
                    == Ok::<(Map<Seq<u8>, HeaderValueModel>, int), ParseError>((h@, j as int)),
                Err(e) => header_decls_at(token_views(tokens@), pos as int, Map::empty()) == Err::<
                    (Map<Seq<u8>, HeaderValueModel>, int),
                    ParseError,
                >(e),
            },
    {
        let ghost ts = token_views(tokens@);
        let mut entries: Vec<(Vec<u8>, HeaderValue)> = Vec::new();
        let mut i = pos;
        proof {
            assert(header_map(entries@) =~= Map::<Seq<u8>, HeaderValueModel>::empty());
        }
        #[verifier::loop_isolation(false)]
        loop
            invariant
                pos <= i,
                header_decls_at(ts, pos as int, Map::empty()) == header_decls_at(
                    ts,
                    i as int,
                    header_map(entries@),
                ),
            decreases tokens@.len() - i,
        {
            proof {
                if i < tokens@.len() {
                    lemma_token_view(tokens@, i as int);
                }
                if i + 1 < tokens@.len() {
                    lemma_token_view(tokens@, i as int + 1);
                }
            }
            if i >= tokens.len() {
                return Ok((Header { key_values: entries }, tokens.len()));
            }
            if tokens[i].kind == TokenKind::Newline {
                i = i + 1;
            } else if tokens[i].kind == TokenKind::Ident && i + 1 < tokens.len() && tokens[i
                + 1].kind == TokenKind::Equals {
                match HeaderDeclaration::parse(tokens, i) {
                    Err(e) => {
                        return Err(e);
                    },
                    Ok((decl, j)) => {
                        if !(i < j && j <= tokens.len()) {
                            return Err(ParseError::UnexpectedToken { at: i });
                        }
                        proof {
                            if j < tokens@.len() {
                                lemma_token_view(tokens@, j as int);
                            }
                        }
                        if j < tokens.len() && tokens[j].kind != TokenKind::Newline {
                            return Err(ParseError::UnexpectedToken { at: j });
                        }
                        let ghost prev = entries@;
                        entries.push((decl.key, decl.value));
                        proof {
                            assert(entries@.drop_last() =~= prev);
                        }
                        i = j;
                    },
                }
            } else {
                return Ok((Header { key_values: entries }, i));
            }
        }
    }

    /// The collected entries, latest shadowing entry last.
    pub fn key_values(&self) -> (r: &Vec<(Vec<u8>, HeaderValue)>)
        ensures
            header_map(r@) == self@,
    {
        &self.key_values
    }

    /// The title, when `TITLE` is bound to a string.
    pub fn title(&self) -> (r: Option<&Vec<u8>>)
        ensures
            match r {
                Some(s) => spec_title(self@) == Some(s@),
                None => spec_title(self@) is None,
            },
    {
        let key: Vec<u8> = vec![84u8, 73u8, 84u8, 76u8, 69u8];
        proof {
            assert(key@ =~= title_key());
        }
        match self.find_value(&key) {
            Some(HeaderValue::String(s)) => Some(s),
            _ => None,
        }
    }

    /// The duration's encoded double, when `DURATION` is bound to a
    /// number.
    pub fn duration(&self) -> (r: Option<u64>)
        ensures
            r == spec_duration(self@),
    {
        let key: Vec<u8> = vec![68u8, 85u8, 82u8, 65u8, 84u8, 73u8, 79u8, 78u8];
        proof {
            assert(key@ =~= duration_key());
        }
        match self.find_value(&key) {
            Some(HeaderValue::Number(bits)) => Some(*bits),
            _ => None,
        }
    }

    /// The value a key is bound to, if any.
    fn find_value(&self, key: &Vec<u8>) -> (r: Option<&HeaderValue>)
        ensures
            match r {
                Some(v) => self@.contains_key(key@) && v@ == self@[key@],
                None => !self@.contains_key(key@),
            },
    {
        let ghost s = self.key_values@;
        let ghost name = key@;
        let mut k: usize = self.key_values.len();
        proof {
            assert(s.take(s.len() as int) =~= s);
        }
        while k > 0
            invariant
                k <= s.len(),
                s == self.key_values@,
                name == key@,
                header_map(s).contains_key(name) == header_map(s.take(k as int)).contains_key(name),
                header_map(s).contains_key(name) ==> header_map(s)[name] == header_map(
                    s.take(k as int),
                )[name],
            decreases k,
        {
            proof {
                assert(s.take(k as int).drop_last() =~= s.take(k as int - 1));
                assert(s.take(k as int).last() == s[k as int - 1]);
            }
            if bytes_eq(&self.key_values[k - 1].0, key) {
                return Some(&self.key_values[k - 1].1);
            }
            k = k - 1;
        }
        proof {
            assert(s.take(0) =~= Seq::<(Vec<u8>, HeaderValue)>::empty());
        }
        None
    }
}

} // verus!
