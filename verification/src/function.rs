//! User-defined functions and native builtins, unified behind one call
//! protocol: a signature (name and parameter names) and a body that is
//! either a parsed expression, evaluated with eagerly bound arguments, or
//! a native operation, which receives its arguments unevaluated.

use vstd::prelude::*;

use crate::expression::{parse_expression_at, refuse_at, tok_at};
use crate::expression::{bytes_eq, copy_bytes, lemma_token_view};
use crate::expression::{Expression, ExpressionModel};
use crate::token::{token_views, ParseError, Token, TokenKind, TokenModel};

verus! {

/// The fixed native operations of the language.
#[derive(Clone, Copy, PartialEq, Eq, Structural, Debug)]
pub enum Builtin {
    Abs,
    Min,
    Max,
    Sin,
    Cos,
    Floor,
    Ceil,
    Mix,
    Sum,
    Prod,
}

/// A function's name and its parameter names, order significant.
#[derive(PartialEq, Eq, Debug)]
pub struct FunctionSignature {
    identifier: Vec<u8>,
    parameters: Vec<Vec<u8>>,
}

/// The mathematical image of a signature.
pub struct SignatureModel {
    pub identifier: Seq<u8>,
    pub parameters: Seq<Seq<u8>>,
}

/// The images of a list of names.
pub open spec fn byte_lists_view(s: Seq<Vec<u8>>) -> Seq<Seq<u8>> {
    s.map_values(|v: Vec<u8>| v@)
}

impl View for FunctionSignature {
    type V = SignatureModel;

    closed spec fn view(&self) -> SignatureModel {
        SignatureModel { identifier: self.identifier@, parameters: byte_lists_view(self.parameters@) }
    }
}

/// What a function does when called.
#[derive(PartialEq, Eq, Debug)]
pub enum FunctionBody {
    /// A parsed expression, evaluated with the parameters bound to the
    /// already-evaluated arguments.
    Expression(Expression),
    /// A native operation, responsible for its own argument handling.
    Native(Builtin),
}

/// The mathematical image of a body.
pub enum BodyModel {
    Expression(ExpressionModel),
    Native(Builtin),
}

impl View for FunctionBody {
    type V = BodyModel;

    open spec fn view(&self) -> BodyModel {
        match self {
            FunctionBody::Expression(e) => BodyModel::Expression(e@),
            FunctionBody::Native(b) => BodyModel::Native(*b),
        }
    }
}

/// A callable: its signature and its body.
#[derive(PartialEq, Eq, Debug)]
pub struct Function {
    signature: FunctionSignature,
    body: FunctionBody,
}

/// The mathematical image of a function.
pub struct FunctionModel {
    pub signature: SignatureModel,
    pub body: BodyModel,
}

impl View for Function {
    type V = FunctionModel;

    closed spec fn view(&self) -> FunctionModel {
        FunctionModel { signature: self.signature@, body: self.body@ }
    }
}

impl FunctionSignature {
    /// The function's name.
    pub fn identifier(&self) -> (r: &Vec<u8>)
        ensures
            r@ == self@.identifier,
    {
        &self.identifier
    }

    /// The parameter names, in binding order.
    pub fn parameters(&self) -> (r: &Vec<Vec<u8>>)
        ensures
            byte_lists_view(r@) == self@.parameters,
    {
        &self.parameters
    }

    /// A structurally identical copy.
    pub fn duplicate(&self) -> (r: FunctionSignature)
        ensures
            r@ == self@,
    {
        let mut parameters: Vec<Vec<u8>> = Vec::new();
        let mut k: usize = 0;
        while k < self.parameters.len()
            invariant
                k <= self.parameters@.len(),
                parameters@.len() == k,
                forall|j: int| 0 <= j < k ==> parameters@[j]@ == self.parameters@[j]@,
            decreases self.parameters@.len() - k,
        {
            parameters.push(copy_bytes(&self.parameters[k]));
            k = k + 1;
        }
        proof {
            assert(byte_lists_view(parameters@) =~= byte_lists_view(self.parameters@));
        }
        FunctionSignature { identifier: copy_bytes(&self.identifier), parameters }
    }
}

impl FunctionBody {
    /// A structurally identical copy.
    pub fn duplicate(&self) -> (r: FunctionBody)
        ensures
            r@ == self@,
    {
        match self {
            FunctionBody::Expression(e) => FunctionBody::Expression(e.duplicate()),
            FunctionBody::Native(b) => FunctionBody::Native(*b),
        }
    }
}

impl Function {
    /// A native function under the given name, with no declared
    /// parameters: builtins handle their own arguments.
    pub fn new(identifier: Vec<u8>, native: Builtin) -> (r: Function)
        ensures
            r@.signature.identifier == identifier@,
            r@.signature.parameters == Seq::<Seq<u8>>::empty(),
            r@.body == BodyModel::Native(native),
    {
        let f = Function {
            signature: FunctionSignature { identifier, parameters: Vec::new() },
            body: FunctionBody::Native(native),
        };
        proof {
            assert(byte_lists_view(Seq::<Vec<u8>>::empty()) =~= Seq::<Seq<u8>>::empty());
        }
        f
    }

    /// The signature.
    pub fn signature(&self) -> (r: &FunctionSignature)
        ensures
            r@ == self@.signature,
    {
        &self.signature
    }

    /// The body.
    pub fn body(&self) -> (r: &FunctionBody)
        ensures
            r@ == self@.body,
    {
        &self.body
    }

    /// A structurally identical copy.
    pub fn duplicate(&self) -> (r: Function)
        ensures
            r@ == self@,
    {
        Function { signature: self.signature.duplicate(), body: self.body.duplicate() }
    }
}

/// Two names among the parameters are the same.
pub open spec fn has_duplicate(params: Seq<Seq<u8>>) -> bool {
    exists|p: int, q: int| 0 <= p < q < params.len() && params[p] == params[q]
}

/// The executable duplicate test.
pub fn has_duplicate_exec(params: &Vec<Vec<u8>>) -> (r: bool)
    ensures
        r == has_duplicate(byte_lists_view(params@)),
{
    let ghost pv = byte_lists_view(params@);
    let mut q: usize = 0;
    while q < params.len()
        invariant
            q <= params@.len(),
            pv == byte_lists_view(params@),
            forall|a: int, b: int| 0 <= a < b < q ==> pv[a] != pv[b],
        decreases params@.len() - q,
    {
        let mut p: usize = 0;
        while p < q
            invariant
                p <= q < params@.len(),
                pv == byte_lists_view(params@),
                forall|a: int, b: int| 0 <= a < b < q ==> pv[a] != pv[b],
                forall|a: int| 0 <= a < p ==> pv[a] != pv[q as int],
            decreases q - p,
        {
            if bytes_eq(&params[p], &params[q]) {
                proof {
                    assert(pv[p as int] == pv[q as int]);
                }
                return true;
            }
            p = p + 1;
        }
        q = q + 1;
    }
    false
}

/// The parameter list after the opening parenthesis: names separated by
/// commas, closed by a parenthesis; the returned position stands after
/// it.
pub open spec fn parse_params_at(ts: Seq<TokenModel>, i: int, acc: Seq<Seq<u8>>) -> Result<
    (Seq<Seq<u8>>, int),
    ParseError,
>
    decreases ts.len() - i,
{
    if !(0 <= i < ts.len()) {
        Err(ParseError::UnexpectedEnd)
    } else if ts[i].kind != TokenKind::Ident {
        Err(refuse_at(i))
    } else {
        if tok_at(ts, i + 1) == Some(TokenKind::Comma) {
            parse_params_at(ts, i + 2, acc.push(ts[i].text))
        } else if tok_at(ts, i + 1) == Some(TokenKind::RParen) {
            Ok((acc.push(ts[i].text), i + 2))
        } else if i + 1 >= ts.len() {
            Err(ParseError::UnexpectedEnd)
        } else {
            Err(refuse_at(i + 1))
        }
    }
}

/// A declaration's head: `identifier ( parameter-list )`. Duplicate
/// parameter names are a definition error, reported at the head's start.
pub open spec fn parse_signature_at(ts: Seq<TokenModel>, i: int) -> Result<
    (SignatureModel, int),
    ParseError,
> {
    if !(0 <= i < ts.len()) {
        Err(ParseError::UnexpectedEnd)
    } else if ts[i].kind != TokenKind::Ident {
        Err(refuse_at(i))
    } else if tok_at(ts, i + 1) != Some(TokenKind::LParen) {
        if i + 1 >= ts.len() {
            Err(ParseError::UnexpectedEnd)
        } else {
            Err(refuse_at(i + 1))
        }
    } else if tok_at(ts, i + 2) == Some(TokenKind::RParen) {
        Ok((SignatureModel { identifier: ts[i].text, parameters: Seq::empty() }, i + 3))
    } else {
        match parse_params_at(ts, i + 2, Seq::empty()) {
            Err(e) => Err(e),
            Ok((params, j)) => if has_duplicate(params) {
                Err(ParseError::DuplicateParameter { at: i as usize })
            } else {
                Ok((SignatureModel { identifier: ts[i].text, parameters: params }, j))
            },
        }
    }
}

/// A whole declaration: a head, `=`, and a body expression.
pub open spec fn parse_function_at(ts: Seq<TokenModel>, i: int) -> Result<
    (FunctionModel, int),
    ParseError,
> {
    match parse_signature_at(ts, i) {
        Err(e) => Err(e),
        Ok((sig, j)) => if tok_at(ts, j) == Some(TokenKind::Equals) {
            match parse_expression_at(ts, j + 1) {
                Err(e) => Err(e),
                Ok((body, j2)) => Ok(
                    (FunctionModel { signature: sig, body: BodyModel::Expression(body) }, j2),
                ),
            }
        } else if j >= ts.len() {
            Err(ParseError::UnexpectedEnd)
        } else {
            Err(refuse_at(j))
        },
    }
}

/// The image of an executable parameter-list parse result.
pub open spec fn params_result_view(r: Result<(Vec<Vec<u8>>, usize), ParseError>) -> Result<
    (Seq<Seq<u8>>, int),
    ParseError,
> {
    match r {
        Ok((list, j)) => Ok((byte_lists_view(list@), j as int)),
        Err(p) => Err(p),
    }
}

/// The image of an executable signature parse result.
pub open spec fn sig_result_view(r: Result<(FunctionSignature, usize), ParseError>) -> Result<
    (SignatureModel, int),
    ParseError,
> {
    match r {
        Ok((s, j)) => Ok((s@, j as int)),
        Err(p) => Err(p),
    }
}

/// The image of an executable declaration parse result.
pub open spec fn fn_result_view(r: Result<(Function, usize), ParseError>) -> Result<
    (FunctionModel, int),
    ParseError,
> {
    match r {
        Ok((f, j)) => Ok((f@, j as int)),
        Err(p) => Err(p),
    }
}

/// The image of a pushed name list grows by the pushed image.
pub proof fn lemma_byte_lists_view_push(s: Seq<Vec<u8>>, v: Vec<u8>)
    ensures
        byte_lists_view(s.push(v)) == byte_lists_view(s).push(v@),
{
    assert(byte_lists_view(s.push(v)) =~= byte_lists_view(s).push(v@));
}

/// Parse the parameter names from `pos`, extending those already read;
/// mirrors `parse_params_at` step for step.
fn parse_params(tokens: &Vec<Token>, pos: usize, acc: Vec<Vec<u8>>) -> (r: Result<
    (Vec<Vec<u8>>, usize),
    ParseError,
>)
    ensures
        params_result_view(r) == parse_params_at(
            token_views(tokens@),
            pos as int,
            byte_lists_view(acc@),
        ),
    decreases tokens@.len() - pos,
{
    let ghost ts = token_views(tokens@);
    if pos >= tokens.len() {
        return Err(ParseError::UnexpectedEnd);
    }
    proof {
        lemma_token_view(tokens@, pos as int);
        if pos + 1 < tokens@.len() {
            lemma_token_view(tokens@, pos as int + 1);
        }
    }
    let t = &tokens[pos];
    if t.kind != TokenKind::Ident {
        return Err(ParseError::UnexpectedToken { at: pos });
    }
    let name = copy_bytes(&t.text);
    proof {
        lemma_byte_lists_view_push(acc@, name);
    }
    if pos + 1 < tokens.len() && tokens[pos + 1].kind == TokenKind::Comma {
        let mut grown = acc;
        grown.push(name);
        parse_params(tokens, pos + 2, grown)
    } else if pos + 1 < tokens.len() && tokens[pos + 1].kind == TokenKind::RParen {
        let mut grown = acc;
        grown.push(name);
        Ok((grown, pos + 2))
    } else if pos + 1 >= tokens.len() {
        Err(ParseError::UnexpectedEnd)
    } else {
        Err(ParseError::UnexpectedToken { at: pos + 1 })
    }
}

impl FunctionSignature {
    /// Parse a declaration head from `pos`.
    pub fn parse(tokens: &Vec<Token>, pos: usize) -> (r: Result<
        (FunctionSignature, usize),
        ParseError,
    >)
        ensures
            sig_result_view(r) == parse_signature_at(token_views(tokens@), pos as int),
    {
        let ghost ts = token_views(tokens@);
        if pos >= tokens.len() {
            return Err(ParseError::UnexpectedEnd);
        }
        proof {
            lemma_token_view(tokens@, pos as int);
            if pos + 1 < tokens@.len() {
                lemma_token_view(tokens@, pos as int + 1);
            }
            if pos + 2 < tokens@.len() {
                lemma_token_view(tokens@, pos as int + 2);
            }
            assert(byte_lists_view(Seq::<Vec<u8>>::empty()) =~= Seq::<Seq<u8>>::empty());
        }
        let t = &tokens[pos];
        if t.kind != TokenKind::Ident {
            return Err(ParseError::UnexpectedToken { at: pos });
        }
        if !(pos + 1 < tokens.len() && tokens[pos + 1].kind == TokenKind::LParen) {
            if pos + 1 >= tokens.len() {
                return Err(ParseError::UnexpectedEnd);
            } else {
                return Err(ParseError::UnexpectedToken { at: pos + 1 });
            }
        }
        let identifier = copy_bytes(&t.text);
        if pos + 2 < tokens.len() && tokens[pos + 2].kind == TokenKind::RParen {
            let sig = FunctionSignature { identifier, parameters: Vec::new() };
            proof {
                assert(sig@.parameters =~= Seq::<Seq<u8>>::empty());
            }
            return Ok((sig, pos + 3));
        }
        match parse_params(tokens, pos + 2, Vec::new()) {
            Err(e) => Err(e),
            Ok((params, j)) => {
                if has_duplicate_exec(&params) {
                    return Err(ParseError::DuplicateParameter { at: pos });
                }
                let sig = FunctionSignature { identifier, parameters: params };
                Ok((sig, j))
            },
        }
    }
}

impl Function {
    /// Parse a whole declaration from `pos`.
    pub fn parse(tokens: &Vec<Token>, pos: usize) -> (r: Result<(Function, usize), ParseError>)
        ensures
            fn_result_view(r) == parse_function_at(token_views(tokens@), pos as int),
    {
        let ghost ts = token_views(tokens@);
        match FunctionSignature::parse(tokens, pos) {
            Err(e) => Err(e),
            Ok((signature, j)) => {
                proof {
                    if j < tokens@.len() {
                        lemma_token_view(tokens@, j as int);
                    }
                }
                if j < tokens.len() && tokens[j].kind == TokenKind::Equals {
                    match Expression::parse(tokens, j + 1) {
                        Err(e) => Err(e),
                        Ok((body, j2)) => Ok(
                            (Function { signature, body: FunctionBody::Expression(body) }, j2),
                        ),
                    }
                } else if j >= tokens.len() {
                    Err(ParseError::UnexpectedEnd)
                } else {
                    Err(ParseError::UnexpectedToken { at: j })
                }
            },
        }
    }
}

} // verus!
