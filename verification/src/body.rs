//! The program body: function declarations, one per line, compiled into
//! an evaluation context that extends the root environment. Compilation
//! never partially succeeds: the first grammar violation fails the whole
//! program.

use vstd::prelude::*;

use crate::context::{root_context_model, Context, ContextModel};
use crate::expression::{lemma_token_view, refuse_at};
use crate::function::{parse_function_at, Function};
use crate::token::{lex, lex_of, token_views, ParseError, Token, TokenKind, TokenModel};

verus! {

/// A compiled program body: its function table wrapped in a context.
#[derive(Debug)]
pub struct Body {
    context: Context,
}

impl View for Body {
    type V = ContextModel;

    closed spec fn view(&self) -> ContextModel {
        self.context@
    }
}

/// The declarations from `i` on, folded into the context: each ends its
/// line, and a repeated name replaces the earlier function.
pub open spec fn body_decls_at(ts: Seq<TokenModel>, i: int, ctx: ContextModel) -> Result<
    ContextModel,
    ParseError,
>
    decreases ts.len() - i,
{
    if !(0 <= i < ts.len()) {
        Ok(ctx)
    } else if ts[i].kind == TokenKind::Newline {
        body_decls_at(ts, i + 1, ctx)
    } else {
        match parse_function_at(ts, i) {
            Err(e) => Err(e),
            Ok((f, j)) => if i < j <= ts.len() {
                if j < ts.len() && ts[j].kind != TokenKind::Newline {
                    Err(refuse_at(j))
                } else {
                    body_decls_at(
                        ts,
                        j,
                        ContextModel {
                            values: ctx.values,
                            functions: ctx.functions.insert(f.signature.identifier, f),
                        },
                    )
                }
            } else {
                Err(refuse_at(i))
            },
        }
    }
}

/// What compiling body source yields: the root environment extended with
/// every declaration, or the first failure.
pub open spec fn spec_compile(s: Seq<u8>) -> Result<ContextModel, ParseError> {
    match lex_of(s) {
        Err(p) => Err(ParseError::BadByte { at: p as usize }),
        Ok(ts) => body_decls_at(ts, 0, root_context_model()),
    }
}

/// Read declarations from `pos` into the context; mirrors
/// `body_decls_at`.
pub(crate) fn parse_declarations(tokens: &Vec<Token>, pos: usize, context: Context) -> (r: Result<
    Context,
    ParseError,
>)
    ensures
        match r {
            Ok(c) => body_decls_at(token_views(tokens@), pos as int, context@) == Ok::<
                ContextModel,
                ParseError,
            >(c@),
            Err(e) => body_decls_at(token_views(tokens@), pos as int, context@) == Err::<
                ContextModel,
                ParseError,
            >(e),
        },
{
    let ghost ts = token_views(tokens@);
    let mut ctx = context;
    let mut i = pos;
    #[verifier::loop_isolation(false)]
    loop
        invariant
            pos <= i,
            body_decls_at(ts, pos as int, context@) == body_decls_at(ts, i as int, ctx@),
        decreases tokens@.len() - i,
    {
        proof {
            if i < tokens@.len() {
                lemma_token_view(tokens@, i as int);
            }
        }
        if i >= tokens.len() {
            return Ok(ctx);
        }
        if tokens[i].kind == TokenKind::Newline {
            i = i + 1;
        } else {
            match Function::parse(tokens, i) {
                Err(e) => {
                    return Err(e);
                },
                Ok((f, j)) => {
                    if !(i < j && j <= tokens.len()) {
                        return Err(ParseError::UnexpectedToken { at: i });
                    }
                    proof {
                        if j < tokens@.len() {
                            lemma_token_view(tokens@, j as int);
                        }
                    }
                    if j < tokens.len() && tokens[j].kind != TokenKind::Newline {
                        return Err(ParseError::UnexpectedToken { at: j });
                    }
                    ctx.set_function(f);
                    i = j;
                },
            }
        }
    }
}

impl Body {
    /// Compile body source: every declaration on its own line, collected
    /// over the root environment.
    pub fn parse(input: &[u8]) -> (r: Result<Body, ParseError>)
        ensures
            match r {
                Ok(b) => spec_compile(input@) == Ok::<ContextModel, ParseError>(b@),
                Err(e) => spec_compile(input@) == Err::<ContextModel, ParseError>(e),
            },
    {
        let tokens = match lex(input) {
            Err(e) => {
                return Err(e);
            },
            Ok(ts) => ts,
        };
        match parse_declarations(&tokens, 0, Context::default()) {
            Err(e) => Err(e),
            Ok(context) => Ok(Body { context }),
        }
    }

    /// A body over an already-compiled context.
    pub(crate) fn from_context(context: Context) -> (r: Body)
        ensures
            r@ == context@,
    {
        Body { context }
    }

    /// The compiled context.
    pub fn context(&self) -> (r: &Context)
        ensures
            r@ == self@,
    {
        &self.context
    }
}

/// Compilation is deterministic: any two results of compiling one source
/// are the same, structurally identical tables included.
pub proof fn lemma_compile_deterministic(
    s: Seq<u8>,
    r1: Result<ContextModel, ParseError>,
    r2: Result<ContextModel, ParseError>,
)
    requires
        r1 == spec_compile(s),
        r2 == spec_compile(s),
    ensures
        r1 == r2,
{
}

} // verus!
