//! A whole source file: the metadata header followed by the program
//! body. `parse` compiles it; `eval` runs the entry point at a time
//! value.

use vstd::prelude::*;

use crate::body::{body_decls_at, parse_declarations, Body};
use crate::context::{root_context_model, Context, ContextModel};
use crate::eval::{entry_fuel, eval_output, eval_result_view, spec_eval_output, EvalError};
use crate::header::{header_decls_at, Header, HeaderValueModel};
use crate::token::{lex, lex_of, ParseError};

verus! {

/// A parsed source file: its header and its compiled body.
#[derive(Debug)]
pub struct Musath {
    header: Header,
    body: Body,
}

/// The mathematical image of a parsed file.
pub struct MusathModel {
    pub header: Map<Seq<u8>, HeaderValueModel>,
    pub body: ContextModel,
}

impl View for Musath {
    type V = MusathModel;

    closed spec fn view(&self) -> MusathModel {
        MusathModel { header: self.header@, body: self.body@ }
    }
}

/// What parsing a whole file yields: the header's metadata and the
/// compiled function table, or the first failure; never a partial
/// result.
pub open spec fn spec_parse_file(s: Seq<u8>) -> Result<MusathModel, ParseError> {
    match lex_of(s) {
        Err(p) => Err(ParseError::BadByte { at: p as usize }),
        Ok(ts) => match header_decls_at(ts, 0, Map::empty()) {
            Err(e) => Err(e),
            Ok((h, i)) => match body_decls_at(ts, i, root_context_model()) {
                Err(e) => Err(e),
                Ok(ctx) => Ok(MusathModel { header: h, body: ctx }),
            },
        },
    }
}

impl Musath {
    /// Parse a whole source file.
    pub fn parse(input: &[u8]) -> (r: Result<Musath, ParseError>)
        ensures
            match r {
                Ok(m) => spec_parse_file(input@) == Ok::<MusathModel, ParseError>(m@),
                Err(e) => spec_parse_file(input@) == Err::<MusathModel, ParseError>(e),
            },
    {
        let tokens = match lex(input) {
            Err(e) => {
                return Err(e);
            },
            Ok(ts) => ts,
        };
        let (header, i) = match Header::parse(&tokens, 0) {
            Err(e) => {
                return Err(e);
            },
            Ok(p) => p,
        };
        match parse_declarations(&tokens, i, Context::default()) {
            Err(e) => Err(e),
            Ok(context) => Ok(Musath { header, body: Body::from_context(context) }),
        }
    }

    /// The metadata header.
    pub fn header(&self) -> (r: &Header)
        ensures
            r@ == self@.header,
    {
        &self.header
    }

    /// The compiled body.
    pub fn body(&self) -> (r: &Body)
        ensures
            r@ == self@.body,
    {
        &self.body
    }

    /// The signal's sample at time value `t`: the function named
    /// `output` with its parameter bound to `t`.
    pub fn eval(&self, t: u64) -> (r: Result<u64, EvalError>)
        ensures
            eval_result_view(r) == spec_eval_output(self@.body, t, entry_fuel()),
    {
        eval_output(self.body.context(), t)
    }
}

/// Parsing a file is deterministic: one source, one result, down to
/// structurally identical trees.
pub proof fn lemma_parse_file_deterministic(
    s: Seq<u8>,
    r1: Result<MusathModel, ParseError>,
    r2: Result<MusathModel, ParseError>,
)
    requires
        r1 == spec_parse_file(s),
        r2 == spec_parse_file(s),
    ensures
        r1 == r2,
{
}

} // verus!
