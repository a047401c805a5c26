use vstd::prelude::*;

use crate::error::GloxError;
use crate::interpreter::{Interpreter, agrees, eval};
use crate::parser::{Parser, expression};
use crate::scanner::{Scanner, errors_view, scan, scan_errors, tokens_view};
use crate::token::{Literal, Token};

verus! {

/// Whether a run's result is what the pipeline gives on the tokens `t`:
/// the parse error, or the value or runtime error of the parsed tree.
pub open spec fn run_result(t: Seq<Token>, r: Result<Literal, GloxError>) -> bool {
    match expression(t, 0) {
        Ok((e, _)) => agrees(r, eval(e)),
        Err((d, l)) => r matches Err(GloxError::UnexpectedToken(d2, l2)) && d2@ == d && l2 == l,
    }
}

/// The scan, parse and evaluate pipeline, with the flag a driver reads to
/// tell that the last run failed to parse.
pub struct Glox {
    had_error: bool,
    lexical_errors: Vec<GloxError>,
    interpreter: Interpreter,
}

impl Glox {
    pub closed spec fn spec_had_error(&self) -> bool {
        self.had_error
    }

    pub closed spec fn spec_lexical_errors(&self) -> Seq<GloxError> {
        self.lexical_errors@
    }

    pub fn new_for_prompt() -> (r: Glox)
        ensures
            !r.spec_had_error(),
            r.spec_lexical_errors().len() == 0,
    {
        Glox { had_error: false, lexical_errors: Vec::new(), interpreter: Interpreter::new() }
    }

    /// The lexical errors of the last run's source, in order. They do not
    /// stop a run: the tokens scanned around them are still parsed.
    pub fn lexical_errors(&self) -> (r: &Vec<GloxError>)
        ensures
            r@ == self.spec_lexical_errors(),
    {
        &self.lexical_errors
    }

    /// Whether the last run ended in a parse error.
    pub fn had_error(&self) -> (r: bool)
        ensures
            r == self.spec_had_error(),
    {
        self.had_error
    }

    /// Clears the parse-error flag, as an interactive session does after
    /// each line.
    pub fn reset_error(&mut self)
        ensures
            !final(self).spec_had_error(),
    {
        self.had_error = false;
    }

    /// Scans, parses and evaluates `source` once, and keeps the lexical
    /// errors of the scan. A parse error sets the flag; a value or a runtime
    /// error leaves it as it was.
    pub fn run(&mut self, source: String) -> (r: Result<Literal, GloxError>)
        requires
            source@.len() < usize::MAX,
        ensures
            exists|t: Seq<Token>| tokens_view(t) == scan(source@) && #[trigger] run_result(t, r),
            final(self).spec_had_error() == (old(self).spec_had_error() || r matches Err(
                GloxError::UnexpectedToken(_, _),
            )),
            errors_view(final(self).spec_lexical_errors()) == scan_errors(source@),
    {
        let mut scanner = Scanner::new(source);
        let tokens: Vec<Token> = scanner.scan_tokens();
        self.lexical_errors = scanner.take_errors();
        let ghost t = tokens@;
        let mut parser = Parser::new(tokens);
        let r = match parser.parse() {
            Ok(expr) => self.interpreter.interpret(&expr),
            Err(e) => {
                self.had_error = true;
                Err(e)
            },
        };
        assert(run_result(t, r));
        r
    }
}

} // verus!
