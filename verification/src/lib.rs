//! A small compiler front end for an expression-oriented language: bytes are
//! decoded into Unicode scalar values, grouped into tokens, parsed by
//! recursive descent into an abstract syntax tree, and finally rendered as a
//! textual stack-machine module.

pub mod character;
pub mod lexer;
pub mod ast;
pub mod code_generator;
pub mod parser;
pub mod token;
pub mod operator;
pub mod error_logger;

use vstd::prelude::*;
use crate::code_generator::{module_wat, CodeGenerator};
use crate::error_logger::Error;
use crate::lexer::{init_state, spec_token, utf8_clean, utf8_scalars, DecodeFault};
use crate::parser::{initial_pstate, spec_program, Parser};
use crate::token::Token;

verus! {

/// What one translation run comes to.
#[derive(Debug)]
pub enum CompileOutcome {
    /// The emitted module lines, for a run with no diagnostics.
    Module(Vec<String>),
    /// The diagnostics of a rejected run; code generation was never
    /// reached and no output exists.
    Rejected(Vec<Error>),
    /// The input bytes are not well-formed UTF-8; the run aborted.
    Fault(DecodeFault),
}

/// Translates one source text into a textual stack-machine module: decode,
/// parse, and — only when the run recorded no diagnostic — generate code.
/// The presence of any diagnostic suppresses code generation entirely: a
/// run whose parse records any diagnostic hands exactly those diagnostics
/// back and never module text, and a diagnostic-free run yields exactly
/// the module text of the definitions the parse accepted.
pub fn compile(src: &Vec<u8>) -> (r: CompileOutcome)
    requires
        2 * src@.len() + 2 <= usize::MAX,
    ensures
        r is Fault <==> !utf8_clean(src@),
        r matches CompileOutcome::Rejected(errs) ==> errs@.len() > 0,
        ({
            let run = spec_program(initial_pstate(utf8_scalars(src@)));
            &&& utf8_clean(src@) ==> (r is Rejected <==> run.1.errors.len() > 0)
            &&& (r matches CompileOutcome::Module(lines) ==> run.1.errors.len() == 0
                && lines.deep_view() == module_wat(run.0))
            &&& (r matches CompileOutcome::Rejected(errs) ==> errs@.len() == run.1.errors.len()
                && (forall|i: int| 0 <= i < errs@.len() ==> errs@[i]@ == run.1.errors[i]))
        }),
        ({
            let first = spec_token(init_state(utf8_scalars(src@))).token;
            utf8_clean(src@) && first != Token::Define && first != Token::Eof ==> r is Rejected
        }),
{
    let mut parser = match Parser::new(src) {
        Ok(p) => p,
        Err(fault) => {
            return CompileOutcome::Fault(fault);
        },
    };
    parser.main_loop();
    proof {
        let run = spec_program(initial_pstate(utf8_scalars(src@)));
        parser.lemma_pstate_parts();
        assert(parser.asts_view() =~= run.0);
    }
    let (asts, logger) = parser.finish();
    let ghost asts_view = asts.deep_view();
    if logger.has_errors() {
        return CompileOutcome::Rejected(logger.into_errors());
    }
    let mut generator = CodeGenerator::new(asts);
    generator.run();
    let lines = generator.into_output();
    proof {
        assert(lines.deep_view() == module_wat(asts_view));
    }
    CompileOutcome::Module(lines)
}

} // verus!
