//! The compiler as a whole: from an expression, a term or a text to
//! assembly text.
use vstd::prelude::*;
use crate::ast::{Expr, ExprModel};
use crate::builder::{build, parse_expr};
use crate::codegen::{generate, lowering};
use crate::env::Environment;
use crate::error::{CompileError, ErrorModel};
use crate::reader::{parsed_text, read_term, SyntaxError, SyntaxErrorModel};
use crate::render::{code_text, program_text, render, render_program};
use crate::term::{Term, TermModel};

verus! {

/// The offset of the first slot of a program.
pub const FIRST_SLOT: i32 = 8;

/// The assembly text of the instructions for `e`.
pub open spec fn compiled_expr(e: ExprModel, env: Map<Seq<char>, i32>, offset: i32) -> Result<
    Seq<char>,
    ErrorModel,
> {
    match lowering(e, env, offset) {
        Err(x) => Err(x),
        Ok(code) => Ok(code_text(code)),
    }
}

/// The program for a term: the term is built, its code generated with no
/// name bound and the first slot free, and the program's text put around it.
pub open spec fn compiled_term(t: TermModel) -> Result<Seq<char>, ErrorModel> {
    match build(t) {
        Err(x) => Err(x),
        Ok(e) => match compiled_expr(e, Map::empty(), FIRST_SLOT) {
            Err(x) => Err(x),
            Ok(body) => Ok(program_text(body)),
        },
    }
}

/// A failure to compile a text.
#[derive(Debug, PartialEq, Eq)]
pub enum SourceError {
    /// The text is not a term.
    Syntax(SyntaxError),
    /// The term is not a program.
    Invalid(CompileError),
}

/// The mathematical value of a [`SourceError`].
pub ghost enum SourceErrorModel {
    Syntax(SyntaxErrorModel),
    Invalid(ErrorModel),
}

impl View for SourceError {
    type V = SourceErrorModel;

    open spec fn view(&self) -> SourceErrorModel {
        match self {
            SourceError::Syntax(e) => SourceErrorModel::Syntax(e@),
            SourceError::Invalid(e) => SourceErrorModel::Invalid(e@),
        }
    }
}

/// The program for what the reader made of a text.
pub open spec fn compiled_reading(reading: Result<TermModel, SyntaxErrorModel>) -> Result<
    Seq<char>,
    SourceErrorModel,
> {
    match reading {
        Err(e) => Err(SourceErrorModel::Syntax(e)),
        Ok(t) => match compiled_term(t) {
            Err(x) => Err(SourceErrorModel::Invalid(x)),
            Ok(text) => Ok(text),
        },
    }
}

/// Compiles `e` to assembly text: the instructions that [`generate`] gives,
/// rendered in order.
pub fn compile_expr(e: &Expr, env: &Environment, stack_offset: i32) -> (r: Result<
    String,
    CompileError,
>)
    ensures
        match r {
            Ok(text) => compiled_expr(e@, env@, stack_offset) == Ok::<Seq<char>, ErrorModel>(
                text@,
            ),
            Err(x) => compiled_expr(e@, env@, stack_offset) == Err::<Seq<char>, ErrorModel>(x@),
        },
{
    match generate(e, env, stack_offset) {
        Err(x) => Err(x),
        Ok(code) => Ok(render(&code)),
    }
}

/// Compiles a term to a whole program.
pub fn compile_term(term: &Term) -> (r: Result<String, CompileError>)
    ensures
        match r {
            Ok(text) => compiled_term(term@) == Ok::<Seq<char>, ErrorModel>(text@),
            Err(x) => compiled_term(term@) == Err::<Seq<char>, ErrorModel>(x@),
        },
{
    let expr = match parse_expr(term) {
        Err(x) => {
            return Err(x);
        },
        Ok(expr) => expr,
    };
    let env = Environment::new();
    match compile_expr(&expr, &env, FIRST_SLOT) {
        Err(x) => Err(x),
        Ok(body) => Ok(render_program(body.as_str())),
    }
}

/// Compiles a text to a whole program: the text is read as one term, and the
/// term compiled.
pub fn compile_source(text: &str) -> (r: Result<String, SourceError>)
    ensures
        match r {
            Ok(program) => compiled_reading(parsed_text(text@)) == Ok::<
                Seq<char>,
                SourceErrorModel,
            >(program@),
            Err(e) => compiled_reading(parsed_text(text@)) == Err::<Seq<char>, SourceErrorModel>(
                e@,
            ),
        },
{
    match read_term(text) {
        Err(e) => Err(SourceError::Syntax(e)),
        Ok(term) => match compile_term(&term) {
            Err(x) => Err(SourceError::Invalid(x)),
            Ok(program) => Ok(program),
        },
    }
}

} // verus!
