use crate::context::{action_step_view, begin_run, Action, Context, Outcome};
use crate::error::Error;
use crate::model::code::Code;
use crate::model::compiler_options::CompilerOptions;
use crate::model::compiler_spec::CompilerSpec;
use crate::setting::{all_digits, value_of};
use crate::store::Step;
use crate::wandbox::compile::{text_view, Response};
use vstd::prelude::*;

verus! {

/// What a run came to.
#[derive(Debug)]
pub struct Output {
    pub status: Option<u32>,
    pub signal: Option<String>,
    pub compiler_message: Option<String>,
    pub program_message: Option<String>,
    pub url: Option<String>,
}

/// The number that a text spells, as `str::parse` reads a `u32`: a `+` or
/// nothing, then decimal digits, one at least, that write a number which a
/// `u32` holds. Any other text spells no number.
pub open spec fn status_number(text: Seq<char>) -> Option<u32> {
    let digits = if text.len() > 0 && text[0] == '+' {
        text.skip(1)
    } else {
        text
    };
    if all_digits(digits) && value_of(digits) <= u32::MAX {
        Some(value_of(digits) as u32)
    } else {
        None
    }
}

/// Reads a number: `str::parse::<u32>`, without its error. The contract is
/// what the documentation of the standard library says of it.
#[verifier::external_body]
pub(crate) fn parse_status(text: &String) -> (r: Option<u32>)
    ensures
        r == status_number(text@),
{
    text.parse::<u32>().ok()
}

/// Whether the exit status of a response, where it has one, spells a
/// number.
pub open spec fn status_reads(response: Response) -> bool {
    response.status matches Some(s) ==> status_number(s@) is Some
}

/// Whether `output` tells what `response` says of a run: the exit status as
/// a number, and the signal, the two messages and the link as they came.
pub open spec fn reports(output: Output, response: Response) -> bool {
    &&& output.status == match response.status {
        Some(s) => status_number(s@),
        None => None,
    }
    &&& text_view(output.signal) == text_view(response.signal)
    &&& text_view(output.compiler_message) == text_view(response.compiler_message)
    &&& text_view(output.program_message) == text_view(response.program_message)
    &&& text_view(output.url) == text_view(response.url)
}

/// Begins a run with the compiler that `compiler_spec` resolves to, or, where
/// none is given, with the one for the language that the code says it is
/// written in. The action ends in `Outcome::Compile`: the request for the
/// compile service, with the options one per line.
pub fn run<'a>(
    ctx: &'a Context,
    compiler_spec: Option<CompilerSpec>,
    code: Code,
    options: Option<CompilerOptions>,
    stdin: Option<String>,
    save: bool,
) -> (r: Step<Action<'a>, Result<Outcome<'a>, Error>>)
    ensures
        action_step_view(r) == begin_run(*ctx, compiler_spec, code, options, stdin, save),
{
    ctx.begin_run(compiler_spec, code, options, stdin, save)
}

/// Reads what the compile service said of the run. The exit status, where
/// there is one, must spell a number.
pub fn output(response: Response) -> (r: Output)
    requires
        status_reads(response),
    ensures
        reports(r, response),
{
    let status = match &response.status {
        Some(s) => parse_status(s),
        None => None,
    };
    Output {
        status,
        signal: response.signal,
        compiler_message: response.compiler_message,
        program_message: response.program_message,
        url: response.url,
    }
}

/// Reads what the compile service said of the run, unless the exit status
/// spells no number.
pub fn try_output(response: Response) -> (r: Option<Output>)
    ensures
        r is Some <==> status_reads(response),
        r matches Some(o) ==> reports(o, response),
{
    let reads = match &response.status {
        Some(s) => parse_status(s).is_some(),
        None => true,
    };
    if reads {
        Some(output(response))
    } else {
        None
    }
}

} // verus!
