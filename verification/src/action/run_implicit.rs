use crate::action::run::{parse_status, reports, status_reads};
use crate::context::{action_step_view, lift, Action, Context, Outcome, Plan};
use crate::error::Error;
use crate::model::code::Code;
use crate::setting::{start_read, Query, Setting};
use crate::store::Step;
use crate::wandbox::compile::Response;
use vstd::prelude::*;

verus! {

/// What became of code that was posted without a command.
#[derive(Debug)]
pub enum Output {
    /// It was not run: running such code is switched off.
    NoRun,
    /// It was run, and this is what the run came to.
    Run {
        status: Option<u32>,
        signal: Option<String>,
        compiler_message: Option<String>,
        program_message: Option<String>,
        url: Option<String>,
    },
}

/// Begins a run of code that was posted without a command. Where running
/// such code is switched off for the room, the action ends in
/// `Outcome::NoRun`. Else it reads whether the run is to be saved, resolves
/// the language that the code says it is written in, and ends in
/// `Outcome::Compile`; code that names no language fails.
pub fn run_implicit<'a>(ctx: &'a Context, code: Code, stdin: Option<String>) -> (r: Step<
    Action<'a>,
    Result<Outcome<'a>, Error>,
>)
    ensures
        action_step_view(r) == lift(
            start_read(ctx.spec_guild_id(), ctx.spec_channel_id(), Query::Auto),
            *ctx,
            Plan::ImplicitAuto { code, stdin },
        ),
{
    ctx.start(
        Setting::get_auto(ctx.guild_id(), ctx.channel_id()),
        Plan::ImplicitAuto { code, stdin },
    )
}

/// Reads what the compile service said of the run. The exit status, where
/// there is one, must spell a number.
pub fn output(response: Response) -> (r: Output)
    requires
        status_reads(response),
    ensures
        r matches Output::Run { status, signal, compiler_message, program_message, url }
            && reports(
            crate::action::run::Output { status, signal, compiler_message, program_message, url },
            response,
        ),
{
    let o = crate::action::run::output(response);
    Output::Run {
        status: o.status,
        signal: o.signal,
        compiler_message: o.compiler_message,
        program_message: o.program_message,
        url: o.url,
    }
}

/// Reads what the compile service said of the run, unless the exit status
/// spells no number.
pub fn try_output(response: Response) -> (r: Option<Output>)
    ensures
        r is Some <==> status_reads(response),
        r matches Some(Output::Run { status, signal, compiler_message, program_message, url })
            ==> reports(
            crate::action::run::Output { status, signal, compiler_message, program_message, url },
            response,
        ),
        !(r matches Some(Output::NoRun)),
{
    let reads = match &response.status {
        Some(s) => parse_status(s).is_some(),
        None => true,
    };
    if reads {
        Some(output(response))
    } else {
        None
    }
}

} // verus!
