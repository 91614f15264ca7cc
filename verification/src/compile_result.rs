//! What a run came to, whichever way it was started.

use crate::action::run;
use crate::action::run_implicit;
use crate::wandbox::compile::text_view;
use vstd::prelude::*;

verus! {

/// A borrowed text that may be missing, as a sequence of characters.
pub open spec fn borrowed_text(text: Option<&String>) -> Option<Seq<char>> {
    match text {
        Some(t) => Some(t@),
        None => None,
    }
}

/// The parts of the result of a run.
pub trait CompileResult {
    spec fn spec_compiler_message(&self) -> Option<Seq<char>>;

    spec fn spec_program_message(&self) -> Option<Seq<char>>;

    spec fn spec_status(&self) -> Option<u32>;

    spec fn spec_signal(&self) -> Option<Seq<char>>;

    spec fn spec_url(&self) -> Option<Seq<char>>;

    /// What the compiler said.
    fn compiler_message(&self) -> (r: Option<&String>)
        ensures
            borrowed_text(r) == self.spec_compiler_message(),
    ;

    /// What the program printed.
    fn program_message(&self) -> (r: Option<&String>)
        ensures
            borrowed_text(r) == self.spec_program_message(),
    ;

    /// The exit status of the program.
    fn status(&self) -> (r: Option<u32>)
        ensures
            r == self.spec_status(),
    ;

    /// The signal that ended the program.
    fn signal(&self) -> (r: Option<&String>)
        ensures
            borrowed_text(r) == self.spec_signal(),
    ;

    /// Where the run can be looked at.
    fn url(&self) -> (r: Option<&String>)
        ensures
            borrowed_text(r) == self.spec_url(),
    ;
}

impl CompileResult for run_implicit::Output {
    open spec fn spec_compiler_message(&self) -> Option<Seq<char>> {
        match self {
            run_implicit::Output::NoRun => None,
            run_implicit::Output::Run { compiler_message, .. } => text_view(*compiler_message),
        }
    }

    open spec fn spec_program_message(&self) -> Option<Seq<char>> {
        match self {
            run_implicit::Output::NoRun => None,
            run_implicit::Output::Run { program_message, .. } => text_view(*program_message),
        }
    }

    open spec fn spec_status(&self) -> Option<u32> {
        match self {
            run_implicit::Output::NoRun => None,
            run_implicit::Output::Run { status, .. } => *status,
        }
    }

    open spec fn spec_signal(&self) -> Option<Seq<char>> {
        match self {
            run_implicit::Output::NoRun => None,
            run_implicit::Output::Run { signal, .. } => text_view(*signal),
        }
    }

    open spec fn spec_url(&self) -> Option<Seq<char>> {
        match self {
            run_implicit::Output::NoRun => None,
            run_implicit::Output::Run { url, .. } => text_view(*url),
        }
    }

    fn compiler_message(&self) -> (r: Option<&String>) {
        match self {
            run_implicit::Output::NoRun => None,
            run_implicit::Output::Run { compiler_message, .. } => compiler_message.as_ref(),
        }
    }

    fn program_message(&self) -> (r: Option<&String>) {
        match self {
            run_implicit::Output::NoRun => None,
            run_implicit::Output::Run { program_message, .. } => program_message.as_ref(),
        }
    }

    fn status(&self) -> (r: Option<u32>) {
        match self {
            run_implicit::Output::NoRun => None,
            run_implicit::Output::Run { status, .. } => *status,
        }
    }

    fn signal(&self) -> (r: Option<&String>) {
        match self {
            run_implicit::Output::NoRun => None,
            run_implicit::Output::Run { signal, .. } => signal.as_ref(),
        }
    }

    fn url(&self) -> (r: Option<&String>) {
        match self {
            run_implicit::Output::NoRun => None,
            run_implicit::Output::Run { url, .. } => url.as_ref(),
        }
    }
}

impl CompileResult for run::Output {
    open spec fn spec_compiler_message(&self) -> Option<Seq<char>> {
        text_view(self.compiler_message)
    }

    open spec fn spec_program_message(&self) -> Option<Seq<char>> {
        text_view(self.program_message)
    }

    open spec fn spec_status(&self) -> Option<u32> {
        self.status
    }

    open spec fn spec_signal(&self) -> Option<Seq<char>> {
        text_view(self.signal)
    }

    open spec fn spec_url(&self) -> Option<Seq<char>> {
        text_view(self.url)
    }

    fn compiler_message(&self) -> (r: Option<&String>) {
        self.compiler_message.as_ref()
    }

    fn program_message(&self) -> (r: Option<&String>) {
        self.program_message.as_ref()
    }

    fn status(&self) -> (r: Option<u32>) {
        self.status
    }

    fn signal(&self) -> (r: Option<&String>) {
        self.signal.as_ref()
    }

    fn url(&self) -> (r: Option<&String>) {
        self.url.as_ref()
    }
}

} // verus!
