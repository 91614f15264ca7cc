use vstd::prelude::*;

verus! {

/// A text that may be missing, as a sequence of characters.
pub open spec fn text_view(text: Option<String>) -> Option<Seq<char>> {
    match text {
        Some(t) => Some(t@),
        None => None,
    }
}

/// One more source file of a request.
#[derive(Debug)]
pub struct Code {
    pub file: String,
    pub code: String,
}

/// What the compile service is asked to compile and run.
#[derive(Debug)]
pub struct Request {
    pub compiler: String,
    pub code: String,
    pub codes: Vec<Code>,
    pub options: Option<String>,
    pub stdin: Option<String>,
    pub compiler_option_raw: Option<String>,
    pub runtime_option_raw: Option<String>,
    pub save: bool,
}

/// A request as plain values.
pub struct RequestView {
    pub compiler: Seq<char>,
    pub code: Seq<char>,
    pub codes: Seq<(Seq<char>, Seq<char>)>,
    pub options: Option<Seq<char>>,
    pub stdin: Option<Seq<char>>,
    pub compiler_option_raw: Option<Seq<char>>,
    pub runtime_option_raw: Option<Seq<char>>,
    pub save: bool,
}

impl View for Request {
    type V = RequestView;

    open spec fn view(&self) -> RequestView {
        RequestView {
            compiler: self.compiler@,
            code: self.code@,
            codes: self.codes@.map_values(|c: Code| (c.file@, c.code@)),
            options: text_view(self.options),
            stdin: text_view(self.stdin),
            compiler_option_raw: text_view(self.compiler_option_raw),
            runtime_option_raw: text_view(self.runtime_option_raw),
            save: self.save,
        }
    }
}

/// What the compile service says of a run.
#[derive(Debug)]
pub struct Response {
    pub status: Option<String>,
    pub signal: Option<String>,
    pub compiler_output: Option<String>,
    pub compiler_error: Option<String>,
    pub compiler_message: Option<String>,
    pub program_output: Option<String>,
    pub program_error: Option<String>,
    pub program_message: Option<String>,
    pub permlink: Option<String>,
    pub url: Option<String>,
}

} // verus!
