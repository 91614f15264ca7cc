use crate::chat::error::{ChatErrorView, Error};
use crate::code_input::{
    chars_of, code_input, slice, split, split_once, stands_at, text_of, trim, trimmed, CodeInput,
    CodeInputView,
};
use crate::context::{join, joined};
use crate::model::compiler::CompilerName;
use crate::model::compiler_options::{string_views, CompilerOptions};
use crate::model::compiler_spec::CompilerSpec;
use crate::model::language::LanguageName;
use vstd::prelude::*;

verus! {

/// What a message asks the bot to do.
#[derive(Debug)]
pub enum Request {
    /// Tell what the bot can do.
    Help,
    /// Show the settings in effect.
    ShowSetting,
    /// Switch the running of code posted without a command on or off.
    Auto(bool),
    /// Switch the saving of such runs on or off.
    AutoSave(bool),
    /// Let a compiler stand for a language.
    Remap { language: LanguageName, compiler: CompilerName },
    /// List the languages.
    ListLanguages,
    /// List the compilers of a language.
    List { language: LanguageName },
    /// Run code.
    Run {
        compiler_spec: Option<CompilerSpec>,
        options: Option<CompilerOptions>,
        input: CodeInput,
        save: bool,
    },
    /// Run code that was posted without a command, if that is switched on.
    Implicit { input: CodeInput },
    /// Nothing: the message neither calls the bot nor holds code.
    Nothing,
}

/// A request as plain values.
pub enum RequestView {
    Help,
    ShowSetting,
    Auto(bool),
    AutoSave(bool),
    Remap { language: Seq<char>, compiler: Seq<char> },
    ListLanguages,
    List { language: Seq<char> },
    Run {
        compiler_spec: Option<Seq<char>>,
        options: Option<Seq<Seq<char>>>,
        input: CodeInputView,
        save: bool,
    },
    Implicit { input: CodeInputView },
    Nothing,
}

impl View for Request {
    type V = RequestView;

    open spec fn view(&self) -> RequestView {
        match self {
            Request::Help => RequestView::Help,
            Request::ShowSetting => RequestView::ShowSetting,
            Request::Auto(set) => RequestView::Auto(*set),
            Request::AutoSave(set) => RequestView::AutoSave(*set),
            Request::Remap { language, compiler } => RequestView::Remap {
                language: language@,
                compiler: compiler@,
            },
            Request::ListLanguages => RequestView::ListLanguages,
            Request::List { language } => RequestView::List { language: language@ },
            Request::Run { compiler_spec, options, input, save } => RequestView::Run {
                compiler_spec: match compiler_spec {
                    Some(s) => Some(s@),
                    None => None,
                },
                options: match options {
                    Some(o) => Some(o@),
                    None => None,
                },
                input: input@,
                save: *save,
            },
            Request::Implicit { input } => RequestView::Implicit { input: input@ },
            Request::Nothing => RequestView::Nothing,
        }
    }
}

/// The words of a command line, as `shell_words::split` takes them apart:
/// the way a Unix shell would, with quotes and backslashes, and none where
/// a quote is not closed.
pub uninterp spec fn shell_split(line: Seq<char>) -> Option<Seq<Seq<char>>>;

/// Takes a command line apart into words: `shell_words::split`, without
/// its error, which is always that a quote is not closed.
#[verifier::external_body]
pub(crate) fn split_words(line: &str) -> (r: Option<Vec<String>>)
    ensures
        match r {
            Some(words) => shell_split(line@) == Some(string_views(words@)),
            None => shell_split(line@) is None,
        },
{
    shell_words::split(line).ok()
}

/// A line without the carriage return that it ends with, if it ends with
/// one.
pub open spec fn without_return(line: Seq<char>) -> Seq<char> {
    if line.len() > 0 && line.last() == '\r' {
        line.drop_last()
    } else {
        line
    }
}

/// The lines of a text. A line ends with a line feed, or with a carriage
/// return and a line feed; the last line need not end at all, and keeps a
/// carriage return that it ends with.
pub open spec fn lines_of(s: Seq<char>) -> Seq<Seq<char>>
    decreases s.len(),
{
    if s.len() == 0 {
        Seq::empty()
    } else {
        match split_once(s, seq!['\n']) {
            Some((head, tail)) => if tail.len() < s.len() {
                seq![without_return(head)] + lines_of(tail)
            } else {
                seq![s]
            },
            None => seq![s],
        }
    }
}

/// The lines of a text.
pub(crate) fn lines(chars: Vec<char>) -> (r: Vec<Vec<char>>)
    ensures
        r@.map_values(|l: Vec<char>| l@) == lines_of(chars@),
{
    let ghost given = chars@;
    let mut found: Vec<Vec<char>> = Vec::new();
    let mut rest = chars;
    let mut newline: Vec<char> = Vec::new();
    newline.push('\n');
    assert(newline@ =~= seq!['\n']);
    loop
        invariant_except_break
            lines_of(given) == found@.map_values(|l: Vec<char>| l@) + lines_of(rest@),
        invariant
            newline@ == seq!['\n'],
        ensures
            found@.map_values(|l: Vec<char>| l@) == lines_of(given),
        decreases rest.len(),
    {
        let ghost before = found@.map_values(|l: Vec<char>| l@);
        if rest.len() == 0 {
            assert(before + lines_of(rest@) =~= before);
            break;
        }
        match split(&rest, &newline) {
            Some((head, tail)) => {
                proof {
                    let i = choose|i: int|
                        crate::code_input::first_occurrence(rest@, newline@, i);
                    assert(tail@.len() == rest@.len() - i - 1);
                }
                let line = if head.len() > 0 && head[head.len() - 1] == '\r' {
                    let cut = slice(&head, 0, head.len() - 1);
                    assert(cut@ == head@.drop_last());
                    cut
                } else {
                    head
                };
                found.push(line);
                assert(found@.map_values(|l: Vec<char>| l@) =~= before.push(line@));
                assert(before + (seq![line@] + lines_of(tail@)) =~= before.push(line@) + lines_of(
                    tail@,
                ));
                rest = tail;
            },
            None => {
                found.push(rest);
                assert(found@.map_values(|l: Vec<char>| l@) =~= before + seq![rest@]);
                break;
            },
        }
    }
    found
}

/// The text behind `prefix`, where the text begins with it.
pub open spec fn stripped_prefix(s: Seq<char>, prefix: Seq<char>) -> Option<Seq<char>> {
    if s.len() >= prefix.len() && s.take(prefix.len() as int) == prefix {
        Some(s.skip(prefix.len() as int))
    } else {
        None
    }
}

pub(crate) fn strip_prefix(chars: &Vec<char>, prefix: &str) -> (r: Option<Vec<char>>)
    ensures
        match r {
            Some(rest) => stripped_prefix(chars@, prefix@) == Some(rest@),
            None => stripped_prefix(chars@, prefix@) is None,
        },
{
    let pattern = chars_of(prefix);
    if chars.len() < pattern.len() {
        return None;
    }
    assert(chars@.take(pattern.len() as int) == chars@.subrange(0, 0 + pattern.len()));
    if stands_at(chars, &pattern, 0) {
        let rest = slice(chars, pattern.len(), chars.len());
        assert(rest@ == chars@.skip(pattern.len() as int));
        Some(rest)
    } else {
        None
    }
}

/// The request that a command and its arguments make, with the code that
/// stands below the command line.
pub open spec fn command_request(
    command: Seq<char>,
    arguments: Seq<Seq<char>>,
    body: Seq<char>,
) -> Result<RequestView, ChatErrorView> {
    if command == "help"@ {
        Ok(RequestView::Help)
    } else if command == "show-setting"@ {
        Ok(RequestView::ShowSetting)
    } else if command == "auto"@ {
        Ok(RequestView::Auto(true))
    } else if command == "no-auto"@ {
        Ok(RequestView::Auto(false))
    } else if command == "auto-save"@ {
        Ok(RequestView::AutoSave(true))
    } else if command == "no-auto-save"@ {
        Ok(RequestView::AutoSave(false))
    } else if command == "remap"@ {
        if arguments.len() == 2 {
            Ok(RequestView::Remap { language: arguments[0], compiler: arguments[1] })
        } else {
            Err(ChatErrorView::InvalidNumberOfArguments(2))
        }
    } else if command == "list-languages"@ {
        Ok(RequestView::ListLanguages)
    } else if command == "list"@ {
        if arguments.len() == 1 {
            Ok(RequestView::List { language: arguments[0] })
        } else {
            Err(ChatErrorView::InvalidNumberOfArguments(1))
        }
    } else if command == "run"@ || command == "run-save"@ {
        match code_input(body) {
            Err(e) => Err(ChatErrorView::InvalidCodeInput(e)),
            Ok(input) => Ok(
                RequestView::Run {
                    compiler_spec: if arguments.len() > 0 {
                        Some(arguments[0])
                    } else {
                        None
                    },
                    options: if arguments.len() > 1 {
                        Some(arguments.skip(1))
                    } else {
                        None
                    },
                    input,
                    save: command == "run-save"@,
                },
            ),
        }
    } else {
        Err(ChatErrorView::UnknownCommand(command))
    }
}

/// What a message that calls the bot asks for: whether it speaks of the
/// whole community, and the request. `line` is what follows the call on the
/// first line, `body` what stands below it. The word `global` in front
/// makes the request one for the whole community.
pub open spec fn explicit_request(line: Seq<char>, body: Seq<char>) -> Result<
    (bool, RequestView),
    ChatErrorView,
> {
    let (is_global, line) = match stripped_prefix(trimmed(line), "global"@) {
        Some(rest) => (true, rest),
        None => (false, line),
    };
    match shell_split(line) {
        None => Err(ChatErrorView::MalformedArguments),
        Some(words) => if words.len() == 0 {
            Err(ChatErrorView::CommandIsMissing)
        } else {
            match command_request(words[0], words.skip(1), body) {
                Ok(request) => Ok((is_global, request)),
                Err(e) => Err(e),
            }
        },
    }
}

/// What a message asks for. A message whose first line begins with
/// `!runbot` calls the bot: the rest of the line is the command, and the
/// lines below it are the code. Any other message asks for its code to be
/// run, if it holds code, and for nothing if it holds none.
pub open spec fn message_request(content: Seq<char>) -> Result<(bool, RequestView), ChatErrorView> {
    let lines = lines_of(content);
    match stripped_prefix(lines[0], "!runbot"@) {
        Some(rest) => explicit_request(rest, joined(lines.skip(1), "\n"@)),
        None => match code_input(content) {
            Ok(input) => Ok((false, RequestView::Implicit { input })),
            Err(_) => Ok((false, RequestView::Nothing)),
        },
    }
}

/// Whether a word is the text.
pub(crate) fn is_word(word: &String, text: &str) -> (r: bool)
    ensures
        r == (word@ == text@),
{
    *word == String::from_str(text)
}

/// Reads the request that a command and its arguments make. The command is
/// the last of `reversed`, and the arguments stand before it, the last one
/// first.
fn read_command(command: String, arguments: Vec<String>, body: &str) -> (r: Result<
    Request,
    Error,
>)
    ensures
        match r {
            Ok(request) => command_request(command@, string_views(arguments@), body@) == Ok::<
                RequestView,
                ChatErrorView,
            >(request@),
            Err(e) => command_request(command@, string_views(arguments@), body@) == Err::<
                RequestView,
                ChatErrorView,
            >(e@),
        },
{
    if is_word(&command, "help") {
        Ok(Request::Help)
    } else if is_word(&command, "show-setting") {
        Ok(Request::ShowSetting)
    } else if is_word(&command, "auto") {
        Ok(Request::Auto(true))
    } else if is_word(&command, "no-auto") {
        Ok(Request::Auto(false))
    } else if is_word(&command, "auto-save") {
        Ok(Request::AutoSave(true))
    } else if is_word(&command, "no-auto-save") {
        Ok(Request::AutoSave(false))
    } else if is_word(&command, "remap") {
        if arguments.len() == 2 {
            Ok(
                Request::Remap {
                    language: LanguageName::from_string_ref(&arguments[0]),
                    compiler: CompilerName::from_string_ref(&arguments[1]),
                },
            )
        } else {
            Err(Error::InvalidNumberOfArguments(2))
        }
    } else if is_word(&command, "list-languages") {
        Ok(Request::ListLanguages)
    } else if is_word(&command, "list") {
        if arguments.len() == 1 {
            Ok(Request::List { language: LanguageName::from_string_ref(&arguments[0]) })
        } else {
            Err(Error::InvalidNumberOfArguments(1))
        }
    } else if is_word(&command, "run") || is_word(&command, "run-save") {
        let save = is_word(&command, "run-save");
        match CodeInput::parse(body) {
            Err(e) => Err(Error::InvalidCodeInput(e)),
            Ok(input) => {
                let compiler_spec = if arguments.len() > 0 {
                    Some(CompilerSpec::from_string(arguments[0].clone()))
                } else {
                    None
                };
                let options = if arguments.len() > 1 {
                    let mut rest: Vec<String> = Vec::new();
                    let mut i: usize = 1;
                    while i < arguments.len()
                        invariant
                            1 <= i <= arguments.len(),
                            rest.len() == i - 1,
                            forall|j: int|
                                0 <= j < rest.len() ==> (#[trigger] rest[j])@ == arguments[j + 1]@,
                        decreases arguments.len() - i,
                    {
                        rest.push(arguments[i].clone());
                        i = i + 1;
                    }
                    assert(string_views(rest@) =~= string_views(arguments@).skip(1));
                    Some(CompilerOptions::from_vec(rest))
                } else {
                    None
                };
                Ok(Request::Run { compiler_spec, options, input, save })
            },
        }
    } else {
        Err(Error::UnknownCommand(command))
    }
}

/// Reads what a message that calls the bot asks for.
fn read_explicit(line: &Vec<char>, body: &str) -> (r: Result<(bool, Request), Error>)
    ensures
        match r {
            Ok((is_global, request)) => explicit_request(line@, body@) == Ok::<
                (bool, RequestView),
                ChatErrorView,
            >((is_global, request@)),
            Err(e) => explicit_request(line@, body@) == Err::<(bool, RequestView), ChatErrorView>(
                e@,
            ),
        },
{
    let (is_global, line) = match strip_prefix(&trim(line), "global") {
        Some(rest) => (true, text_of(&rest)),
        None => (false, text_of(line)),
    };
    let words = match split_words(line.as_str()) {
        Some(words) => words,
        None => {
            return Err(Error::MalformedArguments);
        },
    };
    if words.len() == 0 {
        return Err(Error::CommandIsMissing);
    }
    let command = words[0].clone();
    let mut arguments: Vec<String> = Vec::new();
    let mut i: usize = 1;
    while i < words.len()
        invariant
            1 <= i <= words.len(),
            arguments.len() == i - 1,
            forall|j: int| 0 <= j < arguments.len() ==> (#[trigger] arguments[j])@ == words[j + 1]@,
        decreases words.len() - i,
    {
        arguments.push(words[i].clone());
        i = i + 1;
    }
    assert(string_views(arguments@) =~= string_views(words@).skip(1));
    match read_command(command, arguments, body) {
        Ok(request) => Ok((is_global, request)),
        Err(e) => Err(e),
    }
}

/// Whether a message calls the bot: whether its first line begins with
/// `!runbot`. The message must not be empty.
pub fn is_command(content: &str) -> (r: bool)
    requires
        content@.len() > 0,
    ensures
        r == (stripped_prefix(lines_of(content@)[0], "!runbot"@) is Some),
{
    let found = lines(chars_of(content));
    proof {
        reveal_with_fuel(lines_of, 2);
        assert(lines_of(content@).len() > 0);
        assert(found@.map_values(|l: Vec<char>| l@).len() == found@.len());
        assert(found@.map_values(|l: Vec<char>| l@)[0] == found[0]@);
    }
    strip_prefix(&found[0], "!runbot").is_some()
}

/// Reads what a message asks for: whether it speaks of the whole
/// community, and the request. The message must not be empty.
pub fn parse(content: &str) -> (r: Result<(bool, Request), Error>)
    requires
        content@.len() > 0,
    ensures
        match r {
            Ok((is_global, request)) => message_request(content@) == Ok::<
                (bool, RequestView),
                ChatErrorView,
            >((is_global, request@)),
            Err(e) => message_request(content@) == Err::<(bool, RequestView), ChatErrorView>(e@),
        },
{
    let found = lines(chars_of(content));
    proof {
        reveal_with_fuel(lines_of, 2);
        assert(lines_of(content@).len() > 0);
        assert(found@.map_values(|l: Vec<char>| l@).len() == found@.len());
    }
    let ghost all = found@.map_values(|l: Vec<char>| l@);
    assert(all[0] == found[0]@);
    match strip_prefix(&found[0], "!runbot") {
        Some(rest) => {
            let mut below: Vec<String> = Vec::new();
            let mut i: usize = 1;
            while i < found.len()
                invariant
                    1 <= i <= found.len(),
                    below.len() == i - 1,
                    forall|j: int| 0 <= j < below.len() ==> (#[trigger] below[j])@ == found[j + 1]@,
                decreases found.len() - i,
            {
                below.push(text_of(&found[i]));
                i = i + 1;
            }
            assert(string_views(below@) =~= all.skip(1));
            let body = join(&below, "\n");
            read_explicit(&rest, body.as_str())
        },
        None => match CodeInput::parse(content) {
            Ok(input) => Ok((false, Request::Implicit { input })),
            Err(_) => Ok((false, Request::Nothing)),
        },
    }
}

} // verus!
