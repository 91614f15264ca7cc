use crate::code_input::ParseCodeInputError;
use crate::error::ErrorView;
use crate::setting::{decimal, decimal_text};
use vstd::prelude::*;

verus! {

/// Why a message was not carried out.
#[derive(Debug)]
pub enum Error {
    /// The bot's own rules stood against it.
    Runbot(crate::error::Error),
    /// The message gives no code that can be run.
    InvalidCodeInput(ParseCodeInputError),
    /// The command line does not close a quote that it opens.
    MalformedArguments,
    /// The command takes that many arguments, and was given more or fewer.
    InvalidNumberOfArguments(usize),
    /// There is no such command.
    UnknownCommand(String),
    /// The message calls the bot and gives it no command.
    CommandIsMissing,
}

/// An error of the chat layer with its texts as sequences of characters.
pub enum ChatErrorView {
    Runbot(ErrorView),
    InvalidCodeInput(ParseCodeInputError),
    MalformedArguments,
    InvalidNumberOfArguments(usize),
    UnknownCommand(Seq<char>),
    CommandIsMissing,
}

impl View for Error {
    type V = ChatErrorView;

    open spec fn view(&self) -> ChatErrorView {
        match self {
            Error::Runbot(e) => ChatErrorView::Runbot(e@),
            Error::InvalidCodeInput(e) => ChatErrorView::InvalidCodeInput(*e),
            Error::MalformedArguments => ChatErrorView::MalformedArguments,
            Error::InvalidNumberOfArguments(n) => ChatErrorView::InvalidNumberOfArguments(*n),
            Error::UnknownCommand(c) => ChatErrorView::UnknownCommand(c@),
            Error::CommandIsMissing => ChatErrorView::CommandIsMissing,
        }
    }
}

impl ChatErrorView {
    /// The error in plain words, for the log.
    pub open spec fn message(self) -> Seq<char> {
        match self {
            ChatErrorView::Runbot(e) => e.message(),
            ChatErrorView::InvalidCodeInput(e) => "unable to parse code input: "@
                + e.spec_message(),
            ChatErrorView::MalformedArguments => "malformed arguments: missing closing quote"@,
            ChatErrorView::InvalidNumberOfArguments(_) => "invalid number of arguments"@,
            ChatErrorView::UnknownCommand(c) => "unknown command: "@ + c,
            ChatErrorView::CommandIsMissing => "command is missing"@,
        }
    }

    /// The error as the bot tells it to the user.
    pub open spec fn reply(self) -> Seq<char> {
        match self {
            ChatErrorView::Runbot(ErrorView::UnknownLanguageName(name)) => "`"@ + name
                + "` ？うーん..."@,
            ChatErrorView::Runbot(ErrorView::UnknownCompilerName(name)) => "`"@ + name
                + "` っ て 何 ？ 笑"@,
            ChatErrorView::Runbot(ErrorView::UnknownCompilerSpec(name)) => "`"@ + name
                + "` とはなんですか？普通、`"@ + name + "` とはならないとおもうのですが..."@,
            ChatErrorView::Runbot(ErrorView::UnmappedLanguage(name)) => "`"@ + name
                + "` に対応するコンパイラが決まっていない"@,
            ChatErrorView::Runbot(ErrorView::NoCompilerSpecified) => "どのコンパイラを使えばいいかわかんないよ〜"@,
            ChatErrorView::Runbot(ErrorView::RemapMismatch(c, l)) => "や、`"@ + l + "` は `"@ + c
                + "` でコンパイルできないよ"@,
            ChatErrorView::InvalidCodeInput(_) => "コードの入力がおかしいよ"@,
            ChatErrorView::MalformedArguments => "ちょっと、いたずらしないでください"@,
            ChatErrorView::InvalidNumberOfArguments(n) => decimal(n as nat) + "個の引数が必要だよ"@,
            ChatErrorView::UnknownCommand(c) => "`"@ + c + "`、完全に理解した"@,
            ChatErrorView::CommandIsMissing => "？"@,
            _ => "ごめん"@,
        }
    }
}

impl Error {
    /// The error in plain words, for the log.
    pub fn message(&self) -> (r: String)
        ensures
            r@ == self@.message(),
    {
        match self {
            Error::Runbot(e) => e.message(),
            Error::InvalidCodeInput(e) => String::from_str("unable to parse code input: ").concat(
                e.message(),
            ),
            Error::MalformedArguments => String::from_str(
                "malformed arguments: missing closing quote",
            ),
            Error::InvalidNumberOfArguments(_) => String::from_str("invalid number of arguments"),
            Error::UnknownCommand(c) => String::from_str("unknown command: ").concat(c.as_str()),
            Error::CommandIsMissing => String::from_str("command is missing"),
        }
    }

    /// The error as the bot tells it to the user.
    pub fn reply(&self) -> (r: String)
        ensures
            r@ == self@.reply(),
    {
        match self {
            Error::Runbot(crate::error::Error::UnknownLanguageName(name)) => String::from_str(
                "`",
            ).concat(name.as_string().as_str()).concat("` ？うーん..."),
            Error::Runbot(crate::error::Error::UnknownCompilerName(name)) => String::from_str(
                "`",
            ).concat(name.as_string().as_str()).concat("` っ て 何 ？ 笑"),
            Error::Runbot(crate::error::Error::UnknownCompilerSpec(name)) => String::from_str(
                "`",
            ).concat(name.as_string().as_str()).concat("` とはなんですか？普通、`").concat(
                name.as_string().as_str(),
            ).concat("` とはならないとおもうのですが..."),
            Error::Runbot(crate::error::Error::UnmappedLanguage(name)) => String::from_str(
                "`",
            ).concat(name.as_string().as_str()).concat("` に対応するコンパイラが決まっていない"),
            Error::Runbot(crate::error::Error::NoCompilerSpecified) => String::from_str(
                "どのコンパイラを使えばいいかわかんないよ〜",
            ),
            Error::Runbot(crate::error::Error::RemapMismatch(c, l)) => String::from_str(
                "や、`",
            ).concat(l.as_string().as_str()).concat("` は `").concat(
                c.as_string().as_str(),
            ).concat("` でコンパイルできないよ"),
            Error::InvalidCodeInput(_) => String::from_str("コードの入力がおかしいよ"),
            Error::MalformedArguments => String::from_str("ちょっと、いたずらしないでください"),
            Error::InvalidNumberOfArguments(n) => {
                let count: u64 = *n as u64;
                decimal_text(count).concat("個の引数が必要だよ")
            },
            Error::UnknownCommand(c) => String::from_str("`").concat(c.as_str()).concat(
                "`、完全に理解した",
            ),
            Error::CommandIsMissing => String::from_str("？"),
            _ => String::from_str("ごめん"),
        }
    }
}

} // verus!
