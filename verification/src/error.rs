//! What can go wrong in an operation of the library.

use crate::model::compiler::CompilerName;
use crate::model::compiler_spec::CompilerSpec;
use crate::model::language::LanguageName;
use vstd::prelude::*;

verus! {

/// Why an operation gave no result.
#[derive(Debug)]
pub enum Error {
    /// No language of the catalog answers to this name.
    UnknownLanguageName(LanguageName),
    /// No compiler of the catalog has this name.
    UnknownCompilerName(CompilerName),
    /// Neither a language nor a compiler of the catalog goes by this text.
    UnknownCompilerSpec(CompilerSpec),
    /// The language is known, but nobody has mapped it to a compiler and the
    /// catalog gives it no default.
    UnmappedLanguage(LanguageName),
    /// Nothing says which compiler to use.
    NoCompilerSpecified,
    /// The compiler does not belong to the language.
    RemapMismatch(CompilerName, LanguageName),
    /// The backend failed; the text is what it said.
    Database(String),
}

/// An error with its texts as sequences of characters.
pub enum ErrorView {
    UnknownLanguageName(Seq<char>),
    UnknownCompilerName(Seq<char>),
    UnknownCompilerSpec(Seq<char>),
    UnmappedLanguage(Seq<char>),
    NoCompilerSpecified,
    RemapMismatch(Seq<char>, Seq<char>),
    Database(Seq<char>),
}

impl View for Error {
    type V = ErrorView;

    open spec fn view(&self) -> ErrorView {
        match self {
            Error::UnknownLanguageName(n) => ErrorView::UnknownLanguageName(n@),
            Error::UnknownCompilerName(n) => ErrorView::UnknownCompilerName(n@),
            Error::UnknownCompilerSpec(s) => ErrorView::UnknownCompilerSpec(s@),
            Error::UnmappedLanguage(n) => ErrorView::UnmappedLanguage(n@),
            Error::NoCompilerSpecified => ErrorView::NoCompilerSpecified,
            Error::RemapMismatch(c, l) => ErrorView::RemapMismatch(c@, l@),
            Error::Database(why) => ErrorView::Database(why@),
        }
    }
}

impl ErrorView {
    /// The error in words.
    pub open spec fn message(self) -> Seq<char> {
        match self {
            ErrorView::UnknownLanguageName(n) => "unknown language name "@ + n,
            ErrorView::UnknownCompilerName(n) => "unknown compiler name "@ + n,
            ErrorView::UnknownCompilerSpec(s) => "unknown compiler spec "@ + s,
            ErrorView::UnmappedLanguage(n) => "no (default) compiler can be found for language "@
                + n,
            ErrorView::NoCompilerSpecified => "no compiler is specified, but is required"@,
            ErrorView::RemapMismatch(c, l) => c + " is not a compiler for "@ + l,
            ErrorView::Database(why) => "database error: "@ + why,
        }
    }
}

impl Error {
    /// The error in words.
    pub fn message(&self) -> (r: String)
        ensures
            r@ == self@.message(),
    {
        match self {
            Error::UnknownLanguageName(n) => String::from_str("unknown language name ").concat(
                n.as_string().as_str(),
            ),
            Error::UnknownCompilerName(n) => String::from_str("unknown compiler name ").concat(
                n.as_string().as_str(),
            ),
            Error::UnknownCompilerSpec(s) => String::from_str("unknown compiler spec ").concat(
                s.as_string().as_str(),
            ),
            Error::UnmappedLanguage(n) => String::from_str(
                "no (default) compiler can be found for language ",
            ).concat(n.as_string().as_str()),
            Error::NoCompilerSpecified => String::from_str(
                "no compiler is specified, but is required",
            ),
            Error::RemapMismatch(c, l) => c.as_string().clone().concat(
                " is not a compiler for ",
            ).concat(l.as_string().as_str()),
            Error::Database(why) => String::from_str("database error: ").concat(why.as_str()),
        }
    }
}

} // verus!
