use crate::model::compiler::CompilerName;
use crate::model::language::LanguageName;
use vstd::prelude::*;

verus! {

/// What a user wrote to say which compiler to use: the name of a language or
/// of a compiler. Which of the two it is only the catalog can tell.
#[derive(Debug)]
pub struct CompilerSpec(String);

impl View for CompilerSpec {
    type V = Seq<char>;

    closed spec fn view(&self) -> Seq<char> {
        self.0@
    }
}

impl Clone for CompilerSpec {
    fn clone(&self) -> (r: CompilerSpec)
        ensures
            r@ == self@,
    {
        CompilerSpec(self.0.clone())
    }
}

impl CompilerSpec {
    pub fn from_string(s: String) -> (r: CompilerSpec)
        ensures
            r@ == s@,
    {
        CompilerSpec(s)
    }

    pub fn as_string(&self) -> (r: &String)
        ensures
            r@ == self@,
    {
        &self.0
    }

    /// The text read as the name of a language.
    pub fn as_language_name(&self) -> (r: LanguageName)
        ensures
            r@ == self@,
    {
        LanguageName::from_string_ref(&self.0)
    }

    /// The text read as the name of a compiler.
    pub fn as_compiler_name(&self) -> (r: CompilerName)
        ensures
            r@ == self@,
    {
        CompilerName::from_string_ref(&self.0)
    }
}

} // verus!
