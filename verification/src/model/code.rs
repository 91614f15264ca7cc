use crate::model::language::LanguageName;
use vstd::prelude::*;

verus! {

/// A piece of source text, with the language it says it is written in, if any.
#[derive(Debug)]
pub struct Code {
    language: Option<LanguageName>,
    text: String,
}

impl Code {
    pub closed spec fn spec_text(&self) -> Seq<char> {
        self.text@
    }

    pub closed spec fn spec_language(&self) -> Option<Seq<char>> {
        match self.language {
            Some(l) => Some(l@),
            None => None,
        }
    }

    pub fn with_language(text: String, language: LanguageName) -> (r: Code)
        ensures
            r.spec_text() == text@,
            r.spec_language() == Some(language@),
    {
        Code { text, language: Some(language) }
    }

    pub fn without_language(text: String) -> (r: Code)
        ensures
            r.spec_text() == text@,
            r.spec_language() is None,
    {
        Code { text, language: None }
    }

    pub fn text(&self) -> (r: &String)
        ensures
            r@ == self.spec_text(),
    {
        &self.text
    }

    pub fn language(&self) -> (r: Option<&LanguageName>)
        ensures
            match r {
                Some(l) => self.spec_language() == Some(l@),
                None => self.spec_language() is None,
            },
    {
        self.language.as_ref()
    }
}

} // verus!
