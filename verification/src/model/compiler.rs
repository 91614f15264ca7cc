use crate::model::language::LanguageID;
use vstd::prelude::*;

verus! {

/// Identifies one compiler of the catalog.
#[derive(Debug, Clone, Copy, PartialEq, Eq, Hash, Structural)]
pub struct CompilerID(pub u64);

impl CompilerID {
    pub fn as_u64(self) -> (r: u64)
        ensures
            r == self.0,
    {
        self.0
    }

    pub fn from_u64(id: u64) -> (r: CompilerID)
        ensures
            r.0 == id,
    {
        CompilerID(id)
    }
}

/// The name of a compiler. Unlike a language's name it is taken letter for
/// letter: two names that differ in case are two names.
#[derive(Debug)]
pub struct CompilerName(String);

impl View for CompilerName {
    type V = Seq<char>;

    closed spec fn view(&self) -> Seq<char> {
        self.0@
    }
}

impl Clone for CompilerName {
    fn clone(&self) -> (r: CompilerName)
        ensures
            r@ == self@,
    {
        CompilerName(self.0.clone())
    }
}

impl PartialEq for CompilerName {
    fn eq(&self, other: &CompilerName) -> (r: bool) {
        self.0 == other.0
    }
}

impl Eq for CompilerName {

}

impl vstd::std_specs::cmp::PartialEqSpecImpl for CompilerName {
    open spec fn obeys_eq_spec() -> bool {
        true
    }

    open spec fn eq_spec(&self, other: &CompilerName) -> bool {
        self@ == other@
    }
}

impl CompilerName {
    pub fn as_string(&self) -> (r: &String)
        ensures
            r@ == self@,
    {
        &self.0
    }

    pub fn from_string(s: String) -> (r: CompilerName)
        ensures
            r@ == s@,
    {
        CompilerName(s)
    }

    /// The name that a borrowed text spells.
    pub fn from_string_ref(s: &String) -> (r: CompilerName)
        ensures
            r@ == s@,
    {
        CompilerName(s.clone())
    }
}

/// The version of a compiler, as the catalog words it.
#[derive(Debug)]
pub struct CompilerVersion(String);

impl View for CompilerVersion {
    type V = Seq<char>;

    closed spec fn view(&self) -> Seq<char> {
        self.0@
    }
}

impl Clone for CompilerVersion {
    fn clone(&self) -> (r: CompilerVersion)
        ensures
            r@ == self@,
    {
        CompilerVersion(self.0.clone())
    }
}

impl CompilerVersion {
    pub fn as_string(&self) -> (r: &String)
        ensures
            r@ == self@,
    {
        &self.0
    }

    pub fn from_string(s: String) -> (r: CompilerVersion)
        ensures
            r@ == s@,
    {
        CompilerVersion(s)
    }
}

/// What a compiler record holds, as plain values.
pub struct CompilerView {
    pub id: CompilerID,
    pub name: Seq<char>,
    pub version: Option<Seq<char>>,
    pub language_id: LanguageID,
    pub wandbox_name: Seq<char>,
}

/// One compiler of the catalog, which belongs to exactly one language.
#[derive(Debug)]
pub struct Compiler {
    id: CompilerID,
    name: CompilerName,
    version: Option<CompilerVersion>,
    language_id: LanguageID,
    wandbox_name: String,
}

impl View for Compiler {
    type V = CompilerView;

    closed spec fn view(&self) -> CompilerView {
        CompilerView {
            id: self.id,
            name: self.name@,
            version: match self.version {
                Some(v) => Some(v@),
                None => None,
            },
            language_id: self.language_id,
            wandbox_name: self.wandbox_name@,
        }
    }
}

impl Clone for Compiler {
    fn clone(&self) -> (r: Compiler)
        ensures
            r@ == self@,
    {
        Compiler {
            id: self.id,
            name: self.name.clone(),
            version: match &self.version {
                Some(v) => Some(v.clone()),
                None => None,
            },
            language_id: self.language_id,
            wandbox_name: self.wandbox_name.clone(),
        }
    }
}

impl Compiler {
    pub fn new(
        id: CompilerID,
        name: CompilerName,
        version: Option<CompilerVersion>,
        language_id: LanguageID,
        wandbox_name: String,
    ) -> (r: Compiler)
        ensures
            r@ == (CompilerView {
                id,
                name: name@,
                version: match version {
                    Some(v) => Some(v@),
                    None => None,
                },
                language_id,
                wandbox_name: wandbox_name@,
            }),
    {
        Compiler { id, name, version, language_id, wandbox_name }
    }

    pub fn id(&self) -> (r: CompilerID)
        ensures
            r == self@.id,
    {
        self.id
    }

    pub fn name(&self) -> (r: &CompilerName)
        ensures
            r@ == self@.name,
    {
        &self.name
    }

    pub fn version(&self) -> (r: Option<&CompilerVersion>)
        ensures
            match r {
                Some(v) => self@.version == Some(v@),
                None => self@.version is None,
            },
    {
        self.version.as_ref()
    }

    pub fn language_id(&self) -> (r: LanguageID)
        ensures
            r == self@.language_id,
    {
        self.language_id
    }

    /// The name by which the compile service knows this compiler.
    pub fn wandbox_name(&self) -> (r: &String)
        ensures
            r@ == self@.wandbox_name,
    {
        &self.wandbox_name
    }
}

} // verus!
