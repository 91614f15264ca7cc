//! The catalog: every language and compiler the bot knows, read-only once built.

use crate::model::compiler::{Compiler, CompilerID, CompilerName, CompilerView};
use crate::model::language::{
    lemma_named_as_ignores_case, same_ignoring_case, Language, LanguageID, LanguageName,
    LanguageView,
};
use vstd::prelude::*;

verus! {

/// Whether some language of `languages` has the id `id`.
pub open spec fn has_language(languages: Seq<Language>, id: LanguageID) -> bool {
    exists|i: int| 0 <= i < languages.len() && (#[trigger] languages[i]).spec_id() == id
}

/// Whether some compiler of `compilers` has the id `id`.
pub open spec fn has_compiler(compilers: Seq<Compiler>, id: CompilerID) -> bool {
    exists|i: int| 0 <= i < compilers.len() && (#[trigger] compilers[i])@.id == id
}

/// Whether some compiler of `compilers` has the id `id` and belongs to `language`.
pub open spec fn has_compiler_of(
    compilers: Seq<Compiler>,
    id: CompilerID,
    language: LanguageID,
) -> bool {
    exists|i: int|
        0 <= i < compilers.len() && (#[trigger] compilers[i])@.id == id
            && compilers[i]@.language_id == language
}

/// What makes two lists of records a catalog: no id is used twice, every
/// compiler belongs to a language that is there, and every language's default
/// compiler is there and belongs to that language.
pub open spec fn catalog_consistent(languages: Seq<Language>, compilers: Seq<Compiler>) -> bool {
    &&& forall|i: int, j: int|
        0 <= i < j < languages.len() ==> (#[trigger] languages[i]).spec_id() != (
        #[trigger] languages[j]).spec_id()
    &&& forall|i: int, j: int|
        0 <= i < j < compilers.len() ==> (#[trigger] compilers[i])@.id != (
        #[trigger] compilers[j])@.id
    &&& forall|i: int|
        0 <= i < compilers.len() ==> has_language(
            languages,
            (#[trigger] compilers[i])@.language_id,
        )
    &&& forall|i: int|
        0 <= i < languages.len() ==> default_in_catalog(#[trigger] languages[i], compilers)
}

/// Whether the default compiler of `language`, if it has one, is among
/// `compilers` and belongs to the language.
pub open spec fn default_in_catalog(language: Language, compilers: Seq<Compiler>) -> bool {
    match language.spec_default_compiler_id() {
        Some(c) => has_compiler_of(compilers, c, language.spec_id()),
        None => true,
    }
}

/// `i` is the place of the first language of `languages` that answers to `name`.
pub open spec fn first_language_named(languages: Seq<Language>, name: Seq<char>, i: int) -> bool {
    &&& 0 <= i < languages.len()
    &&& languages[i].spec_is_named_as(name)
    &&& forall|j: int| 0 <= j < i ==> !(#[trigger] languages[j]).spec_is_named_as(name)
}

/// `i` is the place of the first compiler of `compilers` whose name is `name`,
/// letter for letter.
pub open spec fn first_compiler_named(compilers: Seq<Compiler>, name: Seq<char>, i: int) -> bool {
    &&& 0 <= i < compilers.len()
    &&& compilers[i]@.name == name
    &&& forall|j: int| 0 <= j < i ==> (#[trigger] compilers[j])@.name != name
}

/// Picks the compilers that belong to the language `id`.
pub open spec fn belongs_to(id: LanguageID) -> spec_fn(Compiler) -> bool {
    |c: Compiler| c@.language_id == id
}

/// The languages and compilers that the bot knows. A table is consistent in
/// the sense of `catalog_consistent` from the moment it is built, and nothing
/// changes it afterwards.
#[derive(Debug)]
pub struct Table {
    compilers: Vec<Compiler>,
    languages: Vec<Language>,
}

/// The place of the language with the id `id`, if there is one.
fn language_position(languages: &Vec<Language>, id: LanguageID) -> (r: Option<usize>)
    ensures
        match r {
            Some(i) => i < languages.len() && languages[i as int].spec_id() == id && forall|j: int|
                0 <= j < i ==> (#[trigger] languages[j]).spec_id() != id,
            None => !has_language(languages@, id),
        },
{
    let mut i: usize = 0;
    while i < languages.len()
        invariant
            0 <= i <= languages.len(),
            forall|j: int| 0 <= j < i ==> (#[trigger] languages[j]).spec_id() != id,
        decreases languages.len() - i,
    {
        if languages[i].id() == id {
            return Some(i);
        }
        i = i + 1;
    }
    None
}

/// The place of the compiler with the id `id`, if there is one.
fn compiler_position(compilers: &Vec<Compiler>, id: CompilerID) -> (r: Option<usize>)
    ensures
        match r {
            Some(i) => i < compilers.len() && compilers[i as int]@.id == id && forall|j: int|
                0 <= j < i ==> (#[trigger] compilers[j])@.id != id,
            None => !has_compiler(compilers@, id),
        },
{
    let mut i: usize = 0;
    while i < compilers.len()
        invariant
            0 <= i <= compilers.len(),
            forall|j: int| 0 <= j < i ==> (#[trigger] compilers[j])@.id != id,
        decreases compilers.len() - i,
    {
        if compilers[i].id() == id {
            return Some(i);
        }
        i = i + 1;
    }
    None
}

/// Whether the two lists make a catalog.
fn check_consistent(languages: &Vec<Language>, compilers: &Vec<Compiler>) -> (r: bool)
    ensures
        r == catalog_consistent(languages@, compilers@),
{
    let mut k: usize = 0;
    while k < compilers.len()
        invariant
            0 <= k <= compilers.len(),
            forall|a: int, b: int|
                0 <= a < b < k ==> (#[trigger] compilers[a])@.id != (#[trigger] compilers[b])@.id,
            forall|a: int|
                0 <= a < k ==> has_language(languages@, (#[trigger] compilers[a])@.language_id),
        decreases compilers.len() - k,
    {
        let compiler = &compilers[k];
        match compiler_position(compilers, compiler.id()) {
            Some(first) => {
                if first != k {
                    assert(compilers[first as int]@.id == compilers[k as int]@.id);
                    return false;
                }
            },
            None => unreached(),
        }
        if language_position(languages, compiler.language_id()).is_none() {
            return false;
        }
        k = k + 1;
    }
    let mut i: usize = 0;
    while i < languages.len()
        invariant
            0 <= i <= languages.len(),
            forall|a: int, b: int|
                0 <= a < b < compilers.len() ==> (#[trigger] compilers[a])@.id != (
                #[trigger] compilers[b])@.id,
            forall|a: int, b: int|
                0 <= a < b < i ==> (#[trigger] languages[a]).spec_id() != (
                #[trigger] languages[b]).spec_id(),
            forall|a: int| 0 <= a < i ==> default_in_catalog(#[trigger] languages[a], compilers@),
        decreases languages.len() - i,
    {
        let language = &languages[i];
        match language_position(languages, language.id()) {
            Some(first) => {
                if first != i {
                    assert(languages[first as int].spec_id() == languages[i as int].spec_id());
                    return false;
                }
            },
            None => unreached(),
        }
        match language.default_compiler_id() {
            Some(c) => {
                match compiler_position(compilers, c) {
                    Some(k) => {
                        if compilers[k].language_id() != language.id() {
                            assert(!has_compiler_of(compilers@, c, language.spec_id())) by {
                                if has_compiler_of(compilers@, c, language.spec_id()) {
                                    let w = choose|w: int|
                                        0 <= w < compilers.len() && (#[trigger] compilers[w])@.id
                                            == c && compilers[w]@.language_id
                                            == language.spec_id();
                                    assert(compilers[k as int]@.id == compilers[w]@.id);
                                }
                            }
                            return false;
                        }
                    },
                    None => {
                        assert(!has_compiler_of(compilers@, c, language.spec_id()));
                        return false;
                    },
                }
            },
            None => {},
        }
        i = i + 1;
    }
    true
}

impl Table {
    #[verifier::type_invariant]
    spec fn inv(self) -> bool {
        catalog_consistent(self.languages@, self.compilers@)
    }

    /// The languages of the table, in the order they were given.
    pub closed spec fn spec_languages(&self) -> Seq<Language> {
        self.languages@
    }

    /// The compilers of the table, in the order they were given.
    pub closed spec fn spec_compilers(&self) -> Seq<Compiler> {
        self.compilers@
    }

    /// The compiler with the id `id`. It means something only where there is one.
    pub open spec fn spec_compiler(&self, id: CompilerID) -> Compiler {
        let i = choose|i: int|
            0 <= i < self.spec_compilers().len() && (#[trigger] self.spec_compilers()[i])@.id == id;
        self.spec_compilers()[i]
    }

    /// The language with the id `id`. It means something only where there is one.
    pub open spec fn spec_language(&self, id: LanguageID) -> Language {
        let i = choose|i: int|
            0 <= i < self.spec_languages().len() && (#[trigger] self.spec_languages()[i]).spec_id()
                == id;
        self.spec_languages()[i]
    }

    /// The first language that answers to `name`, ignoring case.
    pub open spec fn spec_find_language(&self, name: Seq<char>) -> Option<Language> {
        if exists|i: int| first_language_named(self.spec_languages(), name, i) {
            let i = choose|i: int| first_language_named(self.spec_languages(), name, i);
            Some(self.spec_languages()[i])
        } else {
            None
        }
    }

    /// The first compiler whose name is `name`, letter for letter.
    pub open spec fn spec_find_compiler(&self, name: Seq<char>) -> Option<Compiler> {
        if exists|i: int| first_compiler_named(self.spec_compilers(), name, i) {
            let i = choose|i: int| first_compiler_named(self.spec_compilers(), name, i);
            Some(self.spec_compilers()[i])
        } else {
            None
        }
    }

    /// A compiler that is found by a name has that name.
    pub proof fn lemma_found_compiler(self, name: Seq<char>)
        ensures
            self.spec_find_compiler(name) matches Some(c) ==> c@.name == name,
    {
    }

    /// A language that is found by a name answers to that name.
    pub proof fn lemma_found_language(self, name: Seq<char>)
        ensures
            self.spec_find_language(name) matches Some(l) ==> l.spec_is_named_as(name),
    {
    }

    /// Spellings of a name that differ only in the case of ASCII letters
    /// find the same language, or none.
    pub proof fn lemma_find_language_ignores_case(self, a: Seq<char>, b: Seq<char>)
        requires
            same_ignoring_case(a, b),
        ensures
            self.spec_find_language(a) == self.spec_find_language(b),
    {
        let languages = self.spec_languages();
        assert forall|i: int| first_language_named(languages, a, i) == first_language_named(
            languages,
            b,
            i,
        ) by {
            if 0 <= i < languages.len() {
                lemma_named_as_ignores_case(languages[i], a, b);
                assert forall|j: int| 0 <= j < i implies (#[trigger] languages[j]).spec_is_named_as(a)
                    == languages[j].spec_is_named_as(b) by {
                    lemma_named_as_ignores_case(languages[j], a, b);
                }
            }
        }
        if exists|i: int| first_language_named(languages, a, i) {
            let i = choose|i: int| first_language_named(languages, a, i);
            let j = choose|j: int| first_language_named(languages, b, j);
            assert(first_language_named(languages, b, i));
            assert(first_language_named(languages, a, j));
            assert(i == j) by {
                if i < j {
                    assert(!languages[i].spec_is_named_as(b));
                } else if j < i {
                    assert(!languages[j].spec_is_named_as(a));
                }
            }
        }
    }

    /// In a catalog, the language with the id of a language of the catalog
    /// is that language.
    pub proof fn lemma_language_by_id(self, i: int)
        requires
            catalog_consistent(self.spec_languages(), self.spec_compilers()),
            0 <= i < self.spec_languages().len(),
        ensures
            self.spec_language(self.spec_languages()[i].spec_id()) == self.spec_languages()[i],
    {
        let languages = self.spec_languages();
        let id = languages[i].spec_id();
        let w = choose|w: int| 0 <= w < languages.len() && (#[trigger] languages[w]).spec_id() == id;
        if w < i {
            assert(languages[w].spec_id() != languages[i].spec_id());
        } else if i < w {
            assert(languages[i].spec_id() != languages[w].spec_id());
        }
    }

    /// In a catalog, the compiler with the id of a compiler of the catalog
    /// is that compiler.
    pub proof fn lemma_compiler_by_id(self, i: int)
        requires
            catalog_consistent(self.spec_languages(), self.spec_compilers()),
            0 <= i < self.spec_compilers().len(),
        ensures
            self.spec_compiler(self.spec_compilers()[i]@.id) == self.spec_compilers()[i],
    {
        let compilers = self.spec_compilers();
        let id = compilers[i]@.id;
        let w = choose|w: int| 0 <= w < compilers.len() && (#[trigger] compilers[w])@.id == id;
        if w < i {
            assert(compilers[w]@.id != compilers[i]@.id);
        } else if i < w {
            assert(compilers[i]@.id != compilers[w]@.id);
        }
    }

    /// Builds the table of the given records, or none where they are no
    /// catalog: an id used twice, a compiler of a language that is missing, a
    /// default compiler that is missing or belongs to another language.
    pub fn new(languages: Vec<Language>, compilers: Vec<Compiler>) -> (r: Option<Table>)
        ensures
            r is Some <==> catalog_consistent(languages@, compilers@),
            match r {
                Some(t) => t.spec_languages() == languages@ && t.spec_compilers() == compilers@,
                None => true,
            },
    {
        if check_consistent(&languages, &compilers) {
            Some(Table { compilers, languages })
        } else {
            None
        }
    }

    /// Whether a compiler with the id `id` is in the table.
    pub fn contains_compiler(&self, id: CompilerID) -> (r: bool)
        ensures
            r == has_compiler(self.spec_compilers(), id),
    {
        compiler_position(&self.compilers, id).is_some()
    }

    /// Whether a language with the id `id` is in the table.
    pub fn contains_language(&self, id: LanguageID) -> (r: bool)
        ensures
            r == has_language(self.spec_languages(), id),
    {
        language_position(&self.languages, id).is_some()
    }

    /// The compiler with the id `id`, which must be in the table.
    pub fn get_compiler(&self, id: CompilerID) -> (r: &Compiler)
        requires
            has_compiler(self.spec_compilers(), id),
        ensures
            *r == self.spec_compiler(id),
            r@.id == id,
            has_language(self.spec_languages(), r@.language_id),
    {
        proof {
            use_type_invariant(self);
        }
        match compiler_position(&self.compilers, id) {
            Some(i) => {
                proof {
                    let w = choose|w: int|
                        0 <= w < self.spec_compilers().len() && (
                        #[trigger] self.spec_compilers()[w])@.id == id;
                    assert(w == i) by {
                        if w < i {
                            assert(self.compilers[w]@.id != self.compilers[i as int]@.id);
                        } else if i < w {
                            assert(self.compilers[i as int]@.id != self.compilers[w]@.id);
                        }
                    }
                }
                &self.compilers[i]
            },
            None => unreached(),
        }
    }

    /// The first compiler whose name is `name`, letter for letter.
    pub fn find_compiler(&self, name: &CompilerName) -> (r: Option<&Compiler>)
        ensures
            match r {
                Some(c) => self.spec_find_compiler(name@) == Some(*c) && c@.name == name@
                    && has_compiler(self.spec_compilers(), c@.id) && *c == self.spec_compiler(
                    c@.id,
                ) && has_language(self.spec_languages(), c@.language_id),
                None => self.spec_find_compiler(name@) is None,
            },
    {
        proof {
            use_type_invariant(self);
        }
        let mut i: usize = 0;
        while i < self.compilers.len()
            invariant
                0 <= i <= self.compilers.len(),
                catalog_consistent(self.languages@, self.compilers@),
                forall|j: int| 0 <= j < i ==> (#[trigger] self.compilers[j])@.name != name@,
            decreases self.compilers.len() - i,
        {
            if self.compilers[i].name() == name {
                proof {
                    assert(first_compiler_named(self.spec_compilers(), name@, i as int));
                    let w = choose|w: int| first_compiler_named(self.spec_compilers(), name@, w);
                    assert(w == i) by {
                        if w < i {
                            assert(self.compilers[w]@.name != name@);
                        } else if i < w {
                            assert(self.compilers[i as int]@.name != name@);
                        }
                    }
                    let id = self.compilers[i as int]@.id;
                    let v = choose|v: int|
                        0 <= v < self.spec_compilers().len() && (
                        #[trigger] self.spec_compilers()[v])@.id == id;
                    assert(v == i) by {
                        if v < i {
                            assert(self.compilers[v]@.id != self.compilers[i as int]@.id);
                        } else if i < v {
                            assert(self.compilers[i as int]@.id != self.compilers[v]@.id);
                        }
                    }
                }
                return Some(&self.compilers[i]);
            }
            i = i + 1;
        }
        None
    }

    /// The compilers that belong to the language `id`, in the table's order.
    pub fn list_compilers_with_language_id(&self, id: LanguageID) -> (r: Vec<&Compiler>)
        ensures
            r@.map_values(|c: &Compiler| *c) == self.spec_compilers().filter(belongs_to(id)),
    {
        let mut found: Vec<&Compiler> = Vec::new();
        let mut i: usize = 0;
        proof {
            reveal(Seq::filter);
        }
        while i < self.compilers.len()
            invariant
                0 <= i <= self.compilers.len(),
                found@.map_values(|c: &Compiler| *c) == self.compilers@.take(i as int).filter(
                    belongs_to(id),
                ),
            decreases self.compilers.len() - i,
        {
            let ghost before = found@.map_values(|c: &Compiler| *c);
            let ghost next = self.compilers@.take(i + 1);
            proof {
                assert(next == self.compilers@.take(i as int).push(self.compilers[i as int]));
                self.compilers@.take(i as int).lemma_filter_push(
                    self.compilers[i as int],
                    belongs_to(id),
                );
            }
            if self.compilers[i].language_id() == id {
                found.push(&self.compilers[i]);
                assert(found@.map_values(|c: &Compiler| *c) == before.push(
                    self.compilers[i as int],
                ));
            }
            i = i + 1;
        }
        assert(self.compilers@.take(i as int) == self.compilers@);
        found
    }

    /// The language with the id `id`, which must be in the table.
    pub fn get_language(&self, id: LanguageID) -> (r: &Language)
        requires
            has_language(self.spec_languages(), id),
        ensures
            *r == self.spec_language(id),
            r.spec_id() == id,
            default_in_catalog(*r, self.spec_compilers()),
    {
        proof {
            use_type_invariant(self);
        }
        match language_position(&self.languages, id) {
            Some(i) => {
                proof {
                    let w = choose|w: int|
                        0 <= w < self.spec_languages().len() && (
                        #[trigger] self.spec_languages()[w]).spec_id() == id;
                    assert(w == i) by {
                        if w < i {
                            assert(self.languages[w].spec_id() != self.languages[i as int].spec_id());
                        } else if i < w {
                            assert(self.languages[i as int].spec_id() != self.languages[w].spec_id());
                        }
                    }
                }
                &self.languages[i]
            },
            None => unreached(),
        }
    }

    /// The first language that answers to `name`, ignoring case.
    pub fn find_language(&self, name: &LanguageName) -> (r: Option<&Language>)
        ensures
            match r {
                Some(l) => self.spec_find_language(name@) == Some(*l) && l.spec_is_named_as(name@)
                    && has_language(self.spec_languages(), l.spec_id()) && *l
                    == self.spec_language(l.spec_id()) && default_in_catalog(
                    *l,
                    self.spec_compilers(),
                ),
                None => self.spec_find_language(name@) is None,
            },
    {
        proof {
            use_type_invariant(self);
        }
        let mut i: usize = 0;
        while i < self.languages.len()
            invariant
                0 <= i <= self.languages.len(),
                catalog_consistent(self.languages@, self.compilers@),
                forall|j: int| 0 <= j < i ==> !(#[trigger] self.languages[j]).spec_is_named_as(name@),
            decreases self.languages.len() - i,
        {
            if self.languages[i].is_named_as(name) {
                proof {
                    assert(first_language_named(self.spec_languages(), name@, i as int));
                    let w = choose|w: int| first_language_named(self.spec_languages(), name@, w);
                    assert(w == i) by {
                        if w < i {
                            assert(!self.languages[w].spec_is_named_as(name@));
                        } else if i < w {
                            assert(!self.languages[i as int].spec_is_named_as(name@));
                        }
                    }
                    let id = self.languages[i as int].spec_id();
                    let v = choose|v: int|
                        0 <= v < self.spec_languages().len() && (
                        #[trigger] self.spec_languages()[v]).spec_id() == id;
                    assert(v == i) by {
                        if v < i {
                            assert(self.languages[v].spec_id() != self.languages[i as int].spec_id());
                        } else if i < v {
                            assert(self.languages[i as int].spec_id() != self.languages[v].spec_id());
                        }
                    }
                }
                return Some(&self.languages[i]);
            }
            i = i + 1;
        }
        None
    }

    /// Every language of the table, in the table's order.
    pub fn list_languages(&self) -> (r: &Vec<Language>)
        ensures
            r@ == self.spec_languages(),
            catalog_consistent(self.spec_languages(), self.spec_compilers()),
    {
        proof {
            use_type_invariant(self);
        }
        &self.languages
    }
}

/// Records that hold the same as the records of a catalog make a catalog.
proof fn lemma_consistent_copies(
    languages: Seq<Language>,
    compilers: Seq<Compiler>,
    language_copies: Seq<Language>,
    compiler_copies: Seq<Compiler>,
)
    requires
        catalog_consistent(languages, compilers),
        language_copies.len() == languages.len(),
        compiler_copies.len() == compilers.len(),
        forall|i: int| 0 <= i < languages.len() ==> (#[trigger] language_copies[i])@ == languages[i]@,
        forall|i: int| 0 <= i < compilers.len() ==> (#[trigger] compiler_copies[i])@ == compilers[i]@,
    ensures
        catalog_consistent(language_copies, compiler_copies),
{
    assert forall|i: int, j: int| 0 <= i < j < language_copies.len() implies (
    #[trigger] language_copies[i]).spec_id() != (#[trigger] language_copies[j]).spec_id() by {
        assert(languages[i].spec_id() != languages[j].spec_id());
    }
    assert forall|i: int, j: int| 0 <= i < j < compiler_copies.len() implies (
    #[trigger] compiler_copies[i])@.id != (#[trigger] compiler_copies[j])@.id by {
        assert(compilers[i]@.id != compilers[j]@.id);
    }
    assert forall|i: int| 0 <= i < compiler_copies.len() implies has_language(
        language_copies,
        (#[trigger] compiler_copies[i])@.language_id,
    ) by {
        assert(has_language(languages, compilers[i]@.language_id));
        let w = choose|w: int|
            0 <= w < languages.len() && (#[trigger] languages[w]).spec_id()
                == compilers[i]@.language_id;
        assert(language_copies[w].spec_id() == compilers[i]@.language_id);
    }
    assert forall|i: int| 0 <= i < language_copies.len() implies default_in_catalog(
        #[trigger] language_copies[i],
        compiler_copies,
    ) by {
        assert(default_in_catalog(languages[i], compilers));
        if let Some(c) = languages[i].spec_default_compiler_id() {
            let w = choose|w: int|
                0 <= w < compilers.len() && (#[trigger] compilers[w])@.id == c
                    && compilers[w]@.language_id == languages[i].spec_id();
            assert(compiler_copies[w]@.id == c);
        }
    }
}

/// What the records of a list of languages hold.
pub open spec fn language_views(languages: Seq<Language>) -> Seq<LanguageView> {
    languages.map_values(|l: Language| l@)
}

/// What the records of a list of compilers hold.
pub open spec fn compiler_views(compilers: Seq<Compiler>) -> Seq<CompilerView> {
    compilers.map_values(|c: Compiler| c@)
}

impl Clone for Table {
    fn clone(&self) -> (r: Table)
        ensures
            language_views(r.spec_languages()) == language_views(self.spec_languages()),
            compiler_views(r.spec_compilers()) == compiler_views(self.spec_compilers()),
    {
        proof {
            use_type_invariant(self);
        }
        let mut languages: Vec<Language> = Vec::new();
        let mut i: usize = 0;
        while i < self.languages.len()
            invariant
                0 <= i <= self.languages.len(),
                languages.len() == i,
                forall|j: int| 0 <= j < i ==> (#[trigger] languages[j])@ == self.languages[j]@,
            decreases self.languages.len() - i,
        {
            languages.push(self.languages[i].clone());
            i = i + 1;
        }
        let mut compilers: Vec<Compiler> = Vec::new();
        let mut k: usize = 0;
        while k < self.compilers.len()
            invariant
                0 <= k <= self.compilers.len(),
                compilers.len() == k,
                forall|j: int| 0 <= j < k ==> (#[trigger] compilers[j])@ == self.compilers[j]@,
            decreases self.compilers.len() - k,
        {
            compilers.push(self.compilers[k].clone());
            k = k + 1;
        }
        proof {
            lemma_consistent_copies(self.languages@, self.compilers@, languages@, compilers@);
            assert(language_views(languages@) =~= language_views(self.languages@));
            assert(compiler_views(compilers@) =~= compiler_views(self.compilers@));
        }
        Table { compilers, languages }
    }
}

} // verus!
