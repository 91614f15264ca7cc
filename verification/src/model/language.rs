use crate::model::compiler::CompilerID;
use std::str::Chars;
use vstd::prelude::*;
use vstd::std_specs::iter::IteratorSpec;

verus! {

broadcast use vstd::string::group_string_axioms;

/// Identifies one language of the catalog.
#[derive(Debug, Clone, Copy, PartialEq, Eq, Hash, Structural)]
pub struct LanguageID(pub u64);

impl LanguageID {
    pub fn as_u64(&self) -> (r: u64)
        ensures
            r == self.0,
    {
        self.0
    }

    pub fn from_u64(id: u64) -> (r: LanguageID)
        ensures
            r.0 == id,
    {
        LanguageID(id)
    }
}

/// A character with the upper-case ASCII letters mapped to lower case.
pub open spec fn fold_ascii(c: char) -> char {
    if 'A' <= c && c <= 'Z' {
        ((c as u8) + 32) as char
    } else {
        c
    }
}

/// Two texts that differ at most in the case of their ASCII letters.
pub open spec fn same_ignoring_case(a: Seq<char>, b: Seq<char>) -> bool {
    &&& a.len() == b.len()
    &&& forall|i: int| 0 <= i < a.len() ==> fold_ascii(#[trigger] a[i]) == fold_ascii(b[i])
}

fn fold(c: char) -> (r: char)
    ensures
        r == fold_ascii(c),
{
    if 'A' <= c && c <= 'Z' {
        ((c as u8) + 32) as char
    } else {
        c
    }
}

/// Compares two texts character by character, ignoring the case of ASCII letters.
pub fn eq_ignoring_case(a: &str, b: &str) -> (r: bool)
    ensures
        r == same_ignoring_case(a@, b@),
{
    let mut left: Chars = a.chars();
    let mut right: Chars = b.chars();
    let ghost mut seen: int = 0;
    loop
        invariant
            0 <= seen <= a@.len(),
            seen <= b@.len(),
            left.remaining() == a@.skip(seen),
            right.remaining() == b@.skip(seen),
            forall|i: int| 0 <= i < seen ==> fold_ascii(#[trigger] a@[i]) == fold_ascii(b@[i]),
        decreases a@.len() - seen,
    {
        let x = left.next();
        let y = right.next();
        match (x, y) {
            (None, None) => {
                return true;
            },
            (Some(p), Some(q)) => {
                if fold(p) != fold(q) {
                    assert(fold_ascii(a@[seen]) != fold_ascii(b@[seen]));
                    return false;
                }
                proof {
                    assert(a@.skip(seen).drop_first() == a@.skip(seen + 1));
                    assert(b@.skip(seen).drop_first() == b@.skip(seen + 1));
                    seen = seen + 1;
                }
            },
            _ => {
                return false;
            },
        }
    }
}

/// The name of a language. Two names are the same name when they differ only
/// in the case of their ASCII letters.
#[derive(Debug)]
pub struct LanguageName(String);

impl View for LanguageName {
    type V = Seq<char>;

    closed spec fn view(&self) -> Seq<char> {
        self.0@
    }
}

impl Clone for LanguageName {
    fn clone(&self) -> (r: LanguageName)
        ensures
            r@ == self@,
    {
        LanguageName(self.0.clone())
    }
}

impl PartialEq for LanguageName {
    fn eq(&self, other: &LanguageName) -> (r: bool) {
        eq_ignoring_case(self.0.as_str(), other.0.as_str())
    }
}

impl Eq for LanguageName {

}

impl vstd::std_specs::cmp::PartialEqSpecImpl for LanguageName {
    open spec fn obeys_eq_spec() -> bool {
        true
    }

    open spec fn eq_spec(&self, other: &LanguageName) -> bool {
        same_ignoring_case(self@, other@)
    }
}

impl LanguageName {
    pub fn as_string(&self) -> (r: &String)
        ensures
            r@ == self@,
    {
        &self.0
    }

    pub fn from_string(s: String) -> (r: LanguageName)
        ensures
            r@ == s@,
    {
        LanguageName(s)
    }

    /// The name that a borrowed text spells.
    pub fn from_string_ref(s: &String) -> (r: LanguageName)
        ensures
            r@ == s@,
    {
        LanguageName(s.clone())
    }

}

/// Ignoring case relates every text to itself.
pub proof fn lemma_same_ignoring_case_reflexive(a: Seq<char>)
    ensures
        same_ignoring_case(a, a),
{
}

/// Ignoring case relates two texts in both directions or in neither.
pub proof fn lemma_same_ignoring_case_symmetric(a: Seq<char>, b: Seq<char>)
    ensures
        same_ignoring_case(a, b) == same_ignoring_case(b, a),
{
}

/// Two texts that each match a third match one another.
pub proof fn lemma_same_ignoring_case_transitive(a: Seq<char>, b: Seq<char>, c: Seq<char>)
    requires
        same_ignoring_case(a, b),
        same_ignoring_case(b, c),
    ensures
        same_ignoring_case(a, c),
{
    assert forall|i: int| 0 <= i < a.len() implies fold_ascii(#[trigger] a[i]) == fold_ascii(
        c[i],
    ) by {
        assert(fold_ascii(a[i]) == fold_ascii(b[i]));
        assert(fold_ascii(b[i]) == fold_ascii(c[i]));
    }
}

/// Whether one of `names` is `name` up to the case of ASCII letters.
pub open spec fn names_contain(names: Seq<Seq<char>>, name: Seq<char>) -> bool {
    exists|i: int| 0 <= i < names.len() && same_ignoring_case(#[trigger] names[i], name)
}

/// The aliases that remain of `given` once every entry that repeats the
/// canonical name or an earlier entry is dropped.
pub open spec fn unique_aliases(name: Seq<char>, given: Seq<Seq<char>>) -> Seq<Seq<char>>
    decreases given.len(),
{
    if given.len() == 0 {
        Seq::empty()
    } else {
        let earlier = unique_aliases(name, given.drop_last());
        if same_ignoring_case(given.last(), name) || names_contain(earlier, given.last()) {
            earlier
        } else {
            earlier.push(given.last())
        }
    }
}

/// No entry of `names` matches `name`, and no two entries match one another.
pub open spec fn aliases_distinct(name: Seq<char>, names: Seq<Seq<char>>) -> bool {
    &&& forall|i: int| 0 <= i < names.len() ==> !same_ignoring_case(#[trigger] names[i], name)
    &&& forall|i: int, j: int|
        0 <= i < j < names.len() ==> !same_ignoring_case(#[trigger] names[i], #[trigger] names[j])
}

/// What `unique_aliases` keeps is distinct, and names exactly what was given.
pub proof fn lemma_unique_aliases(name: Seq<char>, given: Seq<Seq<char>>)
    ensures
        aliases_distinct(name, unique_aliases(name, given)),
        forall|x: Seq<char>|
            same_ignoring_case(x, name) || names_contain(unique_aliases(name, given), x)
                <==> same_ignoring_case(x, name) || names_contain(given, x),
    decreases given.len(),
{
    let kept = unique_aliases(name, given);
    if given.len() > 0 {
        let front = given.drop_last();
        let earlier = unique_aliases(name, front);
        let last = given.last();
        lemma_unique_aliases(name, front);
        assert forall|x: Seq<char>|
            same_ignoring_case(x, name) || names_contain(kept, x) <==> same_ignoring_case(x, name)
                || names_contain(given, x) by {
            if names_contain(kept, x) {
                let i = choose|i: int| 0 <= i < kept.len() && same_ignoring_case(kept[i], x);
                if i < earlier.len() {
                    assert(kept[i] == earlier[i]);
                    assert(names_contain(earlier, x));
                    if !same_ignoring_case(x, name) {
                        let j = choose|j: int|
                            0 <= j < front.len() && same_ignoring_case(front[j], x);
                        assert(given[j] == front[j]);
                    }
                } else {
                    assert(kept[i] == last);
                    assert(given[given.len() - 1] == last);
                }
            }
            if names_contain(given, x) && !same_ignoring_case(x, name) {
                let j = choose|j: int| 0 <= j < given.len() && same_ignoring_case(given[j], x);
                if j < front.len() {
                    assert(front[j] == given[j]);
                    assert(names_contain(front, x));
                    let i = choose|i: int|
                        0 <= i < earlier.len() && same_ignoring_case(earlier[i], x);
                    assert(kept[i] == earlier[i]);
                } else {
                    assert(given[j] == last);
                    if same_ignoring_case(last, name) {
                        lemma_same_ignoring_case_symmetric(last, x);
                        lemma_same_ignoring_case_transitive(x, last, name);
                    } else if names_contain(earlier, last) {
                        let i = choose|i: int|
                            0 <= i < earlier.len() && same_ignoring_case(earlier[i], last);
                        lemma_same_ignoring_case_transitive(earlier[i], last, x);
                        assert(kept[i] == earlier[i]);
                    } else {
                        assert(kept[kept.len() - 1] == last);
                    }
                }
            }
        }
        assert forall|i: int, j: int| 0 <= i < j < kept.len() implies !same_ignoring_case(
            #[trigger] kept[i],
            #[trigger] kept[j],
        ) by {
            if j < earlier.len() {
                assert(kept[i] == earlier[i] && kept[j] == earlier[j]);
            } else {
                assert(kept[i] == earlier[i]);
                assert(kept[j] == last);
            }
        }
    }
}

/// One language of the catalog: its canonical name, the other names it goes
/// by, and the compiler that runs it when nothing else is arranged.
#[derive(Debug)]
pub struct Language {
    id: LanguageID,
    name: LanguageName,
    aliases: Vec<LanguageName>,
    default_compiler_id: Option<CompilerID>,
}

/// What a language record holds, as plain values.
pub struct LanguageView {
    pub id: LanguageID,
    pub name: Seq<char>,
    pub aliases: Seq<Seq<char>>,
    pub default_compiler_id: Option<CompilerID>,
}

impl View for Language {
    type V = LanguageView;

    open spec fn view(&self) -> LanguageView {
        LanguageView {
            id: self.spec_id(),
            name: self.spec_name(),
            aliases: self.spec_aliases(),
            default_compiler_id: self.spec_default_compiler_id(),
        }
    }
}

/// The texts that a list of names spells.
pub open spec fn name_views(names: Seq<LanguageName>) -> Seq<Seq<char>> {
    names.map_values(|n: LanguageName| n@)
}

impl Language {
    #[verifier::type_invariant]
    spec fn inv(self) -> bool {
        aliases_distinct(self.name@, name_views(self.aliases@))
    }

    pub closed spec fn spec_id(&self) -> LanguageID {
        self.id
    }

    pub closed spec fn spec_name(&self) -> Seq<char> {
        self.name@
    }

    pub closed spec fn spec_aliases(&self) -> Seq<Seq<char>> {
        name_views(self.aliases@)
    }

    pub closed spec fn spec_default_compiler_id(&self) -> Option<CompilerID> {
        self.default_compiler_id
    }

    /// Whether `name` is the canonical name or one of the aliases, ignoring case.
    pub open spec fn spec_is_named_as(&self, name: Seq<char>) -> bool {
        same_ignoring_case(self.spec_name(), name) || names_contain(self.spec_aliases(), name)
    }

    /// Builds a language. Aliases that repeat the canonical name or an
    /// earlier alias are left out, so that the aliases form a set.
    pub fn new(
        id: LanguageID,
        name: LanguageName,
        aliases: Vec<LanguageName>,
        default_compiler_id: Option<CompilerID>,
    ) -> (r: Language)
        ensures
            r.spec_id() == id,
            r.spec_name() == name@,
            r.spec_aliases() == unique_aliases(name@, name_views(aliases@)),
            r.spec_default_compiler_id() == default_compiler_id,
    {
        let mut kept: Vec<LanguageName> = Vec::new();
        let mut i: usize = 0;
        while i < aliases.len()
            invariant
                0 <= i <= aliases.len(),
                name_views(kept@) == unique_aliases(name@, name_views(aliases@).take(i as int)),
            decreases aliases.len() - i,
        {
            let candidate = &aliases[i];
            let ghost given = name_views(aliases@).take(i + 1);
            proof {
                assert(given.drop_last() == name_views(aliases@).take(i as int));
                assert(given.last() == candidate@);
            }
            if !(candidate == &name) && !contains_name(&kept, candidate) {
                kept.push(candidate.clone());
                assert(name_views(kept@) == unique_aliases(name@, given));
            }
            i = i + 1;
        }
        proof {
            assert(name_views(aliases@).take(i as int) == name_views(aliases@));
            lemma_unique_aliases(name@, name_views(aliases@));
        }
        Language { id, name, aliases: kept, default_compiler_id }
    }

    pub fn id(&self) -> (r: LanguageID)
        ensures
            r == self.spec_id(),
    {
        self.id
    }

    pub fn name(&self) -> (r: &LanguageName)
        ensures
            r@ == self.spec_name(),
    {
        &self.name
    }

    /// The other names of the language: none of them is the canonical name,
    /// and no two of them are the same name.
    pub fn aliases(&self) -> (r: &Vec<LanguageName>)
        ensures
            name_views(r@) == self.spec_aliases(),
            aliases_distinct(self.spec_name(), self.spec_aliases()),
    {
        proof {
            use_type_invariant(self);
        }
        &self.aliases
    }

    pub fn default_compiler_id(&self) -> (r: Option<CompilerID>)
        ensures
            r == self.spec_default_compiler_id(),
    {
        self.default_compiler_id
    }

    pub fn is_named_as(&self, name: &LanguageName) -> (r: bool)
        ensures
            r == self.spec_is_named_as(name@),
    {
        &self.name == name || contains_name(&self.aliases, name)
    }
}

impl Clone for Language {
    fn clone(&self) -> (r: Language)
        ensures
            r@ == self@,
    {
        proof {
            use_type_invariant(self);
        }
        let mut aliases: Vec<LanguageName> = Vec::new();
        let mut i: usize = 0;
        while i < self.aliases.len()
            invariant
                0 <= i <= self.aliases.len(),
                aliases.len() == i,
                forall|j: int| 0 <= j < i ==> (#[trigger] aliases[j])@ == self.aliases[j]@,
            decreases self.aliases.len() - i,
        {
            aliases.push(self.aliases[i].clone());
            i = i + 1;
        }
        assert(name_views(aliases@) =~= name_views(self.aliases@));
        Language {
            id: self.id,
            name: self.name.clone(),
            aliases,
            default_compiler_id: self.default_compiler_id,
        }
    }
}

/// Whether one of `names` is `name`, ignoring case.
fn contains_name(names: &Vec<LanguageName>, name: &LanguageName) -> (r: bool)
    ensures
        r == names_contain(name_views(names@), name@),
{
    let mut i: usize = 0;
    while i < names.len()
        invariant
            0 <= i <= names.len(),
            forall|j: int| 0 <= j < i ==> !same_ignoring_case(#[trigger] name_views(names@)[j], name@),
        decreases names.len() - i,
    {
        if &names[i] == name {
            assert(same_ignoring_case(name_views(names@)[i as int], name@));
            return true;
        }
        i = i + 1;
    }
    false
}

/// A language answers to a name exactly when it answers to every spelling of
/// that name that differs only in the case of ASCII letters.
pub proof fn lemma_named_as_ignores_case(language: Language, a: Seq<char>, b: Seq<char>)
    requires
        same_ignoring_case(a, b),
    ensures
        language.spec_is_named_as(a) == language.spec_is_named_as(b),
{
    lemma_same_ignoring_case_symmetric(a, b);
    if language.spec_is_named_as(a) {
        lemma_named_as_carries(language, a, b);
    }
    if language.spec_is_named_as(b) {
        lemma_named_as_carries(language, b, a);
    }
}

proof fn lemma_named_as_carries(language: Language, a: Seq<char>, b: Seq<char>)
    requires
        same_ignoring_case(a, b),
        language.spec_is_named_as(a),
    ensures
        language.spec_is_named_as(b),
{
    if same_ignoring_case(language.spec_name(), a) {
        lemma_same_ignoring_case_transitive(language.spec_name(), a, b);
    } else {
        let names = language.spec_aliases();
        let i = choose|i: int| 0 <= i < names.len() && same_ignoring_case(names[i], a);
        lemma_same_ignoring_case_transitive(names[i], a, b);
    }
}

} // verus!
