//! The catalog as it is written down in a configuration file, and how a
//! table is made of it.

use crate::model::compiler::{Compiler, CompilerID, CompilerName, CompilerVersion, CompilerView};
use crate::model::compiler_options::{reverse, string_views};
use crate::model::language::{
    name_views, unique_aliases, Language, LanguageID, LanguageName, LanguageView,
};
use crate::table::{
    catalog_consistent, compiler_views, default_in_catalog, has_compiler_of, has_language,
    language_views, Table,
};
use crate::wandbox::compile::text_view;
use vstd::prelude::*;

verus! {

/// The catalog as the configuration file gives it: languages by name.
#[derive(Debug)]
pub struct ConfigFile {
    pub languages: Vec<(String, LanguageData)>,
}

/// One language of the configuration file, with its compilers by name.
#[derive(Debug)]
pub struct LanguageData {
    pub aliases: Vec<String>,
    pub compilers: Vec<(String, CompilerData)>,
}

/// One compiler of the configuration file.
#[derive(Debug)]
pub struct CompilerData {
    pub version: Option<String>,
    pub wandbox_name: String,
    pub default: Option<bool>,
}

/// Why a configuration file makes no table.
#[derive(Debug)]
pub enum Error {
    /// The language marks two of its compilers as its default.
    DuplicateDefault(LanguageName),
    /// Two languages, or two compilers, were given the same id.
    DuplicateID,
}

/// The ids that the records of a configuration file are given: one for each
/// language and one for each compiler of each language, in the file's order.
#[derive(Debug)]
pub struct Ids {
    pub languages: Vec<u64>,
    pub compilers: Vec<Vec<u64>>,
}

/// Whether the compiler is marked as its language's default.
pub open spec fn marked(entry: (String, CompilerData)) -> bool {
    entry.1.default == Some(true)
}

/// Whether two of the compilers are marked as the default.
pub open spec fn two_marked(compilers: Seq<(String, CompilerData)>) -> bool {
    exists|i: int, j: int|
        0 <= i < j < compilers.len() && marked(#[trigger] compilers[i]) && marked(
            #[trigger] compilers[j],
        )
}

/// The id of the compiler that is marked as the default, if one is.
pub open spec fn marked_id(compilers: Seq<(String, CompilerData)>, ids: Seq<u64>) -> Option<
    CompilerID,
> {
    if exists|i: int| 0 <= i < compilers.len() && marked(#[trigger] compilers[i]) {
        let i = choose|i: int| 0 <= i < compilers.len() && marked(#[trigger] compilers[i]);
        Some(CompilerID(ids[i]))
    } else {
        None
    }
}

/// The record of a compiler of the file.
pub open spec fn compiler_record(language_id: u64, entry: (String, CompilerData), id: u64) -> CompilerView {
    CompilerView {
        id: CompilerID(id),
        name: entry.0@,
        version: text_view(entry.1.version),
        language_id: LanguageID(language_id),
        wandbox_name: entry.1.wandbox_name@,
    }
}

/// The records of the compilers of one language, in the file's order.
pub open spec fn compiler_records(
    language_id: u64,
    compilers: Seq<(String, CompilerData)>,
    ids: Seq<u64>,
) -> Seq<CompilerView> {
    Seq::new(compilers.len(), |i: int| compiler_record(language_id, compilers[i], ids[i]))
}

/// The record of a language of the file. Its aliases are those of the file
/// but for repetitions, of the name or of one another.
pub open spec fn language_record(entry: (String, LanguageData), id: u64, compiler_ids: Seq<u64>) -> LanguageView {
    LanguageView {
        id: LanguageID(id),
        name: entry.0@,
        aliases: unique_aliases(entry.0@, string_views(entry.1.aliases@)),
        default_compiler_id: marked_id(entry.1.compilers@, compiler_ids),
    }
}

/// Whether there is an id for each record of the file.
pub open spec fn ids_fit(languages: Seq<(String, LanguageData)>, ids: Ids) -> bool {
    &&& ids.languages.len() == languages.len()
    &&& ids.compilers.len() == languages.len()
    &&& forall|i: int|
        0 <= i < languages.len() ==> (#[trigger] ids.compilers[i]).len()
            == languages[i].1.compilers.len()
}

/// The records of the compilers of the first `n` languages, language after
/// language.
pub open spec fn all_compiler_records(languages: Seq<(String, LanguageData)>, ids: Ids, n: int) -> Seq<
    CompilerView,
>
    decreases n,
{
    if n <= 0 {
        Seq::empty()
    } else {
        all_compiler_records(languages, ids, n - 1) + compiler_records(
            ids.languages[n - 1],
            languages[n - 1].1.compilers@,
            ids.compilers[n - 1]@,
        )
    }
}

/// `k` is the place of the first language that marks two of its compilers
/// as its default.
pub open spec fn first_two_marked(languages: Seq<(String, LanguageData)>, k: int) -> bool {
    &&& 0 <= k < languages.len()
    &&& two_marked(languages[k].1.compilers@)
    &&& forall|j: int| 0 <= j < k ==> !two_marked((#[trigger] languages[j]).1.compilers@)
}

/// A number for a name. The contract says nothing of the number: what
/// `rustc_hash::FxHasher` makes of a text depends on the machine.
#[verifier::external_body]
fn hash_to_u64(x: &String) -> u64 {
    let mut hasher = rustc_hash::FxHasher::default();
    std::hash::Hash::hash(x, &mut hasher);
    std::hash::Hasher::finish(&hasher)
}

/// Gives each language and each compiler of the file an id made of its
/// name.
pub fn assign_ids(config_file: &ConfigFile) -> (r: Ids)
    ensures
        ids_fit(config_file.languages@, r),
{
    let mut languages: Vec<u64> = Vec::new();
    let mut compilers: Vec<Vec<u64>> = Vec::new();
    let mut i: usize = 0;
    while i < config_file.languages.len()
        invariant
            0 <= i <= config_file.languages.len(),
            languages.len() == i,
            compilers.len() == i,
            forall|j: int|
                0 <= j < i ==> (#[trigger] compilers[j]).len()
                    == config_file.languages[j].1.compilers.len(),
        decreases config_file.languages.len() - i,
    {
        let entry = &config_file.languages[i];
        languages.push(hash_to_u64(&entry.0));
        let mut ids: Vec<u64> = Vec::new();
        let mut k: usize = 0;
        while k < entry.1.compilers.len()
            invariant
                0 <= k <= entry.1.compilers.len(),
                ids.len() == k,
            decreases entry.1.compilers.len() - k,
        {
            ids.push(hash_to_u64(&entry.1.compilers[k].0));
            k = k + 1;
        }
        compilers.push(ids);
        i = i + 1;
    }
    Ids { languages, compilers }
}

/// Reads texts as names of languages.
fn to_names(texts: &Vec<String>) -> (r: Vec<LanguageName>)
    ensures
        name_views(r@) == string_views(texts@),
{
    let mut names: Vec<LanguageName> = Vec::new();
    let mut i: usize = 0;
    while i < texts.len()
        invariant
            0 <= i <= texts.len(),
            names.len() == i,
            forall|j: int| 0 <= j < i ==> (#[trigger] names[j])@ == texts[j]@,
        decreases texts.len() - i,
    {
        names.push(LanguageName::from_string_ref(&texts[i]));
        i = i + 1;
    }
    assert(name_views(names@) =~= string_views(texts@));
    names
}

/// Makes the records of the compilers of one language, and finds the one
/// that is marked as the default. Two marked compilers are an error.
fn language_compilers(
    language_id: u64,
    entries: Vec<(String, CompilerData)>,
    ids: &Vec<u64>,
    records: &mut Vec<Compiler>,
) -> (r: Option<Option<CompilerID>>)
    requires
        ids.len() == entries.len(),
    ensures
        r is None <==> two_marked(entries@),
        r matches Some(default) ==> default == marked_id(entries@, ids@) && compiler_views(
            final(records)@,
        ) == compiler_views(old(records)@) + compiler_records(language_id, entries@, ids@),
{
    let ghost before = compiler_views(records@);
    let ghost given = entries@;
    let mut default: Option<CompilerID> = None;
    let mut seen: Ghost<int> = Ghost(-1);
    let mut k: usize = 0;
    let total = entries.len();
    // the entries are taken from the back, so that each can be moved out
    let mut reversed = reverse(entries);
    while k < total
        invariant
            given == entries@,
            total == given.len(),
            ids.len() == total,
            0 <= k <= total,
            reversed.len() == total - k,
            forall|j: int|
                0 <= j < reversed.len() ==> reversed[j] == given[given.len() - 1 - j],
            compiler_views(records@) == before + compiler_records(
                language_id,
                given.take(k as int),
                ids@.take(k as int),
            ),
            forall|a: int, b: int|
                0 <= a < b < k ==> !(marked(#[trigger] given[a]) && marked(#[trigger] given[b])),
            match default {
                Some(d) => 0 <= seen@ < k && marked(given[seen@]) && d == CompilerID(ids[seen@]),
                None => forall|j: int| 0 <= j < k ==> !marked(#[trigger] given[j]),
            },
        decreases total - k,
    {
        let entry = reversed.pop().unwrap();
        assert(entry == given[k as int]);
        let (name, data) = entry;
        let compiler_id = CompilerID::from_u64(ids[k]);
        let is_default = match data.default {
            Some(flag) => flag,
            None => false,
        };
        if is_default {
            if default.is_some() {
                assert(marked(given[seen@]) && marked(given[k as int]));
                assert(two_marked(given));
                return None;
            }
            default = Some(compiler_id);
            proof {
                seen@ = k as int;
            }
        }
        let version = match data.version {
            Some(v) => Some(CompilerVersion::from_string(v)),
            None => None,
        };
        let compiler = Compiler::new(
            compiler_id,
            CompilerName::from_string(name),
            version,
            LanguageID::from_u64(language_id),
            data.wandbox_name,
        );
        let ghost previous = compiler_views(records@);
        records.push(compiler);
        proof {
            assert(compiler_views(records@) =~= previous.push(
                compiler_record(language_id, given[k as int], ids[k as int]),
            ));
            assert(compiler_records(language_id, given.take(k + 1), ids@.take(k + 1))
                =~= compiler_records(language_id, given.take(k as int), ids@.take(k as int)).push(
                compiler_record(language_id, given[k as int], ids[k as int]),
            ));
        }
        k = k + 1;
    }
    proof {
        assert(given.take(k as int) == given);
        assert(ids@.take(k as int) == ids@);
        assert(!two_marked(given));
        if default is Some {
            let w = choose|i: int| 0 <= i < given.len() && marked(#[trigger] given[i]);
            if w < seen@ {
                assert(!(marked(given[w]) && marked(given[seen@])));
            } else if seen@ < w {
                assert(!(marked(given[seen@]) && marked(given[w])));
            }
        }
    }
    Some(default)
}

/// The records of the languages of the file, in the file's order.
pub open spec fn language_records(languages: Seq<(String, LanguageData)>, ids: Ids) -> Seq<
    LanguageView,
> {
    Seq::new(
        languages.len(),
        |i: int| language_record(languages[i], ids.languages[i], ids.compilers[i]@),
    )
}

/// Makes the records of a table of a configuration file and the ids for
/// them: a language for each language of the file, with the compiler that is
/// marked as its default, and a compiler for each compiler of the file,
/// which belongs to the language it stands under. Where a language marks two
/// compilers, it fails with the first such language.
pub fn records(config_file: ConfigFile, ids: &Ids) -> (r: Result<
    (Vec<Language>, Vec<Compiler>),
    Error,
>)
    requires
        ids_fit(config_file.languages@, *ids),
    ensures
        match r {
            Ok((languages, compilers)) => {
                &&& forall|k: int|
                    0 <= k < config_file.languages.len() ==> !two_marked(
                        (#[trigger] config_file.languages[k]).1.compilers@,
                    )
                &&& language_views(languages@) == language_records(
                    config_file.languages@,
                    *ids,
                )
                &&& compiler_views(compilers@) == all_compiler_records(
                    config_file.languages@,
                    *ids,
                    config_file.languages.len() as int,
                )
            },
            Err(Error::DuplicateDefault(name)) => exists|k: int|
                first_two_marked(config_file.languages@, k) && name@
                    == config_file.languages[k].0@,
            Err(Error::DuplicateID) => false,
        },
{
    let ghost given = config_file.languages@;
    let total = config_file.languages.len();
    let mut reversed = reverse(config_file.languages);
    let mut languages: Vec<Language> = Vec::new();
    let mut compilers: Vec<Compiler> = Vec::new();
    let mut i: usize = 0;
    while i < total
        invariant
            given == config_file.languages@,
            total == given.len(),
            ids_fit(given, *ids),
            0 <= i <= total,
            reversed.len() == total - i,
            forall|j: int| 0 <= j < reversed.len() ==> reversed[j] == given[given.len() - 1 - j],
            forall|k: int| 0 <= k < i ==> !two_marked((#[trigger] given[k]).1.compilers@),
            languages.len() == i,
            forall|k: int|
                0 <= k < i ==> (#[trigger] languages[k])@ == language_record(
                    given[k],
                    ids.languages[k],
                    ids.compilers[k]@,
                ),
            compiler_views(compilers@) == all_compiler_records(given, *ids, i as int),
        decreases total - i,
    {
        let entry = reversed.pop().unwrap();
        assert(entry == given[i as int]);
        let (language_name, language_data) = entry;
        let language_id = ids.languages[i];
        let aliases = to_names(&language_data.aliases);
        let default = match language_compilers(
            language_id,
            language_data.compilers,
            &ids.compilers[i],
            &mut compilers,
        ) {
            Some(default) => default,
            None => {
                assert(first_two_marked(given, i as int));
                return Err(Error::DuplicateDefault(LanguageName::from_string(language_name)));
            },
        };
        let language = Language::new(
            LanguageID::from_u64(language_id),
            LanguageName::from_string(language_name),
            aliases,
            default,
        );
        languages.push(language);
        i = i + 1;
    }
    assert(language_views(languages@) =~= language_records(given, *ids));
    Ok((languages, compilers))
}

/// Whether no two records of the file can come by the same id, whatever
/// the ids are: there is no language, or one language with one compiler at
/// most.
pub open spec fn cannot_collide(languages: Seq<(String, LanguageData)>) -> bool {
    languages.len() == 0 || (languages.len() == 1 && languages[0].1.compilers.len() <= 1)
}

/// The records of a file whose records cannot come by the same id make a
/// catalog.
proof fn lemma_small_catalog(
    file: Seq<(String, LanguageData)>,
    ids: Ids,
    languages: Seq<Language>,
    compilers: Seq<Compiler>,
)
    requires
        cannot_collide(file),
        ids_fit(file, ids),
        language_views(languages) == language_records(file, ids),
        compiler_views(compilers) == all_compiler_records(file, ids, file.len() as int),
    ensures
        catalog_consistent(languages, compilers),
{
    reveal_with_fuel(all_compiler_records, 2);
    assert(languages.len() == language_views(languages).len());
    assert(compilers.len() == compiler_views(compilers).len());
    if file.len() == 1 {
        let entries = file[0].1.compilers@;
        let numbers = ids.compilers[0]@;
        let made = compiler_records(ids.languages[0], entries, numbers);
        assert(all_compiler_records(file, ids, 1) =~= made);
        assert(languages[0]@ == language_views(languages)[0]);
        assert(languages[0].spec_id() == LanguageID(ids.languages[0]));
        if entries.len() == 1 {
            assert(compilers[0]@ == compiler_views(compilers)[0]);
            assert(compilers[0]@ == compiler_record(ids.languages[0], entries[0], numbers[0]));
            assert(has_language(languages, compilers[0]@.language_id));
            if marked(entries[0]) {
                let w = choose|w: int| 0 <= w < entries.len() && marked(#[trigger] entries[w]);
                assert(w == 0);
                assert(has_compiler_of(compilers, CompilerID(numbers[0]), languages[0].spec_id()));
            } else {
                assert(!exists|w: int| 0 <= w < entries.len() && marked(#[trigger] entries[w]));
            }
        } else {
            assert(!exists|w: int| 0 <= w < entries.len() && marked(#[trigger] entries[w]));
        }
        assert(default_in_catalog(languages[0], compilers));
    }
}

/// Makes a table of a configuration file. Each language and each compiler
/// gets an id made of its name. A language that marks two compilers as its
/// default is an error, and so are two records that come by the same id:
/// then the records, with the ids that they were given, make no catalog.
/// A file whose records cannot come by the same id always makes a table.
pub fn to_config(config_file: ConfigFile) -> (r: Result<Table, Error>)
    ensures
        cannot_collide(config_file.languages@) ==> r is Ok,
        match r {
            Ok(table) => {
                &&& forall|k: int|
                    0 <= k < config_file.languages.len() ==> !two_marked(
                        (#[trigger] config_file.languages[k]).1.compilers@,
                    )
                &&& exists|ids: Ids|
                    {
                        &&& ids_fit(config_file.languages@, ids)
                        &&& language_views(table.spec_languages()) == #[trigger] language_records(
                            config_file.languages@,
                            ids,
                        )
                        &&& compiler_views(table.spec_compilers()) == all_compiler_records(
                            config_file.languages@,
                            ids,
                            config_file.languages.len() as int,
                        )
                    }
            },
            Err(Error::DuplicateDefault(name)) => exists|k: int|
                first_two_marked(config_file.languages@, k) && name@
                    == config_file.languages[k].0@,
            Err(Error::DuplicateID) => {
                &&& forall|k: int|
                    0 <= k < config_file.languages.len() ==> !two_marked(
                        (#[trigger] config_file.languages[k]).1.compilers@,
                    )
                &&& exists|ids: Ids, languages: Seq<Language>, compilers: Seq<Compiler>|
                    {
                        &&& ids_fit(config_file.languages@, ids)
                        &&& language_views(languages) == #[trigger] language_records(
                            config_file.languages@,
                            ids,
                        )
                        &&& compiler_views(compilers) == all_compiler_records(
                            config_file.languages@,
                            ids,
                            config_file.languages.len() as int,
                        )
                        &&& !#[trigger] catalog_consistent(languages, compilers)
                    }
            },
        },
{
    let ghost file = config_file.languages@;
    let ids = assign_ids(&config_file);
    match records(config_file, &ids) {
        Ok((languages, compilers)) => {
            proof {
                if cannot_collide(file) {
                    lemma_small_catalog(file, ids, languages@, compilers@);
                }
            }
            match Table::new(languages, compilers) {
                Some(table) => Ok(table),
                None => Err(Error::DuplicateID),
            }
        },
        Err(e) => {
            proof {
                if cannot_collide(file) {
                    let k = choose|k: int| first_two_marked(file, k);
                    let entries = file[k].1.compilers@;
                    let (a, b) = choose|a: int, b: int|
                        0 <= a < b < entries.len() && marked(#[trigger] entries[a]) && marked(
                            #[trigger] entries[b],
                        );
                    assert(false);
                }
            }
            Err(e)
        },
    }
}

} // verus!
