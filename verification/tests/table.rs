use runbot::model::compiler::{Compiler, CompilerID, CompilerName, CompilerVersion};
use runbot::model::language::{eq_ignoring_case, Language, LanguageID, LanguageName};
use runbot::table::Table;

fn name(s: &str) -> LanguageName {
    LanguageName::from_string(s.to_string())
}

fn language(id: u64, canonical: &str, aliases: &[&str], default: Option<u64>) -> Language {
    Language::new(
        LanguageID::from_u64(id),
        name(canonical),
        aliases.iter().map(|a| name(a)).collect(),
        default.map(CompilerID::from_u64),
    )
}

fn compiler(id: u64, compiler_name: &str, version: Option<&str>, language: u64) -> Compiler {
    Compiler::new(
        CompilerID::from_u64(id),
        CompilerName::from_string(compiler_name.to_string()),
        version.map(|v| CompilerVersion::from_string(v.to_string())),
        LanguageID::from_u64(language),
        format!("wandbox-{}", compiler_name),
    )
}

fn catalog() -> Table {
    Table::new(
        vec![
            language(1, "rust", &["rs"], Some(10)),
            language(2, "c++", &["cpp", "cxx"], Some(20)),
            language(3, "bash", &[], None),
        ],
        vec![
            compiler(10, "rust-1.18.0", Some("1.18.0"), 1),
            compiler(20, "gcc-9.3.0", Some("9.3.0"), 2),
            compiler(11, "rust-head", None, 1),
            compiler(21, "clang-head", None, 2),
            compiler(30, "bash", None, 3),
        ],
    )
    .expect("a catalog")
}

#[test]
fn names_are_compared_ignoring_the_case_of_ascii_letters() {
    assert!(eq_ignoring_case("rust", "Rust"));
    assert!(eq_ignoring_case("C++", "c++"));
    assert!(eq_ignoring_case("", ""));
    assert!(!eq_ignoring_case("rust", "rusty"));
    assert!(!eq_ignoring_case("rusty", "rust"));
    assert!(!eq_ignoring_case("rust", "ruse"));
    // only ASCII letters are folded
    assert!(!eq_ignoring_case("É", "é"));
    assert!(eq_ignoring_case("é", "é"));
    // '@' and '[' stand next to the letters and are not letters
    assert!(!eq_ignoring_case("@", "`"));
    assert!(!eq_ignoring_case("[", "{"));
    assert!(name("Python") == name("pYTHON"));
    assert!(name("Python") != name("Python3"));
}

#[test]
fn compiler_names_are_compared_letter_for_letter() {
    let a = CompilerName::from_string("gcc-head".to_string());
    assert!(a == CompilerName::from_string("gcc-head".to_string()));
    assert!(a != CompilerName::from_string("GCC-head".to_string()));
    assert_eq!(a.as_string(), "gcc-head");
    assert_eq!(CompilerName::from_string_ref(&"x".to_string()).as_string(), "x");
}

#[test]
fn a_language_answers_to_its_name_and_its_aliases() {
    let l = language(1, "JavaScript", &["js", "node"], None);
    assert!(l.is_named_as(&name("javascript")));
    assert!(l.is_named_as(&name("JS")));
    assert!(l.is_named_as(&name("Node")));
    assert!(!l.is_named_as(&name("java")));
    assert_eq!(l.id().as_u64(), 1);
    assert_eq!(l.name().as_string(), "JavaScript");
    assert_eq!(l.default_compiler_id(), None);
}

#[test]
fn aliases_form_a_set() {
    let l = language(1, "c++", &["cpp", "CPP", "C++", "cxx", "cpp"], None);
    let aliases: Vec<&str> = l.aliases().iter().map(|a| a.as_string().as_str()).collect();
    assert_eq!(aliases, vec!["cpp", "cxx"]);
}

#[test]
fn a_compiler_keeps_what_it_was_made_of() {
    let c = compiler(10, "rust-1.18.0", Some("1.18.0"), 1);
    assert_eq!(c.id().as_u64(), 10);
    assert_eq!(c.name().as_string(), "rust-1.18.0");
    assert_eq!(c.version().map(|v| v.as_string().as_str()), Some("1.18.0"));
    assert_eq!(c.language_id().as_u64(), 1);
    assert_eq!(c.wandbox_name(), "wandbox-rust-1.18.0");
    let copy = c.clone();
    assert_eq!(copy.name().as_string(), "rust-1.18.0");
    assert_eq!(copy.wandbox_name(), "wandbox-rust-1.18.0");
}

#[test]
fn a_table_is_made_of_consistent_records_only() {
    // an id used twice
    assert!(Table::new(
        vec![language(1, "a", &[], None), language(1, "b", &[], None)],
        vec![]
    )
    .is_none());
    assert!(Table::new(
        vec![language(1, "a", &[], None)],
        vec![compiler(5, "x", None, 1), compiler(5, "y", None, 1)]
    )
    .is_none());
    // a compiler of a language that is missing
    assert!(Table::new(vec![language(1, "a", &[], None)], vec![compiler(5, "x", None, 2)])
        .is_none());
    // a default that is missing
    assert!(Table::new(vec![language(1, "a", &[], Some(5))], vec![]).is_none());
    // a default that belongs to another language
    assert!(Table::new(
        vec![language(1, "a", &[], Some(5)), language(2, "b", &[], None)],
        vec![compiler(5, "x", None, 2)]
    )
    .is_none());
    // the empty catalog is one
    assert!(Table::new(vec![], vec![]).is_some());
}

#[test]
fn languages_are_found_by_name_or_alias_in_any_case() {
    let table = catalog();
    assert_eq!(table.find_language(&name("rust")).map(|l| l.id().as_u64()), Some(1));
    assert_eq!(table.find_language(&name("Rust")).map(|l| l.id().as_u64()), Some(1));
    assert_eq!(table.find_language(&name("RS")).map(|l| l.id().as_u64()), Some(1));
    assert_eq!(table.find_language(&name("CPP")).map(|l| l.id().as_u64()), Some(2));
    assert_eq!(table.find_language(&name("cxx")).map(|l| l.id().as_u64()), Some(2));
    assert!(table.find_language(&name("go")).is_none());
    assert!(table.find_language(&name("rust-1.18.0")).is_none());
}

#[test]
fn the_first_language_that_answers_wins() {
    let table = Table::new(
        vec![language(1, "first", &["shared"], None), language(2, "second", &["Shared"], None)],
        vec![],
    )
    .unwrap();
    assert_eq!(table.find_language(&name("SHARED")).map(|l| l.id().as_u64()), Some(1));
}

#[test]
fn compilers_are_found_by_their_exact_name() {
    let table = catalog();
    let found = table.find_compiler(&CompilerName::from_string("gcc-9.3.0".to_string()));
    assert_eq!(found.map(|c| c.id().as_u64()), Some(20));
    assert!(table.find_compiler(&CompilerName::from_string("GCC-9.3.0".to_string())).is_none());
    assert!(table.find_compiler(&CompilerName::from_string("rust".to_string())).is_none());
}

#[test]
fn records_are_got_by_id() {
    let table = catalog();
    assert!(table.contains_compiler(CompilerID::from_u64(21)));
    assert!(!table.contains_compiler(CompilerID::from_u64(22)));
    assert!(table.contains_language(LanguageID::from_u64(3)));
    assert!(!table.contains_language(LanguageID::from_u64(4)));
    assert_eq!(table.get_compiler(CompilerID::from_u64(21)).name().as_string(), "clang-head");
    assert_eq!(table.get_language(LanguageID::from_u64(3)).name().as_string(), "bash");
}

#[test]
fn compilers_of_a_language_come_in_the_order_of_the_table() {
    let table = catalog();
    let names: Vec<&str> = table
        .list_compilers_with_language_id(LanguageID::from_u64(1))
        .iter()
        .map(|c| c.name().as_string().as_str())
        .collect();
    assert_eq!(names, vec!["rust-1.18.0", "rust-head"]);
    assert!(table.list_compilers_with_language_id(LanguageID::from_u64(9)).is_empty());
    let languages: Vec<&str> =
        table.list_languages().iter().map(|l| l.name().as_string().as_str()).collect();
    assert_eq!(languages, vec!["rust", "c++", "bash"]);
}
