use runbot::config_file::{
    assign_ids, records, to_config, CompilerData, ConfigFile, Error, Ids, LanguageData,
};
use runbot::model::language::LanguageName;

fn compiler(name: &str, version: Option<&str>, default: Option<bool>) -> (String, CompilerData) {
    (
        name.to_string(),
        CompilerData {
            version: version.map(|v| v.to_string()),
            wandbox_name: format!("wandbox-{}", name),
            default,
        },
    )
}

fn language(
    name: &str,
    aliases: &[&str],
    compilers: Vec<(String, CompilerData)>,
) -> (String, LanguageData) {
    (
        name.to_string(),
        LanguageData { aliases: aliases.iter().map(|a| a.to_string()).collect(), compilers },
    )
}

fn config() -> ConfigFile {
    ConfigFile {
        languages: vec![
            language(
                "rust",
                &["rs", "RS"],
                vec![
                    compiler("rust-head", None, None),
                    compiler("rust-1.18.0", Some("1.18.0"), Some(true)),
                    compiler("rust-1.0", Some("1.0"), Some(false)),
                ],
            ),
            language("cobol", &[], vec![]),
            language("c", &["c99"], vec![compiler("gcc", None, Some(true))]),
        ],
    }
}

#[test]
fn there_is_an_id_for_each_record() {
    let ids = assign_ids(&config());
    assert_eq!(ids.languages.len(), 3);
    assert_eq!(ids.compilers.iter().map(|c| c.len()).collect::<Vec<_>>(), vec![3, 0, 1]);
    // the same name gets the same id, another name another
    let again = assign_ids(&config());
    assert_eq!(ids.languages, again.languages);
    assert_eq!(ids.compilers, again.compilers);
    assert_ne!(ids.languages[0], ids.languages[1]);
    assert_ne!(ids.compilers[0][0], ids.compilers[0][1]);
}

#[test]
fn records_are_made_in_the_order_of_the_file() {
    let ids = Ids { languages: vec![1, 2, 3], compilers: vec![vec![10, 11, 12], vec![], vec![30]] };
    let (languages, compilers) = records(config(), &ids).unwrap();
    let names: Vec<&str> = languages.iter().map(|l| l.name().as_string().as_str()).collect();
    assert_eq!(names, vec!["rust", "cobol", "c"]);
    assert_eq!(languages.iter().map(|l| l.id().as_u64()).collect::<Vec<_>>(), vec![1, 2, 3]);
    assert_eq!(
        languages.iter().map(|l| l.default_compiler_id().map(|c| c.as_u64())).collect::<Vec<_>>(),
        vec![Some(11), None, Some(30)]
    );
    let aliases: Vec<&str> =
        languages[0].aliases().iter().map(|a| a.as_string().as_str()).collect();
    assert_eq!(aliases, vec!["rs"]);
    let names: Vec<&str> = compilers.iter().map(|c| c.name().as_string().as_str()).collect();
    assert_eq!(names, vec!["rust-head", "rust-1.18.0", "rust-1.0", "gcc"]);
    assert_eq!(compilers.iter().map(|c| c.id().as_u64()).collect::<Vec<_>>(), vec![10, 11, 12, 30]);
    assert_eq!(
        compilers.iter().map(|c| c.language_id().as_u64()).collect::<Vec<_>>(),
        vec![1, 1, 1, 3]
    );
    assert_eq!(compilers[1].version().map(|v| v.as_string().as_str()), Some("1.18.0"));
    assert!(compilers[0].version().is_none());
    assert_eq!(compilers[3].wandbox_name(), "wandbox-gcc");
}

#[test]
fn a_table_is_made_of_a_configuration_file() {
    let table = to_config(config()).unwrap();
    let rust = table.find_language(&LanguageName::from_string("RS".to_string())).unwrap();
    assert_eq!(rust.name().as_string(), "rust");
    let default = table.get_compiler(rust.default_compiler_id().unwrap());
    assert_eq!(default.name().as_string(), "rust-1.18.0");
    assert_eq!(default.language_id(), rust.id());
    assert_eq!(table.list_languages().len(), 3);
    assert_eq!(table.list_compilers_with_language_id(rust.id()).len(), 3);
    let cobol = table.find_language(&LanguageName::from_string("cobol".to_string())).unwrap();
    assert!(cobol.default_compiler_id().is_none());
}

#[test]
fn two_defaults_for_one_language_are_an_error() {
    let file = ConfigFile {
        languages: vec![
            language("a", &[], vec![compiler("a1", None, Some(true))]),
            language(
                "b",
                &[],
                vec![
                    compiler("b1", None, Some(true)),
                    compiler("b2", None, None),
                    compiler("b3", None, Some(true)),
                ],
            ),
            language(
                "c",
                &[],
                vec![compiler("c1", None, Some(true)), compiler("c2", None, Some(true))],
            ),
        ],
    };
    match to_config(file) {
        Err(Error::DuplicateDefault(name)) => assert_eq!(name.as_string(), "b"),
        other => panic!("not the error: {:?}", other),
    }
}

#[test]
fn two_records_with_one_id_are_an_error() {
    let file = ConfigFile {
        languages: vec![
            language("a", &[], vec![compiler("same", None, None)]),
            language("b", &[], vec![compiler("same", None, None)]),
        ],
    };
    assert!(matches!(to_config(file), Err(Error::DuplicateID)));
    let file = ConfigFile {
        languages: vec![language("a", &[], vec![]), language("a", &[], vec![])],
    };
    assert!(matches!(to_config(file), Err(Error::DuplicateID)));
}
