use runbot::action::run::{output, try_output};
use runbot::action::{
    dump_setting, list_compilers, list_languages, remap_language, run, run_implicit, set_auto,
    set_auto_save,
};
use runbot::context::{Action, Context, Outcome};
use runbot::error::Error;
use runbot::model::channel_id::ChannelID;
use runbot::model::code::Code;
use runbot::model::compiler::{Compiler, CompilerID, CompilerName, CompilerVersion};
use runbot::model::compiler_options::CompilerOptions;
use runbot::model::compiler_spec::CompilerSpec;
use runbot::model::guild_id::GuildID;
use runbot::model::language::{Language, LanguageID, LanguageName};
use runbot::setting::Answer;
use runbot::store::{Command, Reply, Step};
use runbot::table::Table;
use runbot::wandbox::compile::Response;
use std::collections::BTreeMap;

#[derive(Debug, Clone, PartialEq)]
enum Entry {
    Scalar(u32),
    Hash(BTreeMap<u64, u64>),
}

struct Backend {
    store: BTreeMap<String, Entry>,
    log: Vec<String>,
}

fn matches_pattern(pattern: &[u8], key: &[u8]) -> bool {
    match pattern.split_first() {
        None => key.is_empty(),
        Some((b'*', rest)) => {
            matches_pattern(rest, key) || (!key.is_empty() && matches_pattern(pattern, &key[1..]))
        }
        Some((c, rest)) => !key.is_empty() && key[0] == *c && matches_pattern(rest, &key[1..]),
    }
}

impl Backend {
    fn new() -> Backend {
        Backend { store: BTreeMap::new(), log: Vec::new() }
    }

    fn perform(&mut self, command: &Command) -> Reply {
        self.log.push(format!("{:?}", command));
        match command {
            Command::Exists { key } => Reply::Exists(self.store.contains_key(key)),
            Command::Get { key } => match self.store.get(key) {
                Some(Entry::Scalar(v)) => Reply::Value(*v),
                _ => Reply::Failed("not a number".to_string()),
            },
            Command::HashGet { key, field } => match self.store.get(key) {
                Some(Entry::Hash(h)) => Reply::HashValue(h.get(field).copied()),
                Some(Entry::Scalar(_)) => Reply::Failed("wrong kind".to_string()),
                None => Reply::HashValue(None),
            },
            Command::HashGetAll { key } => match self.store.get(key) {
                Some(Entry::Hash(h)) => {
                    Reply::HashEntries(h.iter().map(|(k, v)| (*k, *v)).collect())
                }
                Some(Entry::Scalar(_)) => Reply::Failed("wrong kind".to_string()),
                None => Reply::HashEntries(Vec::new()),
            },
            Command::Put { key, value } => {
                self.store.insert(key.clone(), Entry::Scalar(*value));
                Reply::Done
            }
            Command::HashPut { key, field, value } => match self.store.get_mut(key) {
                Some(Entry::Hash(h)) => {
                    h.insert(*field, *value);
                    Reply::Done
                }
                Some(Entry::Scalar(_)) => Reply::Failed("wrong kind".to_string()),
                None => {
                    let mut h = BTreeMap::new();
                    h.insert(*field, *value);
                    self.store.insert(key.clone(), Entry::Hash(h));
                    Reply::Done
                }
            },
            Command::Scan { pattern } => Reply::Keys(
                self.store
                    .keys()
                    .filter(|k| matches_pattern(pattern.as_bytes(), k.as_bytes()))
                    .cloned()
                    .collect(),
            ),
        }
    }

    fn run<'a>(
        &mut self,
        first: Step<Action<'a>, Result<Outcome<'a>, Error>>,
    ) -> Result<Outcome<'a>, Error> {
        let mut step = first;
        loop {
            match step {
                Step::Perform(action, command) => {
                    let reply = self.perform(&command);
                    assert!(action.accepts(&reply), "the backend holds an id that is unknown");
                    step = action.resume(reply);
                }
                Step::Finish(result) => return result,
            }
        }
    }
}

fn name(s: &str) -> LanguageName {
    LanguageName::from_string(s.to_string())
}

fn compiler_name(s: &str) -> CompilerName {
    CompilerName::from_string(s.to_string())
}

fn spec(s: &str) -> CompilerSpec {
    CompilerSpec::from_string(s.to_string())
}

fn language(id: u64, canonical: &str, aliases: &[&str], default: Option<u64>) -> Language {
    Language::new(
        LanguageID::from_u64(id),
        name(canonical),
        aliases.iter().map(|a| name(a)).collect(),
        default.map(CompilerID::from_u64),
    )
}

fn compiler(id: u64, compiler_name: &str, version: Option<&str>, language: u64) -> Compiler {
    Compiler::new(
        CompilerID::from_u64(id),
        CompilerName::from_string(compiler_name.to_string()),
        version.map(|v| CompilerVersion::from_string(v.to_string())),
        LanguageID::from_u64(language),
        format!("wandbox-{}", compiler_name),
    )
}

fn catalog() -> Table {
    Table::new(
        vec![
            language(1, "rust", &["rs"], Some(10)),
            language(2, "c", &[], Some(20)),
            language(3, "bash", &["sh"], Some(30)),
            language(4, "cobol", &[], None),
        ],
        vec![
            compiler(10, "rust-1.18.0", Some("1.18.0"), 1),
            compiler(11, "nightly-gcc", None, 1),
            compiler(20, "gcc-9.3.0-c", Some("9.3.0"), 2),
            compiler(30, "bash", None, 3),
            compiler(31, "bash-head", None, 3),
        ],
    )
    .expect("a catalog")
}

fn context(guild: u64, channel: u64) -> Context {
    Context::new(GuildID::from_u64(guild), ChannelID::from_u64(channel), catalog())
}

fn resolved<'a>(outcome: Result<Outcome<'a>, Error>) -> &'a str {
    match outcome {
        Ok(Outcome::Compiler(c)) => c.name().as_string().as_str(),
        other => panic!("no compiler: {:?}", other),
    }
}

#[test]
fn a_language_resolves_to_its_default_compiler() {
    let ctx = context(1, 2);
    let mut backend = Backend::new();
    assert_eq!(resolved(backend.run(ctx.resolve_compiler_spec(&spec("rust")))), "rust-1.18.0");
    assert_eq!(
        backend.log,
        vec![
            "Exists { key: \"channel:1:2:remap\" }".to_string(),
            "Exists { key: \"channel:1:default:remap\" }".to_string(),
        ]
    );
    assert_eq!(resolved(backend.run(ctx.resolve_language_name(&name("c")))), "gcc-9.3.0-c");
}

#[test]
fn any_spelling_of_a_language_resolves_alike() {
    let ctx = context(1, 2);
    let mut backend = Backend::new();
    for spelling in ["rust", "Rust", "RUST", "rs", "Rs"] {
        assert_eq!(
            resolved(backend.run(ctx.resolve_compiler_spec(&spec(spelling)))),
            "rust-1.18.0"
        );
        assert_eq!(
            resolved(backend.run(ctx.resolve_language_name(&name(spelling)))),
            "rust-1.18.0"
        );
    }
}

#[test]
fn a_compiler_name_resolves_to_that_compiler_without_asking_the_settings() {
    let ctx = context(1, 2);
    let mut backend = Backend::new();
    // even where the language of the compiler is remapped
    backend.run(remap_language(&ctx, false, name("rust"), compiler_name("rust-1.18.0"))).unwrap();
    backend.log.clear();
    assert_eq!(
        resolved(backend.run(ctx.resolve_compiler_spec(&spec("nightly-gcc")))),
        "nightly-gcc"
    );
    assert!(backend.log.is_empty());
    // the name of a compiler is taken letter for letter
    assert!(matches!(
        backend.run(ctx.resolve_compiler_spec(&spec("Nightly-GCC"))),
        Err(Error::UnknownCompilerSpec(_))
    ));
}

#[test]
fn a_text_that_names_both_is_taken_as_the_language() {
    let ctx = context(1, 2);
    let mut backend = Backend::new();
    backend.run(remap_language(&ctx, false, name("bash"), compiler_name("bash-head"))).unwrap();
    assert_eq!(resolved(backend.run(ctx.resolve_compiler_spec(&spec("bash")))), "bash-head");
}

#[test]
fn unknown_names_are_errors() {
    let ctx = context(1, 2);
    let mut backend = Backend::new();
    match backend.run(ctx.resolve_compiler_spec(&spec("brainfuck"))) {
        Err(Error::UnknownCompilerSpec(s)) => assert_eq!(s.as_string(), "brainfuck"),
        other => panic!("not the error: {:?}", other),
    }
    match backend.run(ctx.resolve_language_name(&name("brainfuck"))) {
        Err(Error::UnknownLanguageName(n)) => assert_eq!(n.as_string(), "brainfuck"),
        other => panic!("not the error: {:?}", other),
    }
    // the name of a compiler is not the name of a language
    assert!(matches!(
        backend.run(ctx.resolve_language_name(&name("nightly-gcc"))),
        Err(Error::UnknownLanguageName(_))
    ));
    assert!(backend.log.is_empty());
}

#[test]
fn a_language_without_default_and_remap_is_unmapped() {
    let ctx = context(1, 2);
    let mut backend = Backend::new();
    match backend.run(ctx.resolve_compiler_spec(&spec("COBOL"))) {
        Err(Error::UnmappedLanguage(n)) => assert_eq!(n.as_string(), "cobol"),
        other => panic!("not the error: {:?}", other),
    }
}

#[test]
fn a_remap_overrides_the_default_compiler() {
    let ctx = context(1, 2);
    let other_room = context(1, 3);
    let mut backend = Backend::new();
    let written = backend.run(remap_language(&ctx, false, name("Rust"), compiler_name("nightly-gcc")));
    assert!(matches!(written, Ok(Outcome::Answer(Answer::Written))));
    assert_eq!(
        backend.log,
        vec!["HashPut { key: \"channel:1:2:remap\", field: 1, value: 11 }".to_string()]
    );
    assert_eq!(resolved(backend.run(ctx.resolve_compiler_spec(&spec("rs")))), "nightly-gcc");
    assert_eq!(
        resolved(backend.run(other_room.resolve_compiler_spec(&spec("rs")))),
        "rust-1.18.0"
    );
    // for the whole community
    backend.run(remap_language(&ctx, true, name("rust"), compiler_name("nightly-gcc"))).unwrap();
    assert_eq!(
        resolved(backend.run(other_room.resolve_compiler_spec(&spec("rs")))),
        "nightly-gcc"
    );
}

#[test]
fn a_remap_to_a_compiler_of_another_language_is_turned_down() {
    let ctx = context(1, 2);
    let mut backend = Backend::new();
    match backend.run(remap_language(&ctx, false, name("rust"), compiler_name("gcc-9.3.0-c"))) {
        Err(Error::RemapMismatch(c, l)) => {
            assert_eq!(c.as_string(), "gcc-9.3.0-c");
            assert_eq!(l.as_string(), "rust");
        }
        other => panic!("not the error: {:?}", other),
    }
    match backend.run(remap_language(&ctx, true, name("RS"), compiler_name("bash"))) {
        Err(Error::RemapMismatch(c, l)) => {
            assert_eq!(c.as_string(), "bash");
            assert_eq!(l.as_string(), "rust");
        }
        other => panic!("not the error: {:?}", other),
    }
    assert!(backend.log.is_empty());
    assert!(backend.store.is_empty());
}

#[test]
fn a_remap_of_unknown_names_is_turned_down() {
    let ctx = context(1, 2);
    let mut backend = Backend::new();
    match backend.run(remap_language(&ctx, false, name("go"), compiler_name("nightly-gcc"))) {
        Err(Error::UnknownLanguageName(n)) => assert_eq!(n.as_string(), "go"),
        other => panic!("not the error: {:?}", other),
    }
    match backend.run(remap_language(&ctx, false, name("rust"), compiler_name("Nightly-gcc"))) {
        Err(Error::UnknownCompilerName(n)) => assert_eq!(n.as_string(), "Nightly-gcc"),
        other => panic!("not the error: {:?}", other),
    }
    assert!(backend.log.is_empty());
}

#[test]
fn a_remap_comes_back_by_name() {
    let ctx = context(7, 8);
    let mut backend = Backend::new();
    backend.run(remap_language(&ctx, false, name("rust"), compiler_name("nightly-gcc"))).unwrap();
    match backend.run(ctx.all_remap()) {
        Ok(Outcome::Remaps(pairs)) => {
            let pairs: Vec<(&str, &str)> = pairs
                .iter()
                .map(|(l, c)| (l.as_string().as_str(), c.as_string().as_str()))
                .collect();
            assert_eq!(pairs, vec![("rust", "nightly-gcc")]);
        }
        other => panic!("no remaps: {:?}", other),
    }
    match backend.run(dump_setting(&ctx)) {
        Ok(Outcome::Setting(output)) => {
            assert!(output.auto);
            assert!(!output.auto_save);
            assert_eq!(output.remap.len(), 1);
            assert_eq!(output.remap[0].0.as_string(), "rust");
            assert_eq!(output.remap[0].1.as_string(), "nightly-gcc");
        }
        other => panic!("no settings: {:?}", other),
    }
}

#[test]
fn the_settings_are_dumped_as_they_are_in_effect() {
    let ctx = context(1, 2);
    let mut backend = Backend::new();
    backend.run(set_auto(&ctx, true, false)).unwrap();
    backend.run(set_auto_save(&ctx, false, true)).unwrap();
    backend.run(remap_language(&ctx, true, name("c"), compiler_name("gcc-9.3.0-c"))).unwrap();
    backend.run(remap_language(&ctx, false, name("sh"), compiler_name("bash-head"))).unwrap();
    match backend.run(dump_setting(&ctx)) {
        Ok(Outcome::Setting(output)) => {
            assert!(!output.auto);
            assert!(output.auto_save);
            let pairs: Vec<(&str, &str)> = output
                .remap
                .iter()
                .map(|(l, c)| (l.as_string().as_str(), c.as_string().as_str()))
                .collect();
            assert_eq!(pairs, vec![("bash", "bash-head")]);
        }
        other => panic!("no settings: {:?}", other),
    }
    let other_room = context(1, 3);
    match backend.run(dump_setting(&other_room)) {
        Ok(Outcome::Setting(output)) => {
            assert!(!output.auto);
            assert!(!output.auto_save);
            let pairs: Vec<(&str, &str)> = output
                .remap
                .iter()
                .map(|(l, c)| (l.as_string().as_str(), c.as_string().as_str()))
                .collect();
            assert_eq!(pairs, vec![("c", "gcc-9.3.0-c")]);
        }
        other => panic!("no settings: {:?}", other),
    }
}

#[test]
fn flags_are_read_through_the_context() {
    let ctx = context(1, 2);
    let mut backend = Backend::new();
    assert!(matches!(backend.run(ctx.is_auto()), Ok(Outcome::Answer(Answer::Flag(true)))));
    assert!(matches!(backend.run(ctx.is_auto_save()), Ok(Outcome::Answer(Answer::Flag(false)))));
    assert!(matches!(
        backend.run(set_auto(&ctx, false, false)),
        Ok(Outcome::Answer(Answer::Written))
    ));
    assert!(matches!(backend.run(ctx.is_auto()), Ok(Outcome::Answer(Answer::Flag(false)))));
    assert_eq!(ctx.guild_id().as_u64(), 1);
    assert_eq!(ctx.channel_id().as_u64(), 2);
}

#[test]
fn an_unknown_id_in_the_backend_is_not_accepted() {
    let ctx = context(1, 2);
    let first = ctx.resolve_compiler_spec(&spec("rust"));
    let action = match first {
        Step::Perform(action, _) => action,
        Step::Finish(_) => panic!("finished before it began"),
    };
    assert!(action.accepts(&Reply::Exists(true)));
    let action = match action.resume(Reply::Exists(true)) {
        Step::Perform(action, command) => {
            assert_eq!(
                format!("{:?}", command),
                "HashGet { key: \"channel:1:2:remap\", field: 1 }"
            );
            action
        }
        Step::Finish(_) => panic!("finished too early"),
    };
    assert!(!action.accepts(&Reply::HashValue(Some(999))));
    assert!(action.accepts(&Reply::HashValue(Some(11))));
    assert!(action.accepts(&Reply::HashValue(None)));
    let first = ctx.all_remap();
    let action = match first {
        Step::Perform(action, _) => action,
        Step::Finish(_) => panic!("finished before it began"),
    };
    assert!(!action.accepts(&Reply::HashEntries(vec![(1, 10), (9, 10)])));
    assert!(!action.accepts(&Reply::HashEntries(vec![(1, 10), (1, 99)])));
    assert!(action.accepts(&Reply::HashEntries(vec![(1, 10), (2, 11)])));
}

#[test]
fn compilers_and_languages_are_listed() {
    let ctx = context(1, 2);
    let compilers = list_compilers(&ctx, name("RS")).unwrap();
    let names: Vec<&str> = compilers.iter().map(|c| c.name().as_string().as_str()).collect();
    assert_eq!(names, vec!["rust-1.18.0", "nightly-gcc"]);
    match list_compilers(&ctx, name("go")) {
        Err(Error::UnknownLanguageName(n)) => assert_eq!(n.as_string(), "go"),
        other => panic!("not the error: {:?}", other),
    }
    assert!(list_compilers(&ctx, name("cobol")).unwrap().is_empty());
    let languages = list_languages(&ctx);
    let names: Vec<&str> = languages.iter().map(|l| l.name().as_string().as_str()).collect();
    assert_eq!(names, vec!["rust", "c", "bash", "cobol"]);
    assert_eq!(languages[2].aliases()[0].as_string(), "sh");
    assert_eq!(languages[0].default_compiler_id().map(|c| c.as_u64()), Some(10));
}

#[test]
fn a_run_makes_a_request_for_the_compile_service() {
    let ctx = context(1, 2);
    let mut backend = Backend::new();
    let code = Code::with_language("fn main() {}".to_string(), name("c"));
    let options =
        CompilerOptions::from_vec(vec!["-O2".to_string(), "-Wall".to_string(), "x y".to_string()]);
    let outcome = backend.run(run(
        &ctx,
        Some(spec("rust")),
        code,
        Some(options),
        Some("input".to_string()),
        true,
    ));
    match outcome {
        Ok(Outcome::Compile(request)) => {
            assert_eq!(request.compiler, "wandbox-rust-1.18.0");
            assert_eq!(request.code, "fn main() {}");
            assert!(request.codes.is_empty());
            assert_eq!(request.options, None);
            assert_eq!(request.stdin, Some("input".to_string()));
            assert_eq!(request.compiler_option_raw, Some("-O2\n-Wall\nx y".to_string()));
            assert_eq!(request.runtime_option_raw, None);
            assert!(request.save);
        }
        other => panic!("no request: {:?}", other),
    }
}

#[test]
fn a_run_without_a_spec_goes_by_the_language_of_the_code() {
    let ctx = context(1, 2);
    let mut backend = Backend::new();
    let code = Code::with_language("echo".to_string(), name("SH"));
    match backend.run(run(&ctx, None, code, None, None, false)) {
        Ok(Outcome::Compile(request)) => {
            assert_eq!(request.compiler, "wandbox-bash");
            assert_eq!(request.compiler_option_raw, None);
            assert_eq!(request.stdin, None);
            assert!(!request.save);
        }
        other => panic!("no request: {:?}", other),
    }
    let code = Code::without_language("echo".to_string());
    assert!(matches!(
        backend.run(run(&ctx, None, code, None, None, false)),
        Err(Error::NoCompilerSpecified)
    ));
    let code = Code::with_language("echo".to_string(), name("fish"));
    assert!(matches!(
        backend.run(run(&ctx, None, code, None, None, false)),
        Err(Error::UnknownLanguageName(_))
    ));
    // one option is one line, no option is the empty text
    let code = Code::without_language("echo".to_string());
    let options = CompilerOptions::from_vec(vec!["-x".to_string()]);
    match backend.run(run(&ctx, Some(spec("bash-head")), code, Some(options), None, false)) {
        Ok(Outcome::Compile(request)) => {
            assert_eq!(request.compiler, "wandbox-bash-head");
            assert_eq!(request.compiler_option_raw, Some("-x".to_string()));
        }
        other => panic!("no request: {:?}", other),
    }
    let code = Code::without_language("echo".to_string());
    match backend.run(run(&ctx, Some(spec("c")), code, Some(CompilerOptions::new()), None, false))
    {
        Ok(Outcome::Compile(request)) => {
            assert_eq!(request.compiler_option_raw, Some(String::new()));
        }
        other => panic!("no request: {:?}", other),
    }
}

#[test]
fn code_without_a_command_is_run_where_that_is_switched_on() {
    let ctx = context(1, 2);
    let mut backend = Backend::new();
    let code = Code::with_language("fn main() {}".to_string(), name("rust"));
    match backend.run(run_implicit(&ctx, code, Some("in".to_string()))) {
        Ok(Outcome::Compile(request)) => {
            assert_eq!(request.compiler, "wandbox-rust-1.18.0");
            assert_eq!(request.code, "fn main() {}");
            assert_eq!(request.stdin, Some("in".to_string()));
            assert_eq!(request.compiler_option_raw, None);
            assert!(!request.save);
        }
        other => panic!("no request: {:?}", other),
    }
    backend.run(set_auto_save(&ctx, true, true)).unwrap();
    let code = Code::with_language("fn main() {}".to_string(), name("rust"));
    match backend.run(run_implicit(&ctx, code, None)) {
        Ok(Outcome::Compile(request)) => assert!(request.save),
        other => panic!("no request: {:?}", other),
    }
    let code = Code::without_language("fn main() {}".to_string());
    assert!(matches!(
        backend.run(run_implicit(&ctx, code, None)),
        Err(Error::NoCompilerSpecified)
    ));
    backend.run(set_auto(&ctx, false, false)).unwrap();
    backend.log.clear();
    let code = Code::with_language("fn main() {}".to_string(), name("rust"));
    assert!(matches!(backend.run(run_implicit(&ctx, code, None)), Ok(Outcome::NoRun)));
    assert_eq!(
        backend.log,
        vec![
            "Exists { key: \"channel:1:2:auto\" }".to_string(),
            "Get { key: \"channel:1:2:auto\" }".to_string(),
        ]
    );
}

fn response(status: Option<&str>) -> Response {
    Response {
        status: status.map(|s| s.to_string()),
        signal: Some("Killed".to_string()),
        compiler_output: Some("co".to_string()),
        compiler_error: Some("ce".to_string()),
        compiler_message: Some("cm".to_string()),
        program_output: Some("po".to_string()),
        program_error: Some("pe".to_string()),
        program_message: Some("pm".to_string()),
        permlink: Some("link".to_string()),
        url: Some("https://example.org/x".to_string()),
    }
}

#[test]
fn the_response_of_the_compile_service_is_read() {
    let read = try_output(response(Some("0"))).expect("a status");
    assert_eq!(read.status, Some(0));
    assert_eq!(read.signal, Some("Killed".to_string()));
    assert_eq!(read.compiler_message, Some("cm".to_string()));
    assert_eq!(read.program_message, Some("pm".to_string()));
    assert_eq!(read.url, Some("https://example.org/x".to_string()));
    assert_eq!(try_output(response(Some("137"))).unwrap().status, Some(137));
    assert_eq!(try_output(response(None)).unwrap().status, None);
    assert!(try_output(response(Some("abc"))).is_none());
    assert!(try_output(response(Some("-1"))).is_none());
    assert!(try_output(response(Some(""))).is_none());
    assert!(try_output(response(Some("+"))).is_none());
    assert!(try_output(response(Some("++1"))).is_none());
    assert!(try_output(response(Some(" 1"))).is_none());
    assert!(try_output(response(Some("1 "))).is_none());
    assert!(try_output(response(Some("1_0"))).is_none());
    assert!(try_output(response(Some("٣"))).is_none());
    assert!(try_output(response(Some("4294967296"))).is_none());
    assert_eq!(try_output(response(Some("4294967295"))).unwrap().status, Some(4294967295));
    assert_eq!(try_output(response(Some("+5"))).unwrap().status, Some(5));
    assert_eq!(try_output(response(Some("007"))).unwrap().status, Some(7));
    assert_eq!(try_output(response(Some("00000000000000000000042"))).unwrap().status, Some(42));
    assert_eq!(output(response(Some("12"))).status, Some(12));
    match runbot::action::run_implicit::try_output(response(Some("3"))) {
        Some(runbot::action::run_implicit::Output::Run { status, url, .. }) => {
            assert_eq!(status, Some(3));
            assert_eq!(url, Some("https://example.org/x".to_string()));
        }
        other => panic!("no run: {:?}", other),
    }
    assert!(runbot::action::run_implicit::try_output(response(Some("x"))).is_none());
}

#[test]
fn errors_are_told_in_words() {
    assert_eq!(Error::UnknownLanguageName(name("go")).message(), "unknown language name go");
    assert_eq!(
        Error::UnknownCompilerName(compiler_name("tcc")).message(),
        "unknown compiler name tcc"
    );
    assert_eq!(Error::UnknownCompilerSpec(spec("x")).message(), "unknown compiler spec x");
    assert_eq!(
        Error::UnmappedLanguage(name("cobol")).message(),
        "no (default) compiler can be found for language cobol"
    );
    assert_eq!(
        Error::NoCompilerSpecified.message(),
        "no compiler is specified, but is required"
    );
    assert_eq!(
        Error::RemapMismatch(compiler_name("gcc"), name("rust")).message(),
        "gcc is not a compiler for rust"
    );
    assert_eq!(Error::Database("down".to_string()).message(), "database error: down");
}
