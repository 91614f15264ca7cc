use runbot::memory::message::{
    compilers_text, handle, languages_text, read_block, say_compile_result, Plan,
};
use runbot::memory::{CompilerId, CompilerPredicate, GlobalSetting, GuildSetting, Setting};
use runbot::wandbox::compile::Response;
use runbot::wandbox::list;

fn compiler_of(setting: &Setting, language: &str) -> Option<String> {
    setting.compiler_for(&language.to_string()).cloned()
}

#[test]
fn a_predicate_picks_compilers_by_a_part_of_their_name() {
    let p = CompilerPredicate::NameSubstring("gcc".to_string());
    assert!(p.match_with("gcc-head"));
    assert!(p.match_with("x-gcc"));
    assert!(p.match_with("gcc"));
    assert!(!p.match_with("gc"));
    assert!(!p.match_with("clang"));
    assert!(!p.match_with("GCC"));
    assert!(CompilerPredicate::NameSubstring(String::new()).match_with("anything"));
    assert!(CompilerPredicate::NameSubstring(String::new()).match_with(""));
    assert_eq!(CompilerId::new("rust-head").compiler_name, "rust-head");
}

#[test]
fn settings_that_say_nothing_read_the_built_in_defaults() {
    let setting = Setting::new();
    assert!(setting.auto());
    assert!(!setting.auto_save());
    assert_eq!(compiler_of(&setting, "rust"), None);
    assert!(setting.default_options("gcc").is_none());
}

#[test]
fn a_community_starts_with_a_dozen_languages() {
    let setting = Setting::nice_language_map();
    assert!(setting.auto());
    assert!(!setting.auto_save());
    assert_eq!(compiler_of(&setting, "c"), Some("gcc-9.3.0-c".to_string()));
    assert_eq!(compiler_of(&setting, "c++"), Some("gcc-9.3.0".to_string()));
    assert_eq!(compiler_of(&setting, "javascript"), Some("nodejs-14.0.0".to_string()));
    assert_eq!(compiler_of(&setting, "bash"), Some("bash".to_string()));
    assert_eq!(compiler_of(&setting, "Rust"), None);
    assert_eq!(compiler_of(&setting, "cobol"), None);
}

#[test]
fn a_change_is_laid_over_settings() {
    let mut setting = Setting::nice_language_map();
    setting.extend(Setting::with_auto(false));
    assert!(!setting.auto());
    assert!(!setting.auto_save());
    setting.extend(Setting::with_auto_save(true));
    assert!(!setting.auto());
    assert!(setting.auto_save());
    setting.extend(Setting::with_language("rust".to_string(), CompilerId::new("rust-head")));
    setting.extend(Setting::with_language("zig".to_string(), CompilerId::new("zig-head")));
    assert_eq!(compiler_of(&setting, "rust"), Some("rust-head".to_string()));
    assert_eq!(compiler_of(&setting, "zig"), Some("zig-head".to_string()));
    assert_eq!(compiler_of(&setting, "c"), Some("gcc-9.3.0-c".to_string()));
    // a change that says nothing changes nothing
    setting.extend(Setting::new());
    assert!(!setting.auto());
    assert!(setting.auto_save());
    assert_eq!(compiler_of(&setting, "rust"), Some("rust-head".to_string()));
    let copy = setting.clone();
    assert_eq!(compiler_of(&copy, "zig"), Some("zig-head".to_string()));
    assert!(copy.auto_save());
}

#[test]
fn default_options_go_by_the_first_predicate_that_picks() {
    let mut setting = Setting::new();
    setting.extend(Setting::with_default_options(
        CompilerPredicate::NameSubstring("gcc".to_string()),
        vec!["-O2".to_string(), "-Wall".to_string()],
    ));
    setting.extend(Setting::with_default_options(
        CompilerPredicate::NameSubstring("head".to_string()),
        vec!["-v".to_string()],
    ));
    assert_eq!(
        setting.default_options("gcc-head"),
        Some(&vec!["-O2".to_string(), "-Wall".to_string()])
    );
    assert_eq!(setting.default_options("clang-head"), Some(&vec!["-v".to_string()]));
    assert_eq!(setting.default_options("rustc"), None);
    // the options of a predicate are replaced as a whole
    setting.extend(Setting::with_default_options(
        CompilerPredicate::NameSubstring("gcc".to_string()),
        vec![],
    ));
    assert_eq!(setting.default_options("gcc-head"), Some(&Vec::<String>::new()));
}

#[test]
fn a_room_reads_its_own_settings_or_the_default() {
    let mut guild = GuildSetting::new();
    assert!(guild.get_channel(1).auto());
    guild.set_channel(1, Setting::with_auto(false));
    assert!(!guild.get_channel(1).auto());
    assert!(guild.get_channel(2).auto());
    // a room takes the default along when it is first changed
    assert_eq!(compiler_of(guild.get_channel(1), "rust"), Some("rust-1.18.0".to_string()));
    guild.set_channel(1, Setting::with_auto_save(true));
    assert!(!guild.get_channel(1).auto());
    assert!(guild.get_channel(1).auto_save());
    assert!(!guild.get_channel(2).auto_save());
    let copy = guild.clone();
    assert!(copy.get_channel(1).auto_save());
}

#[test]
fn a_change_for_the_community_reaches_every_room() {
    let mut guild = GuildSetting::new();
    guild.set_channel(1, Setting::with_auto(true));
    guild.set_channel(2, Setting::with_language("rust".to_string(), CompilerId::new("r2")));
    guild.set_all(Setting::with_auto(false));
    assert!(!guild.get_channel(1).auto());
    assert!(!guild.get_channel(2).auto());
    assert!(!guild.get_channel(3).auto());
    // what the change does not speak of stays
    assert_eq!(compiler_of(guild.get_channel(2), "rust"), Some("r2".to_string()));
    assert_eq!(compiler_of(guild.get_channel(1), "rust"), Some("rust-1.18.0".to_string()));
    // an override that comes after wins for its room
    guild.set_channel(1, Setting::with_auto(true));
    assert!(guild.get_channel(1).auto());
    assert!(!guild.get_channel(2).auto());
}

#[test]
fn communities_are_kept_apart() {
    let mut global = GlobalSetting::new();
    assert!(global.get_channel_setting(1, 1).auto());
    assert_eq!(
        compiler_of(&global.get_channel_setting(1, 1), "go"),
        Some("go-1.14.2".to_string())
    );
    global.set_setting(1, 1, false, Setting::with_auto(false));
    assert!(!global.get_channel_setting(1, 1).auto());
    assert!(global.get_channel_setting(1, 2).auto());
    assert!(global.get_channel_setting(2, 1).auto());
    global.set_setting(2, 9, true, Setting::with_auto_save(true));
    assert!(global.get_channel_setting(2, 1).auto_save());
    assert!(global.get_channel_setting(2, 9).auto_save());
    assert!(!global.get_channel_setting(1, 1).auto_save());
    global.set_setting(1, 5, true, Setting::with_auto(true));
    assert!(global.get_channel_setting(1, 1).auto());
    assert!(global.get_channel_setting(1, 7).auto());
}

fn block(s: &str) -> (Option<String>, String) {
    let code = read_block(s).into_code();
    (code.language().map(|l| l.as_string().clone()), code.text().clone())
}

#[test]
fn a_block_is_read_loosely() {
    assert_eq!(block("```rust\nfn main() {}\n```"), (Some("rust".to_string()), "fn main() {}\n".to_string()));
    assert_eq!(block("```\nplain\n```"), (None, "plain\n".to_string()));
    assert_eq!(block("``` c \nx```"), (Some("c".to_string()), "x".to_string()));
    assert_eq!(block("`````one line`"), (None, "one line".to_string()));
    assert_eq!(block("no fence"), (None, "no fence".to_string()));
    assert_eq!(block("a b\nc"), (Some("a b".to_string()), "c".to_string()));
    assert_eq!(block(""), (None, String::new()));
    assert_eq!(block("``````"), (None, String::new()));
}

fn compile_of(plan: Plan) -> (Vec<String>, String, String, Option<String>, bool) {
    match plan {
        Plan::Compile { says, request } => {
            assert!(request.codes.is_empty());
            assert_eq!(request.options, None);
            assert_eq!(request.stdin, None);
            assert_eq!(request.runtime_option_raw, None);
            (says, request.compiler, request.code, request.compiler_option_raw, request.save)
        }
        other => panic!("no run: {:?}", other),
    }
}

#[test]
fn a_command_makes_a_plan() {
    let setting = Setting::nice_language_map();
    let handled = handle(&setting, "!runbot help");
    assert!(handled.look && !handled.is_global);
    assert!(matches!(handled.plan, Plan::Help));
    assert!(matches!(handle(&setting, "!runbot show-setting").plan, Plan::ShowSetting));
    let handled = handle(&setting, "!runbot global no-auto");
    assert!(handled.look && handled.is_global);
    match handled.plan {
        Plan::Change(change) => {
            let mut s = Setting::new();
            s.extend(change);
            assert!(!s.auto());
        }
        other => panic!("no change: {:?}", other),
    }
    match handle(&setting, "!runbot auto-save").plan {
        Plan::Change(change) => assert!(change.auto_save()),
        other => panic!("no change: {:?}", other),
    }
    match handle(&setting, "!runbot remap rust rust-head").plan {
        Plan::Change(change) => {
            assert_eq!(compiler_of(&change, "rust"), Some("rust-head".to_string()))
        }
        other => panic!("no change: {:?}", other),
    }
    match handle(&setting, "!runbot default-options gcc -O2 '-D X'").plan {
        Plan::Change(change) => assert_eq!(
            change.default_options("gcc-head"),
            Some(&vec!["-O2".to_string(), "-D X".to_string()])
        ),
        other => panic!("no change: {:?}", other),
    }
    match handle(&setting, "!runbot default-options gcc").plan {
        Plan::Change(change) => {
            assert_eq!(change.default_options("gcc"), Some(&Vec::<String>::new()))
        }
        other => panic!("no change: {:?}", other),
    }
    assert!(matches!(handle(&setting, "!runbot list-languages").plan, Plan::ListLanguages));
    match handle(&setting, "!runbot list C++").plan {
        Plan::List(language) => assert_eq!(language, "C++"),
        other => panic!("no list: {:?}", other),
    }
}

#[test]
fn what_the_bot_does_not_understand() {
    let setting = Setting::new();
    for content in [
        "!runbot",
        "!runbot global",
        "!runbot dance",
        "!runbot 'open",
        "!runbot remap rust",
        "!runbot remap a b c",
        "!runbot default-options",
        "!runbot list",
        "!runbot list a b",
        "!runbot run\nno label",
    ] {
        let handled = handle(&setting, content);
        assert!(handled.look, "{}", content);
        assert!(matches!(handled.plan, Plan::Unhandled), "{}", content);
    }
}

#[test]
fn a_run_goes_by_the_settings() {
    let mut setting = Setting::nice_language_map();
    setting.extend(Setting::with_default_options(
        CompilerPredicate::NameSubstring("gcc".to_string()),
        vec!["-O2".to_string(), "-Wall".to_string()],
    ));
    let handled = handle(&setting, "!runbot run\n```c\nmain(){}\n```");
    assert_eq!(
        compile_of(handled.plan),
        (
            vec![
                "`gcc-9.3.0-c`でコンパイルするよ！".to_string(),
                "`-O2 -Wall`をオプションとして渡すよ！".to_string()
            ],
            "gcc-9.3.0-c".to_string(),
            "main(){}\n".to_string(),
            Some("-O2\n-Wall".to_string()),
            false
        )
    );
    // what stands behind the command wins over the label and the defaults
    let handled = handle(&setting, "!runbot run-save gcc-head -g \"a b\"\n```c\nmain(){}\n```");
    assert_eq!(
        compile_of(handled.plan),
        (
            vec!["`-O2 -Wall`をオプションとして渡すよ！".to_string()],
            "gcc-head".to_string(),
            "main(){}\n".to_string(),
            Some("-g\na b".to_string()),
            true
        )
    );
    let handled = handle(&setting, "!runbot run rust\n```\nfn main() {}```");
    assert_eq!(
        compile_of(handled.plan),
        (
            vec!["`rust-1.18.0`でコンパイルするよ！".to_string()],
            "rust-1.18.0".to_string(),
            "fn main() {}".to_string(),
            Some(String::new()),
            false
        )
    );
}

#[test]
fn fenced_code_is_run_from_memory_where_that_is_switched_on() {
    let mut setting = Setting::nice_language_map();
    let handled = handle(&setting, "```python\nprint(1)\n```");
    assert!(handled.look && !handled.is_global);
    assert_eq!(
        compile_of(handled.plan),
        (
            vec!["`cpython-3.8.0`でコンパイルするよ！".to_string()],
            "cpython-3.8.0".to_string(),
            "print(1)\n".to_string(),
            Some(String::new()),
            false
        )
    );
    let handled = handle(&setting, "```\nprint(1)\n```");
    assert!(handled.look);
    assert!(matches!(handled.plan, Plan::Unhandled));
    for content in ["hello", "```python\nprint(1)", "print(1)```", " ```x\n1```", "``"] {
        let handled = handle(&setting, content);
        assert!(!handled.look, "{}", content);
        assert!(matches!(handled.plan, Plan::Nothing), "{}", content);
    }
    setting.extend(Setting::with_auto_save(true));
    let handled = handle(&setting, "```python\nprint(1)\n```");
    assert!(compile_of(handled.plan).4);
    setting.extend(Setting::with_auto(false));
    let handled = handle(&setting, "```python\nprint(1)\n```");
    assert!(!handled.look);
    assert!(matches!(handled.plan, Plan::Nothing));
}

#[test]
fn the_response_is_told_without_escape_sequences() {
    let response = Response {
        status: Some("1".to_string()),
        signal: Some("Killed".to_string()),
        compiler_output: None,
        compiler_error: None,
        compiler_message: Some("\x1b[31mwarning\x1b[m".to_string()),
        program_output: None,
        program_error: None,
        program_message: Some("out".to_string()),
        permlink: None,
        url: Some("https://wandbox.org/permlink/x".to_string()),
    };
    assert_eq!(
        say_compile_result(&response),
        Some(
            "```warning```\n```out```\nexited with signal: Killed\nexited with status code 1\nhttps://wandbox.org/permlink/x\n"
                .to_string()
        )
    );
    let nothing = Response {
        status: None,
        signal: None,
        compiler_output: None,
        compiler_error: None,
        compiler_message: None,
        program_output: None,
        program_error: None,
        program_message: None,
        permlink: None,
        url: None,
    };
    assert_eq!(say_compile_result(&nothing), Some(String::new()));
}

fn offered(name: &str, display_name: &str, language: &str) -> list::Compiler {
    list::Compiler {
        compiler_option_raw: true,
        runtime_option_raw: false,
        display_compile_command: String::new(),
        switches: Vec::new(),
        name: name.to_string(),
        version: "1".to_string(),
        language: language.to_string(),
        display_name: display_name.to_string(),
        templates: Vec::new(),
    }
}

#[test]
fn what_the_compile_service_offers_is_listed() {
    let response = list::Response(vec![
        offered("gcc-head", "gcc HEAD", "C++"),
        offered("rust-head", "rust HEAD", "Rust"),
        offered("clang-head", "clang HEAD", "C++"),
        offered("gcc-head-c", "gcc HEAD", "C"),
    ]);
    assert_eq!(languages_text(&response), "C++\nRust\nC");
    assert_eq!(
        compilers_text(&response, &"C++".to_string()),
        "gcc-head: gcc HEAD (C++)\nclang-head: clang HEAD (C++)"
    );
    assert_eq!(compilers_text(&response, &"c++".to_string()), "");
    assert_eq!(languages_text(&list::Response(Vec::new())), "");
}
