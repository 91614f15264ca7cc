use runbot::action::dump_setting::Output;
use runbot::chat::command::{is_command, parse, Request};
use runbot::chat::display::{
    code_block, compilers_table, help, languages_table, pieces, print_result, render_result,
    setting_table, strip_ansi_escapes, unhandled,
};
use runbot::chat::error::Error;
use runbot::code_input::ParseCodeInputError;
use runbot::compile_result::CompileResult;
use runbot::model::compiler::{Compiler, CompilerID, CompilerName, CompilerVersion};
use runbot::model::compiler_spec::CompilerSpec;
use runbot::model::language::{Language, LanguageID, LanguageName};

fn name(s: &str) -> LanguageName {
    LanguageName::from_string(s.to_string())
}

fn compiler(compiler_name: &str, version: Option<&str>) -> Compiler {
    Compiler::new(
        CompilerID::from_u64(1),
        CompilerName::from_string(compiler_name.to_string()),
        version.map(|v| CompilerVersion::from_string(v.to_string())),
        LanguageID::from_u64(1),
        compiler_name.to_string(),
    )
}

#[test]
fn a_message_that_calls_the_bot_is_a_command() {
    assert!(matches!(parse("!runbot help"), Ok((false, Request::Help))));
    assert!(matches!(parse("!runbot show-setting"), Ok((false, Request::ShowSetting))));
    assert!(matches!(parse("!runbot auto"), Ok((false, Request::Auto(true)))));
    assert!(matches!(parse("!runbot no-auto"), Ok((false, Request::Auto(false)))));
    assert!(matches!(parse("!runbot auto-save"), Ok((false, Request::AutoSave(true)))));
    assert!(matches!(parse("!runbot no-auto-save"), Ok((false, Request::AutoSave(false)))));
    assert!(matches!(parse("!runbot list-languages"), Ok((false, Request::ListLanguages))));
    assert!(matches!(parse("!runbot   help  \r\nignored"), Ok((false, Request::Help))));
}

#[test]
fn a_message_calls_the_bot_with_its_first_line() {
    assert!(is_command("!runbot"));
    assert!(is_command("!runbot help\nmore"));
    assert!(is_command("!runbotx"));
    assert!(!is_command(" !runbot"));
    assert!(!is_command("\n!runbot"));
    assert!(!is_command("hello\n!runbot"));
    assert!(!is_command("!Runbot"));
}

#[test]
fn global_makes_a_command_one_for_the_community() {
    assert!(matches!(parse("!runbot global auto"), Ok((true, Request::Auto(true)))));
    assert!(matches!(parse("!runbot   global no-auto-save"), Ok((true, Request::AutoSave(false)))));
    assert!(matches!(parse("!runbot global"), Err(Error::CommandIsMissing)));
    // the word is taken off the front as it stands
    match parse("!runbot globalhelp") {
        Ok((true, Request::Help)) => {}
        other => panic!("not help: {:?}", other),
    }
}

#[test]
fn commands_take_their_arguments() {
    match parse("!runbot remap rust 'nightly gcc'") {
        Ok((false, Request::Remap { language, compiler })) => {
            assert_eq!(language.as_string(), "rust");
            assert_eq!(compiler.as_string(), "nightly gcc");
        }
        other => panic!("no remap: {:?}", other),
    }
    assert!(matches!(parse("!runbot remap rust"), Err(Error::InvalidNumberOfArguments(2))));
    assert!(matches!(parse("!runbot remap a b c"), Err(Error::InvalidNumberOfArguments(2))));
    match parse("!runbot global list c++") {
        Ok((true, Request::List { language })) => assert_eq!(language.as_string(), "c++"),
        other => panic!("no list: {:?}", other),
    }
    assert!(matches!(parse("!runbot list"), Err(Error::InvalidNumberOfArguments(1))));
    assert!(matches!(parse("!runbot list a b"), Err(Error::InvalidNumberOfArguments(1))));
}

#[test]
fn what_is_no_command() {
    assert!(matches!(parse("!runbot"), Err(Error::CommandIsMissing)));
    assert!(matches!(parse("!runbot    "), Err(Error::CommandIsMissing)));
    assert!(matches!(parse("!runbot 'open"), Err(Error::MalformedArguments)));
    match parse("!runbot dance now") {
        Err(Error::UnknownCommand(c)) => assert_eq!(c, "dance"),
        other => panic!("not the error: {:?}", other),
    }
    match parse("!runbot Help") {
        Err(Error::UnknownCommand(c)) => assert_eq!(c, "Help"),
        other => panic!("not the error: {:?}", other),
    }
}

#[test]
fn a_run_takes_the_code_below_the_command() {
    match parse("!runbot run rust -O \"two words\"\r\n```\nfn main() {}\n```\n```stdin\n1\n```\n") {
        Ok((false, Request::Run { compiler_spec, options, input, save })) => {
            assert_eq!(compiler_spec.map(|s: CompilerSpec| s.as_string().clone()), Some("rust".to_string()));
            assert_eq!(
                options.map(|o| o.into_vec()),
                Some(vec!["-O".to_string(), "two words".to_string()])
            );
            assert_eq!(input.stdin(), Some(&"1\n".to_string()));
            assert_eq!(input.into_code().text(), "\nfn main() {}\n");
            assert!(!save);
        }
        other => panic!("no run: {:?}", other),
    }
    match parse("!runbot run-save\n```c\nx\n```") {
        Ok((false, Request::Run { compiler_spec, options, input, save })) => {
            assert!(compiler_spec.is_none());
            assert!(options.is_none());
            let code = input.into_code();
            assert_eq!(code.language().map(|l| l.as_string().as_str()), Some("c"));
            // the last line of a message needs no line break
            assert_eq!(code.text(), "x\n");
            assert!(save);
        }
        other => panic!("no run: {:?}", other),
    }
    match parse("!runbot run c") {
        Err(Error::InvalidCodeInput(ParseCodeInputError::NoCodeBlockFound)) => {}
        other => panic!("not the error: {:?}", other),
    }
    match parse("!runbot run c\n```stdin\n1```") {
        Err(Error::InvalidCodeInput(ParseCodeInputError::OnlyStdinFound)) => {}
        other => panic!("not the error: {:?}", other),
    }
    match parse("!runbot run c\n```a\n1```\n```b\n1```") {
        Err(Error::InvalidCodeInput(ParseCodeInputError::TooManyCodeBlocks)) => {}
        other => panic!("not the error: {:?}", other),
    }
}

#[test]
fn a_message_that_does_not_call_the_bot_may_hold_code() {
    match parse("```sh\nls\n```") {
        Ok((false, Request::Implicit { input })) => assert_eq!(input.into_code().text(), "ls\n"),
        other => panic!("no code: {:?}", other),
    }
    assert!(matches!(parse("good morning"), Ok((false, Request::Nothing))));
    assert!(matches!(parse(" !runbot help"), Ok((false, Request::Nothing))));
    assert!(matches!(parse("\n!runbot help"), Ok((false, Request::Nothing))));
    assert!(matches!(parse("```stdin\n1```"), Ok((false, Request::Nothing))));
}

#[test]
fn compilers_are_laid_out_in_two_columns() {
    let compilers =
        vec![compiler("gcc-head", Some("11.0.0")), compiler("clang", None), compiler("x", Some("1"))];
    assert_eq!(compilers_table(&compilers), "gcc-head  11.0.0\nclang     unknown\nx         1\n");
    assert_eq!(compilers_table(&Vec::new()), "");
}

#[test]
fn languages_are_laid_out_with_their_aliases() {
    let languages = vec![
        Language::new(LanguageID::from_u64(1), name("c++"), vec![name("cpp"), name("cxx")], None),
        Language::new(LanguageID::from_u64(2), name("rust"), vec![], None),
        Language::new(LanguageID::from_u64(3), name("javascript"), vec![name("js")], None),
    ];
    assert_eq!(languages_table(&languages), "c++         cpp,cxx\nrust        \njavascript  js\n");
}

#[test]
fn settings_are_laid_out_with_a_heading() {
    let output = Output {
        auto: true,
        auto_save: false,
        remap: vec![(name("rust"), CompilerName::from_string("nightly-gcc".to_string()))],
    };
    assert_eq!(
        setting_table(&output),
        "auto       true\nauto-save  false\nremap:\nrust       nightly-gcc\n"
    );
    let output = Output { auto: false, auto_save: true, remap: Vec::new() };
    assert_eq!(setting_table(&output), "auto       false\nauto-save  true\nremap:\n");
}

#[test]
fn escape_sequences_are_taken_out() {
    assert_eq!(strip_ansi_escapes("\x1b[32mfoo\x1b[m bar"), Some("foo bar".to_string()));
    assert_eq!(strip_ansi_escapes("plain\nlines\n"), Some("plain\nlines\n".to_string()));
    assert_eq!(strip_ansi_escapes(""), Some(String::new()));
    assert_eq!(strip_ansi_escapes("日本語\x1b[1m!"), Some("日本語!".to_string()));
}

#[test]
fn the_result_of_a_run_is_told_in_words() {
    let result = runbot::action::run::Output {
        status: Some(101),
        signal: Some("Killed".to_string()),
        compiler_message: Some("\x1b[31merror\x1b[m: x".to_string()),
        program_message: Some("hello\n".to_string()),
        url: Some("https://wandbox.org/permlink/x".to_string()),
    };
    assert_eq!(
        render_result(&result),
        Some(
            "```error: x```\n```hello\n```\nexited with signal: Killed\nexited with status code 101\nhttps://wandbox.org/permlink/x\n"
                .to_string()
        )
    );
    assert_eq!(result.status(), Some(101));
    assert_eq!(result.signal(), Some(&"Killed".to_string()));
    assert_eq!(result.program_message(), Some(&"hello\n".to_string()));
    assert_eq!(result.url(), Some(&"https://wandbox.org/permlink/x".to_string()));
    assert!(result.compiler_message().is_some());
    let result = runbot::action::run::Output {
        status: Some(0),
        signal: None,
        compiler_message: None,
        program_message: None,
        url: None,
    };
    assert_eq!(render_result(&result), Some("exited with status code 0\n".to_string()));
    assert_eq!(
        render_result(&runbot::action::run_implicit::Output::NoRun),
        Some(String::new())
    );
    let run = runbot::action::run_implicit::Output::Run {
        status: None,
        signal: None,
        compiler_message: None,
        program_message: Some("out".to_string()),
        url: None,
    };
    assert_eq!(render_result(&run), Some("```out```\n".to_string()));
    assert_eq!(run.program_message(), Some(&"out".to_string()));
    assert_eq!(run.status(), None);
    assert_eq!(runbot::action::run_implicit::Output::NoRun.url(), None);
}

#[test]
fn the_result_of_a_run_is_cleaned_as_a_whole() {
    let result = runbot::action::run::Output {
        status: Some(2),
        signal: None,
        compiler_message: Some("\x1b[31merror".to_string()),
        program_message: None,
        url: Some("u".to_string()),
    };
    assert_eq!(
        print_result(&result),
        Some("```error```\nexited with status code 2\nu\n".to_string())
    );
    assert_eq!(print_result(&runbot::action::run_implicit::Output::NoRun), Some(String::new()));
}

#[test]
fn a_long_text_is_said_in_pieces() {
    assert_eq!(pieces("", 3), Vec::<String>::new());
    assert_eq!(pieces("ab", 3), vec!["ab".to_string()]);
    assert_eq!(pieces("abc", 3), vec!["abc".to_string()]);
    assert_eq!(pieces("abcd", 3), vec!["abc".to_string(), "d".to_string()]);
    assert_eq!(
        pieces("日本語のテキスト", 3),
        vec!["日本語".to_string(), "のテキ".to_string(), "スト".to_string()]
    );
    let long = "x".repeat(4001);
    let cut = pieces(&long, 2000);
    assert_eq!(cut.iter().map(|p| p.len()).collect::<Vec<_>>(), vec![2000, 2000, 1]);
}

#[test]
fn fixed_texts() {
    assert_eq!(code_block("ls"), "```ls```");
    assert_eq!(unhandled("x"), "わからん、x");
    assert!(help().starts_with("\n`!runbot` のあとに"));
    assert!(help().ends_with("!runbot run-save        -- 実行して保存\n```\n"));
}

#[test]
fn chat_errors_are_told_in_words() {
    assert_eq!(
        Error::Runbot(runbot::error::Error::UnknownLanguageName(name("go"))).message(),
        "unknown language name go"
    );
    assert_eq!(
        Error::InvalidCodeInput(ParseCodeInputError::OnlyStdinFound).message(),
        "unable to parse code input: only stdin block found in the input"
    );
    assert_eq!(Error::MalformedArguments.message(), "malformed arguments: missing closing quote");
    assert_eq!(Error::InvalidNumberOfArguments(2).message(), "invalid number of arguments");
    assert_eq!(Error::UnknownCommand("x".to_string()).message(), "unknown command: x");
}

#[test]
fn chat_errors_are_told_to_the_user() {
    assert_eq!(
        Error::Runbot(runbot::error::Error::UnknownLanguageName(name("go"))).reply(),
        "`go` ？うーん..."
    );
    assert_eq!(
        Error::Runbot(runbot::error::Error::UnknownCompilerName(CompilerName::from_string(
            "tcc".to_string()
        )))
        .reply(),
        "`tcc` っ て 何 ？ 笑"
    );
    assert_eq!(
        Error::Runbot(runbot::error::Error::UnknownCompilerSpec(CompilerSpec::from_string(
            "x".to_string()
        )))
        .reply(),
        "`x` とはなんですか？普通、`x` とはならないとおもうのですが..."
    );
    assert_eq!(
        Error::Runbot(runbot::error::Error::UnmappedLanguage(name("cobol"))).reply(),
        "`cobol` に対応するコンパイラが決まっていない"
    );
    assert_eq!(
        Error::Runbot(runbot::error::Error::NoCompilerSpecified).reply(),
        "どのコンパイラを使えばいいかわかんないよ〜"
    );
    assert_eq!(
        Error::Runbot(runbot::error::Error::RemapMismatch(
            CompilerName::from_string("gcc".to_string()),
            name("rust")
        ))
        .reply(),
        "や、`rust` は `gcc` でコンパイルできないよ"
    );
    assert_eq!(
        Error::Runbot(runbot::error::Error::Database("down".to_string())).reply(),
        "ごめん"
    );
    assert_eq!(
        Error::InvalidCodeInput(ParseCodeInputError::NoCodeBlockFound).reply(),
        "コードの入力がおかしいよ"
    );
    assert_eq!(Error::MalformedArguments.reply(), "ちょっと、いたずらしないでください");
    assert_eq!(Error::InvalidNumberOfArguments(12).reply(), "12個の引数が必要だよ");
    assert_eq!(Error::UnknownCommand("dance".to_string()).reply(), "`dance`、完全に理解した");
    assert_eq!(Error::CommandIsMissing.reply(), "？");
}
