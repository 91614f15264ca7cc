//! What a message asks of a bot that keeps its settings in memory.

use crate::chat::command::{
    is_word, lines, lines_of, shell_split, split_words, strip_prefix, stripped_prefix,
};
use crate::code_input::{
    chars_of, slice, split, split_once, text_of, trim, trimmed, CodeBlock, CodeBlockView,
};
use crate::chat::display::{strip_ansi_escapes, stripped_text};
use crate::context::{join, joined};
use crate::memory::{
    first_pick, lookup, CompilerId, CompilerPredicate, Setting, SettingView,
};
use crate::model::compiler_options::string_views;
use crate::wandbox::compile::{text_view, Request, RequestView, Response};
use crate::wandbox::list;
use vstd::prelude::*;

verus! {

/// A text without the backticks around it.
pub open spec fn without_fences(s: Seq<char>) -> Seq<char> {
    strip_end(strip_start(s))
}

/// A text without the backticks it begins with.
pub open spec fn strip_start(s: Seq<char>) -> Seq<char>
    decreases s.len(),
{
    if s.len() > 0 && s[0] == '`' {
        strip_start(s.skip(1))
    } else {
        s
    }
}

/// A text without the backticks it ends with.
pub open spec fn strip_end(s: Seq<char>) -> Seq<char>
    decreases s.len(),
{
    if s.len() > 0 && s.last() == '`' {
        strip_end(s.drop_last())
    } else {
        s
    }
}

/// The block that a text is, read loosely: the backticks around it are
/// dropped, however many there are; the first line, where there is more than
/// one line and the first is not blank, is the label.
pub open spec fn loose_block(s: Seq<char>) -> CodeBlockView {
    let t = without_fences(s);
    match split_once(t, seq!['\n']) {
        Some((head, rest)) => if trimmed(head).len() == 0 {
            CodeBlockView { language: None, code: rest }
        } else {
            CodeBlockView { language: Some(trimmed(head)), code: rest }
        },
        None => CodeBlockView { language: None, code: t },
    }
}

/// Reads a text loosely as a block.
pub fn read_block(s: &str) -> (r: CodeBlock)
    ensures
        r@ == loose_block(s@),
{
    let chars = chars_of(s);
    let mut from: usize = 0;
    assert(chars@.skip(0) == chars@);
    while from < chars.len() && chars[from] == '`'
        invariant
            0 <= from <= chars.len(),
            strip_start(chars@) == strip_start(chars@.skip(from as int)),
        decreases chars.len() - from,
    {
        assert(chars@.skip(from as int).skip(1) == chars@.skip(from + 1));
        from = from + 1;
    }
    assert(strip_start(chars@) == chars@.skip(from as int));
    let mut to: usize = chars.len();
    let ghost started = chars@.skip(from as int);
    assert(started == chars@.subrange(from as int, to as int));
    while to > from && chars[to - 1] == '`'
        invariant
            from <= to <= chars.len(),
            started == chars@.skip(from as int),
            strip_end(started) == strip_end(chars@.subrange(from as int, to as int)),
        decreases to - from,
    {
        assert(chars@.subrange(from as int, to as int).drop_last() == chars@.subrange(
            from as int,
            to - 1,
        ));
        to = to - 1;
    }
    assert(strip_end(started) == chars@.subrange(from as int, to as int));
    let t = slice(&chars, from, to);
    let mut newline: Vec<char> = Vec::new();
    newline.push('\n');
    assert(newline@ =~= seq!['\n']);
    match split(&t, &newline) {
        Some((head, rest)) => {
            let label = trim(&head);
            if label.len() == 0 {
                CodeBlock::new(None, text_of(&rest))
            } else {
                CodeBlock::new(Some(text_of(&label)), text_of(&rest))
            }
        },
        None => CodeBlock::new(None, text_of(&t)),
    }
}

/// What a bot that keeps its settings in memory does about a message.
#[derive(Debug)]
pub enum Plan {
    /// Nothing.
    Nothing,
    /// Say that it does not understand.
    Unhandled,
    /// Tell what it can do.
    Help,
    /// Show the settings.
    ShowSetting,
    /// Lay a change over the settings, of the room or of the community.
    Change(Setting),
    /// Ask the compile service for its languages.
    ListLanguages,
    /// Ask the compile service for the compilers of a language.
    List(String),
    /// Say what it is about to do, then ask the compile service to compile
    /// and run.
    Compile { says: Vec<String>, request: Request },
}

/// A plan as plain values.
pub enum PlanView {
    Nothing,
    Unhandled,
    Help,
    ShowSetting,
    Change(SettingView),
    ListLanguages,
    List(Seq<char>),
    Compile { says: Seq<Seq<char>>, request: RequestView },
}

impl View for Plan {
    type V = PlanView;

    open spec fn view(&self) -> PlanView {
        match self {
            Plan::Nothing => PlanView::Nothing,
            Plan::Unhandled => PlanView::Unhandled,
            Plan::Help => PlanView::Help,
            Plan::ShowSetting => PlanView::ShowSetting,
            Plan::Change(setting) => PlanView::Change(setting@),
            Plan::ListLanguages => PlanView::ListLanguages,
            Plan::List(language) => PlanView::List(language@),
            Plan::Compile { says, request } => PlanView::Compile {
                says: string_views(says@),
                request: request@,
            },
        }
    }
}

/// What is done about a message: whether the bot shows that it has seen
/// the message, whether the message speaks of the whole community, and the
/// plan.
#[derive(Debug)]
pub struct Handled {
    pub look: bool,
    pub is_global: bool,
    pub plan: Plan,
}

/// The options of the first predicate that picks the compiler, if one
/// does.
pub open spec fn picked(options: Seq<(Seq<char>, Seq<Seq<char>>)>, name: Seq<char>) -> Option<
    Seq<Seq<char>>,
> {
    if exists|i: int| first_pick(options, name, i) {
        Some(options[choose|i: int| first_pick(options, name, i)].1)
    } else {
        None
    }
}

/// The plan for a run. The compiler is the one that the settings give for
/// the text that names it, or, where they give none, the text itself; the
/// text is what was written behind the command, else the label of the block.
/// The options are those written behind the command, else the default
/// options for the compiler, else none. The bot says which compiler the
/// settings gave, and which default options there are.
pub open spec fn compile_plan(
    setting: SettingView,
    spec: Option<Seq<char>>,
    options: Option<Seq<Seq<char>>>,
    block: CodeBlockView,
    save: bool,
) -> PlanView {
    let named = match spec {
        Some(s) => Some(s),
        None => block.language,
    };
    match named {
        None => PlanView::Unhandled,
        Some(text) => {
            let mapped = lookup(setting.language_map, text);
            let compiler = match mapped {
                Some(name) => name,
                None => text,
            };
            let defaults = picked(setting.default_compiler_options, compiler);
            PlanView::Compile {
                says: match mapped {
                    Some(name) => seq!["`"@ + name + "`でコンパイルするよ！"@],
                    None => Seq::empty(),
                } + match defaults {
                    Some(d) => seq!["`"@ + joined(d, " "@) + "`をオプションとして渡すよ！"@],
                    None => Seq::empty(),
                },
                request: RequestView {
                    compiler,
                    code: block.code,
                    codes: Seq::empty(),
                    options: None,
                    stdin: None,
                    compiler_option_raw: Some(
                        match options {
                            Some(o) => joined(o, "\n"@),
                            None => match defaults {
                                Some(d) => joined(d, "\n"@),
                                None => Seq::empty(),
                            },
                        },
                    ),
                    runtime_option_raw: None,
                    save,
                },
            }
        },
    }
}

/// A change of one part of the settings.
pub open spec fn change(
    auto: Option<bool>,
    auto_save: Option<bool>,
    language_map: Seq<(Seq<char>, Seq<char>)>,
    default_compiler_options: Seq<(Seq<char>, Seq<Seq<char>>)>,
) -> PlanView {
    PlanView::Change(SettingView { auto, auto_save, language_map, default_compiler_options })
}

/// The plan for a command with its arguments and the text below it.
pub open spec fn command_plan(
    setting: SettingView,
    command: Seq<char>,
    arguments: Seq<Seq<char>>,
    body: Seq<char>,
) -> PlanView {
    if command == "help"@ {
        PlanView::Help
    } else if command == "show-setting"@ {
        PlanView::ShowSetting
    } else if command == "auto"@ {
        change(Some(true), None, Seq::empty(), Seq::empty())
    } else if command == "no-auto"@ {
        change(Some(false), None, Seq::empty(), Seq::empty())
    } else if command == "auto-save"@ {
        change(None, Some(true), Seq::empty(), Seq::empty())
    } else if command == "no-auto-save"@ {
        change(None, Some(false), Seq::empty(), Seq::empty())
    } else if command == "remap"@ {
        if arguments.len() == 2 {
            change(None, None, seq![(arguments[0], arguments[1])], Seq::empty())
        } else {
            PlanView::Unhandled
        }
    } else if command == "default-options"@ {
        if arguments.len() >= 1 {
            change(None, None, Seq::empty(), seq![(arguments[0], arguments.skip(1))])
        } else {
            PlanView::Unhandled
        }
    } else if command == "list-languages"@ {
        PlanView::ListLanguages
    } else if command == "list"@ {
        if arguments.len() == 1 {
            PlanView::List(arguments[0])
        } else {
            PlanView::Unhandled
        }
    } else if command == "run"@ || command == "run-save"@ {
        compile_plan(
            setting,
            if arguments.len() > 0 {
                Some(arguments[0])
            } else {
                None
            },
            if arguments.len() > 1 {
                Some(arguments.skip(1))
            } else {
                None
            },
            loose_block(body),
            command == "run-save"@,
        )
    } else {
        PlanView::Unhandled
    }
}

/// Whether a text begins and ends with a fence.
pub open spec fn fenced_text(s: Seq<char>) -> bool {
    s.len() >= 3 && s.take(3) == seq!['`', '`', '`'] && s.skip(s.len() - 3) == seq![
        '`',
        '`',
        '`',
    ]
}

/// What is done about a message, given the settings that its room reads.
/// A message whose first line begins with `!runbot` is a command. Any other
/// message is run as code where running is switched on and the message is
/// fenced, and is let alone otherwise.
pub open spec fn handled(setting: SettingView, content: Seq<char>) -> (bool, bool, PlanView) {
    let all = lines_of(content);
    match stripped_prefix(all[0], "!runbot"@) {
        Some(line) => {
            let (is_global, line) = match stripped_prefix(trimmed(line), "global"@) {
                Some(rest) => (true, rest),
                None => (false, line),
            };
            match shell_split(line) {
                None => (true, is_global, PlanView::Unhandled),
                Some(words) => if words.len() == 0 {
                    (true, is_global, PlanView::Unhandled)
                } else {
                    (
                        true,
                        is_global,
                        command_plan(
                            setting,
                            words[0],
                            words.skip(1),
                            joined(all.skip(1), "\n"@),
                        ),
                    )
                },
            }
        },
        None => if setting.auto() && fenced_text(content) {
            (
                true,
                false,
                compile_plan(setting, None, None, loose_block(content), setting.auto_save()),
            )
        } else {
            (false, false, PlanView::Nothing)
        },
    }
}

/// The texts from the second on.
fn tail(texts: &Vec<String>) -> (r: Vec<String>)
    requires
        texts.len() >= 1,
    ensures
        string_views(r@) == string_views(texts@).skip(1),
{
    let mut rest: Vec<String> = Vec::new();
    let mut i: usize = 1;
    while i < texts.len()
        invariant
            1 <= i <= texts.len(),
            rest.len() == i - 1,
            forall|j: int| 0 <= j < rest.len() ==> (#[trigger] rest[j])@ == texts[j + 1]@,
        decreases texts.len() - i,
    {
        rest.push(texts[i].clone());
        i = i + 1;
    }
    assert(string_views(rest@) =~= string_views(texts@).skip(1));
    rest
}

/// Makes the plan for a run.
fn plan_compile(
    setting: &Setting,
    spec: Option<String>,
    options: Option<Vec<String>>,
    block: CodeBlock,
    save: bool,
) -> (r: Plan)
    ensures
        r@ == compile_plan(
            setting@,
            crate::wandbox::compile::text_view(spec),
            match options {
                Some(o) => Some(string_views(o@)),
                None => None,
            },
            block@,
            save,
        ),
{
    let code = block.clone().into_code();
    let named = match spec {
        Some(s) => Some(s),
        None => match code.language() {
            Some(l) => Some(l.as_string().clone()),
            None => None,
        },
    };
    let text = match named {
        Some(text) => text,
        None => {
            return Plan::Unhandled;
        },
    };
    let mut says: Vec<String> = Vec::new();
    let compiler = match setting.compiler_for(&text) {
        Some(name) => {
            says.push(String::from_str("`").concat(name.as_str()).concat("`でコンパイルするよ！"));
            name.clone()
        },
        None => text,
    };
    let ghost first = string_views(says@);
    let defaults = setting.default_options(compiler.as_str());
    proof {
        let list = setting@.default_compiler_options;
        match defaults {
            Some(d) => {
                let i = choose|i: int|
                    first_pick(list, compiler@, i) && list[i].1 == string_views(d@);
                let w = choose|w: int| first_pick(list, compiler@, w);
                if w < i {
                    assert(!crate::memory::holds_text(compiler@, list[w].0));
                } else if i < w {
                    assert(!crate::memory::holds_text(compiler@, list[i].0));
                }
            },
            None => {
                if exists|i: int| first_pick(list, compiler@, i) {
                    let i = choose|i: int| first_pick(list, compiler@, i);
                    assert(!crate::memory::holds_text(compiler@, list[i].0));
                }
            },
        }
    }
    let raw = match &options {
        Some(o) => join(o, "\n"),
        None => match defaults {
            Some(d) => join(d, "\n"),
            None => String::new(),
        },
    };
    match defaults {
        Some(d) => {
            says.push(
                String::from_str("`").concat(join(d, " ").as_str()).concat(
                    "`をオプションとして渡すよ！",
                ),
            );
        },
        None => {},
    }
    proof {
        assert(string_views(says@) =~= first + match picked(
            setting@.default_compiler_options,
            compiler@,
        ) {
            Some(d) => seq!["`"@ + joined(d, " "@) + "`をオプションとして渡すよ！"@],
            None => Seq::empty(),
        });
        assert(first =~= match lookup(setting@.language_map, text@) {
            Some(name) => seq!["`"@ + name + "`でコンパイルするよ！"@],
            None => Seq::empty(),
        });
    }
    let request = Request {
        compiler,
        code: code.text().clone(),
        codes: Vec::new(),
        options: None,
        stdin: None,
        compiler_option_raw: Some(raw),
        runtime_option_raw: None,
        save,
    };
    assert(request@.codes =~= Seq::empty());
    Plan::Compile { says, request }
}

/// Makes the plan for a command.
fn plan_command(setting: &Setting, words: &Vec<String>, body: &str) -> (r: Plan)
    requires
        words.len() >= 1,
    ensures
        r@ == command_plan(setting@, words[0]@, string_views(words@).skip(1), body@),
{
    let command = &words[0];
    let ghost arguments = string_views(words@).skip(1);
    assert(arguments.len() == words.len() - 1);
    assert(forall|j: int| 0 <= j < arguments.len() ==> arguments[j] == words[j + 1]@);
    if is_word(command, "help") {
        Plan::Help
    } else if is_word(command, "show-setting") {
        Plan::ShowSetting
    } else if is_word(command, "auto") {
        Plan::Change(Setting::with_auto(true))
    } else if is_word(command, "no-auto") {
        Plan::Change(Setting::with_auto(false))
    } else if is_word(command, "auto-save") {
        Plan::Change(Setting::with_auto_save(true))
    } else if is_word(command, "no-auto-save") {
        Plan::Change(Setting::with_auto_save(false))
    } else if is_word(command, "remap") {
        if words.len() == 3 {
            Plan::Change(
                Setting::with_language(words[1].clone(), CompilerId::new(words[2].as_str())),
            )
        } else {
            Plan::Unhandled
        }
    } else if is_word(command, "default-options") {
        if words.len() >= 2 {
            let rest = tail(words);
            let options = tail(&rest);
            assert(string_views(options@) =~= arguments.skip(1));
            Plan::Change(
                Setting::with_default_options(
                    CompilerPredicate::NameSubstring(words[1].clone()),
                    options,
                ),
            )
        } else {
            Plan::Unhandled
        }
    } else if is_word(command, "list-languages") {
        Plan::ListLanguages
    } else if is_word(command, "list") {
        if words.len() == 2 {
            Plan::List(words[1].clone())
        } else {
            Plan::Unhandled
        }
    } else if is_word(command, "run") || is_word(command, "run-save") {
        let save = is_word(command, "run-save");
        let spec = if words.len() > 1 {
            Some(words[1].clone())
        } else {
            None
        };
        let options = if words.len() > 2 {
            let rest = tail(words);
            let options = tail(&rest);
            assert(string_views(options@) =~= arguments.skip(1));
            Some(options)
        } else {
            None
        };
        plan_compile(setting, spec, options, read_block(body), save)
    } else {
        Plan::Unhandled
    }
}

/// Whether a text begins and ends with a fence.
fn is_fenced(chars: &Vec<char>) -> (r: bool)
    ensures
        r == fenced_text(chars@),
{
    let n = chars.len();
    if n < 3 {
        return false;
    }
    let ghost fence = seq!['`', '`', '`'];
    let begins = chars[0] == '`' && chars[1] == '`' && chars[2] == '`';
    let ends = chars[n - 3] == '`' && chars[n - 2] == '`' && chars[n - 1] == '`';
    proof {
        if begins {
            assert(chars@.take(3) =~= fence);
        } else {
            assert(chars@.take(3)[0] == chars[0] && chars@.take(3)[1] == chars[1]
                && chars@.take(3)[2] == chars[2]);
        }
        if ends {
            assert(chars@.skip(n - 3) =~= fence);
        } else {
            assert(chars@.skip(n - 3)[0] == chars[n - 3] && chars@.skip(n - 3)[1] == chars[n - 2]
                && chars@.skip(n - 3)[2] == chars[n - 1]);
        }
    }
    begins && ends
}

/// Decides what is done about a message, given the settings that its room
/// reads. The message must not be empty.
pub fn handle(setting: &Setting, content: &str) -> (r: Handled)
    requires
        content@.len() > 0,
    ensures
        (r.look, r.is_global, r.plan@) == handled(setting@, content@),
{
    let chars = chars_of(content);
    let fenced = is_fenced(&chars);
    let found = lines(chars);
    proof {
        reveal_with_fuel(lines_of, 2);
        assert(lines_of(content@).len() > 0);
        assert(found@.map_values(|l: Vec<char>| l@).len() == found@.len());
    }
    let ghost all = found@.map_values(|l: Vec<char>| l@);
    assert(all[0] == found[0]@);
    match strip_prefix(&found[0], "!runbot") {
        Some(line) => {
            let mut below: Vec<String> = Vec::new();
            let mut i: usize = 1;
            while i < found.len()
                invariant
                    1 <= i <= found.len(),
                    below.len() == i - 1,
                    forall|j: int| 0 <= j < below.len() ==> (#[trigger] below[j])@ == found[j + 1]@,
                decreases found.len() - i,
            {
                below.push(text_of(&found[i]));
                i = i + 1;
            }
            assert(string_views(below@) =~= all.skip(1));
            let body = join(&below, "\n");
            let (is_global, line) = match strip_prefix(&trim(&line), "global") {
                Some(rest) => (true, text_of(&rest)),
                None => (false, text_of(&line)),
            };
            match split_words(line.as_str()) {
                None => Handled { look: true, is_global, plan: Plan::Unhandled },
                Some(words) => {
                    if words.len() == 0 {
                        Handled { look: true, is_global, plan: Plan::Unhandled }
                    } else {
                        Handled {
                            look: true,
                            is_global,
                            plan: plan_command(setting, &words, body.as_str()),
                        }
                    }
                },
            }
        },
        None => {
            if setting.auto() && fenced {
                Handled {
                    look: true,
                    is_global: false,
                    plan: plan_compile(
                        setting,
                        None,
                        None,
                        read_block(content),
                        setting.auto_save(),
                    ),
                }
            } else {
                Handled { look: false, is_global: false, plan: Plan::Nothing }
            }
        },
    }
}

/// A message of the compiler or of the program, fenced, on a line of its
/// own; nothing where there is none.
pub open spec fn fenced_line(message: Option<Seq<char>>) -> Seq<char> {
    match message {
        Some(m) => "```"@ + m + "```\n"@,
        None => Seq::empty(),
    }
}

/// A text behind some words, on a line of its own; nothing where there is
/// none.
pub open spec fn worded_line(words: Seq<char>, text: Option<Seq<char>>) -> Seq<char> {
    match text {
        Some(t) => words + t + "\n"@,
        None => Seq::empty(),
    }
}

/// What the compile service said of a run, in words, before the ANSI escape
/// sequences are taken out.
pub open spec fn response_text(response: Response) -> Seq<char> {
    fenced_line(text_view(response.compiler_message)) + fenced_line(
        text_view(response.program_message),
    ) + worded_line("exited with signal: "@, text_view(response.signal)) + worded_line(
        "exited with status code "@,
        text_view(response.status),
    ) + worded_line(Seq::empty(), text_view(response.url))
}

fn fenced_part(message: &Option<String>) -> (r: String)
    ensures
        r@ == fenced_line(text_view(*message)),
{
    match message {
        Some(m) => String::from_str("```").concat(m.as_str()).concat("```\n"),
        None => String::new(),
    }
}

fn worded_part(words: &str, text: &Option<String>) -> (r: String)
    ensures
        r@ == worded_line(words@, text_view(*text)),
{
    match text {
        Some(t) => String::from_str(words).concat(t.as_str()).concat("\n"),
        None => String::new(),
    }
}

/// Tells in words what the compile service said of a run, without ANSI
/// escape sequences.
pub fn say_compile_result(response: &Response) -> (r: Option<String>)
    ensures
        match r {
            Some(text) => stripped_text(response_text(*response)) == Some(text@),
            None => stripped_text(response_text(*response)) is None,
        },
{
    let url = worded_part("", &response.url);
    assert(""@ =~= Seq::<char>::empty()) by {
        reveal_strlit("");
    }
    let text = fenced_part(&response.compiler_message).concat(
        fenced_part(&response.program_message).as_str(),
    ).concat(worded_part("exited with signal: ", &response.signal).as_str()).concat(
        worded_part("exited with status code ", &response.status).as_str(),
    ).concat(url.as_str());
    strip_ansi_escapes(text.as_str())
}

/// Whether a text is among texts.
pub open spec fn among(texts: Seq<Seq<char>>, text: Seq<char>) -> bool {
    exists|i: int| 0 <= i < texts.len() && #[trigger] texts[i] == text
}

/// Texts without repetitions: each text where it stands first.
pub open spec fn distinct(texts: Seq<Seq<char>>) -> Seq<Seq<char>>
    decreases texts.len(),
{
    if texts.len() == 0 {
        Seq::empty()
    } else {
        let earlier = distinct(texts.drop_last());
        if among(earlier, texts.last()) {
            earlier
        } else {
            earlier.push(texts.last())
        }
    }
}

/// The languages of the compilers, compiler by compiler.
pub open spec fn languages_of(compilers: Seq<list::Compiler>) -> Seq<Seq<char>> {
    compilers.map_values(|c: list::Compiler| c.language@)
}

/// The languages that the compile service offers, each once, a line each.
pub fn languages_text(offered: &list::Response) -> (r: String)
    ensures
        r@ == joined(distinct(languages_of(offered.0@)), "\n"@),
{
    let mut found: Vec<String> = Vec::new();
    let mut i: usize = 0;
    while i < offered.0.len()
        invariant
            0 <= i <= offered.0.len(),
            string_views(found@) == distinct(languages_of(offered.0@).take(i as int)),
        decreases offered.0.len() - i,
    {
        let language = &offered.0[i].language;
        let ghost before = string_views(found@);
        let ghost given = languages_of(offered.0@).take(i + 1);
        proof {
            assert(given.drop_last() == languages_of(offered.0@).take(i as int));
            assert(given.last() == language@);
        }
        let mut known = false;
        let mut k: usize = 0;
        while k < found.len()
            invariant
                0 <= k <= found.len(),
                known == exists|j: int| 0 <= j < k && (#[trigger] found[j])@ == language@,
            decreases found.len() - k,
        {
            if found[k] == *language {
                known = true;
            }
            k = k + 1;
        }
        proof {
            if known {
                let j = choose|j: int| 0 <= j < found.len() && (#[trigger] found[j])@ == language@;
                assert(before[j] == language@);
            }
            if among(before, language@) {
                let j = choose|j: int| 0 <= j < before.len() && #[trigger] before[j] == language@;
                assert(found[j]@ == language@);
            }
        }
        if !known {
            found.push(language.clone());
            assert(string_views(found@) =~= before.push(language@));
        }
        i = i + 1;
    }
    assert(languages_of(offered.0@).take(i as int) == languages_of(offered.0@));
    join(&found, "\n")
}

/// The line that tells of a compiler: its name, the name it is shown by,
/// and its language.
pub open spec fn compiler_line(compiler: list::Compiler) -> Seq<char> {
    compiler.name@ + ": "@ + compiler.display_name@ + " ("@ + compiler.language@ + ")"@
}

/// Picks the compilers of a language, which is taken letter for letter.
pub open spec fn of_language(language: Seq<char>) -> spec_fn(list::Compiler) -> bool {
    |c: list::Compiler| c.language@ == language
}

/// The compilers that the compile service offers for a language, a line
/// each.
pub fn compilers_text(offered: &list::Response, language: &String) -> (r: String)
    ensures
        r@ == joined(
            offered.0@.filter(of_language(language@)).map_values(
                |c: list::Compiler| compiler_line(c),
            ),
            "\n"@,
        ),
{
    let mut found: Vec<String> = Vec::new();
    let mut i: usize = 0;
    proof {
        reveal(Seq::filter);
    }
    assert(offered.0@.take(0).filter(of_language(language@)) =~= Seq::empty());
    while i < offered.0.len()
        invariant
            0 <= i <= offered.0.len(),
            string_views(found@) == offered.0@.take(i as int).filter(
                of_language(language@),
            ).map_values(|c: list::Compiler| compiler_line(c)),
        decreases offered.0.len() - i,
    {
        let compiler = &offered.0[i];
        let ghost before = string_views(found@);
        proof {
            assert(offered.0@.take(i + 1) == offered.0@.take(i as int).push(offered.0[i as int]));
            offered.0@.take(i as int).lemma_filter_push(
                offered.0[i as int],
                of_language(language@),
            );
        }
        if compiler.language == *language {
            let line = compiler.name.clone().concat(": ").concat(
                compiler.display_name.as_str(),
            ).concat(" (").concat(compiler.language.as_str()).concat(")");
            found.push(line);
            assert(string_views(found@) =~= before.push(compiler_line(offered.0[i as int])));
            assert(offered.0@.take(i as int).filter(of_language(language@)).push(
                offered.0[i as int],
            ).map_values(|c: list::Compiler| compiler_line(c)) =~= before.push(
                compiler_line(offered.0[i as int]),
            ));
        }
        i = i + 1;
    }
    assert(offered.0@.take(i as int) == offered.0@);
    join(&found, "\n")
}

} // verus!
