use crate::action::dump_setting::Output;
use crate::code_input::{chars_of, slice, text_of};
use crate::compile_result::CompileResult;
use crate::context::{join, joined};
use crate::model::compiler::Compiler;
use crate::model::compiler_options::string_views;
use crate::model::language::{Language, LanguageName};
use crate::setting::{decimal, decimal_text};
use vstd::prelude::*;
use vstd::utf8::{decode_utf8, encode_utf8, valid_utf8};

verus! {

/// A table of two columns in the making, kept by `tabular`.
#[verifier::external_body]
pub struct Layout {
    table: tabular::Table,
}

/// The lines of a table, in the order they were added: a row is a line of
/// two texts, a heading a line of one.
pub uninterp spec fn table_lines(layout: Layout) -> Seq<Seq<Seq<char>>>;

/// The text that `tabular` lays the lines of a table out as, with two
/// columns that are aligned to the left and two blanks between them.
pub uninterp spec fn table_text(lines: Seq<Seq<Seq<char>>>) -> Seq<char>;

/// What `strip_ansi_escapes::strip` leaves of a sequence of bytes, unless
/// it fails.
pub uninterp spec fn stripped(data: Seq<u8>) -> Option<Seq<u8>>;

/// A table of two columns, aligned to the left, without lines yet:
/// `tabular::Table::new`.
#[verifier::external_body]
fn new_table() -> (r: Layout)
    ensures
        table_lines(r) == Seq::<Seq<Seq<char>>>::empty(),
{
    Layout { table: tabular::Table::new("{:<}  {:<}") }
}

/// Adds a row of two cells: `tabular::Table::add_row`, of a row made with
/// `tabular::Row::with_cell`.
#[verifier::external_body]
fn add_row(layout: &mut Layout, left: &str, right: &str)
    ensures
        table_lines(*final(layout)) == table_lines(*old(layout)).push(seq![left@, right@]),
{
    layout.table.add_row(tabular::Row::new().with_cell(left).with_cell(right));
}

/// Adds a line that spans the columns: `tabular::Table::add_heading`.
#[verifier::external_body]
fn add_heading(layout: &mut Layout, heading: &str)
    ensures
        table_lines(*final(layout)) == table_lines(*old(layout)).push(seq![heading@]),
{
    layout.table.add_heading(heading);
}

/// The table as text: what `tabular::Table` displays as.
#[verifier::external_body]
fn lay_out(layout: &Layout) -> (r: String)
    ensures
        r@ == table_text(table_lines(*layout)),
{
    format!("{}", layout.table)
}

/// Takes the ANSI escape sequences out of bytes: `strip_ansi_escapes::strip`,
/// without its error.
#[verifier::external_body]
fn strip(data: &[u8]) -> (r: Option<Vec<u8>>)
    ensures
        match r {
            Some(bytes) => stripped(data@) == Some(bytes@),
            None => stripped(data@) is None,
        },
{
    strip_ansi_escapes::strip(data).ok()
}

/// Reads bytes as text: `String::from_utf8`, without its error. It is a
/// text exactly when the bytes are UTF-8.
#[verifier::external_body]
fn from_utf8(bytes: Vec<u8>) -> (r: Option<String>)
    ensures
        match r {
            Some(text) => valid_utf8(bytes@) && text@ == decode_utf8(bytes@),
            None => !valid_utf8(bytes@),
        },
{
    String::from_utf8(bytes).ok()
}

/// A text without its ANSI escape sequences, where what is left is a text.
pub open spec fn stripped_text(text: Seq<char>) -> Option<Seq<char>> {
    match stripped(encode_utf8(text)) {
        Some(bytes) => if valid_utf8(bytes) {
            Some(decode_utf8(bytes))
        } else {
            None
        },
        None => None,
    }
}

/// Takes the ANSI escape sequences out of a text.
pub fn strip_ansi_escapes(s: &str) -> (r: Option<String>)
    ensures
        match r {
            Some(text) => stripped_text(s@) == Some(text@),
            None => stripped_text(s@) is None,
        },
{
    match strip(s.as_bytes()) {
        Some(bytes) => from_utf8(bytes),
        None => None,
    }
}

/// The line of a compiler: its name and its version, `unknown` where it has
/// none.
pub open spec fn compiler_line(compiler: Compiler) -> Seq<Seq<char>> {
    seq![
        compiler@.name,
        match compiler@.version {
            Some(v) => v,
            None => "unknown"@,
        },
    ]
}

/// The compilers as a table of names and versions.
pub fn compilers_table(compilers: &Vec<Compiler>) -> (r: String)
    ensures
        r@ == table_text(compilers@.map_values(|c: Compiler| compiler_line(c))),
{
    let mut table = new_table();
    let mut i: usize = 0;
    while i < compilers.len()
        invariant
            0 <= i <= compilers.len(),
            table_lines(table) == compilers@.take(i as int).map_values(
                |c: Compiler| compiler_line(c),
            ),
        decreases compilers.len() - i,
    {
        let compiler = &compilers[i];
        let ghost before = table_lines(table);
        match compiler.version() {
            Some(v) => {
                add_row(&mut table, compiler.name().as_string().as_str(), v.as_string().as_str());
                assert(seq![compiler@.name, v@] =~= compiler_line(compilers[i as int]));
            },
            None => {
                add_row(&mut table, compiler.name().as_string().as_str(), "unknown");
                assert(seq![compiler@.name, "unknown"@] =~= compiler_line(compilers[i as int]));
            },
        }
        assert(table_lines(table) == before.push(compiler_line(compilers[i as int])));
        assert(compilers@.take(i + 1).map_values(|c: Compiler| compiler_line(c))
            =~= compilers@.take(i as int).map_values(|c: Compiler| compiler_line(c)).push(
            compiler_line(compilers[i as int]),
        ));
        i = i + 1;
    }
    assert(compilers@.take(i as int) == compilers@);
    lay_out(&table)
}

/// The line of a language: its name and its aliases, with commas between.
pub open spec fn language_line(language: Language) -> Seq<Seq<char>> {
    seq![language.spec_name(), joined(language.spec_aliases(), ","@)]
}

/// The texts of names.
fn name_texts(names: &Vec<LanguageName>) -> (r: Vec<String>)
    ensures
        string_views(r@) == crate::model::language::name_views(names@),
{
    let mut texts: Vec<String> = Vec::new();
    let mut i: usize = 0;
    while i < names.len()
        invariant
            0 <= i <= names.len(),
            texts.len() == i,
            forall|j: int| 0 <= j < i ==> (#[trigger] texts[j])@ == names[j]@,
        decreases names.len() - i,
    {
        texts.push(names[i].as_string().clone());
        i = i + 1;
    }
    assert(string_views(texts@) =~= crate::model::language::name_views(names@));
    texts
}

/// The languages as a table of names and aliases.
pub fn languages_table(languages: &Vec<Language>) -> (r: String)
    ensures
        r@ == table_text(languages@.map_values(|l: Language| language_line(l))),
{
    let mut table = new_table();
    let mut i: usize = 0;
    while i < languages.len()
        invariant
            0 <= i <= languages.len(),
            table_lines(table) == languages@.take(i as int).map_values(
                |l: Language| language_line(l),
            ),
        decreases languages.len() - i,
    {
        let language = &languages[i];
        let ghost before = table_lines(table);
        let aliases = join(&name_texts(language.aliases()), ",");
        add_row(&mut table, language.name().as_string().as_str(), aliases.as_str());
        assert(table_lines(table) == before.push(language_line(languages[i as int])));
        assert(languages@.take(i + 1).map_values(|l: Language| language_line(l))
            =~= languages@.take(i as int).map_values(|l: Language| language_line(l)).push(
            language_line(languages[i as int]),
        ));
        i = i + 1;
    }
    assert(languages@.take(i as int) == languages@);
    lay_out(&table)
}

/// A flag in words.
pub open spec fn flag_text(flag: bool) -> Seq<char> {
    if flag {
        "true"@
    } else {
        "false"@
    }
}

fn flag_word(flag: bool) -> (r: &'static str)
    ensures
        r@ == flag_text(flag),
{
    if flag {
        "true"
    } else {
        "false"
    }
}

/// The lines that tell the settings of a room: the two flags, a heading,
/// and each remapped language with its compiler.
pub open spec fn setting_lines(auto: bool, auto_save: bool, remap: Seq<(Seq<char>, Seq<char>)>) -> Seq<
    Seq<Seq<char>>,
> {
    seq![
        seq!["auto"@, flag_text(auto)],
        seq!["auto-save"@, flag_text(auto_save)],
        seq!["remap:"@],
    ] + remap.map_values(|p: (Seq<char>, Seq<char>)| seq![p.0, p.1])
}

/// The settings of a room as a table.
pub fn setting_table(output: &Output) -> (r: String)
    ensures
        r@ == table_text(setting_lines(output@.auto, output@.auto_save, output@.remap)),
{
    let mut table = new_table();
    add_row(&mut table, "auto", flag_word(output.auto));
    add_row(&mut table, "auto-save", flag_word(output.auto_save));
    add_heading(&mut table, "remap:");
    let ghost head = table_lines(table);
    assert(head =~= seq![
        seq!["auto"@, flag_text(output.auto)],
        seq!["auto-save"@, flag_text(output.auto_save)],
        seq!["remap:"@],
    ]);
    let mut i: usize = 0;
    while i < output.remap.len()
        invariant
            0 <= i <= output.remap.len(),
            table_lines(table) == head + output@.remap.take(i as int).map_values(
                |p: (Seq<char>, Seq<char>)| seq![p.0, p.1],
            ),
        decreases output.remap.len() - i,
    {
        let pair = &output.remap[i];
        let ghost before = table_lines(table);
        add_row(&mut table, pair.0.as_string().as_str(), pair.1.as_string().as_str());
        assert(output@.remap[i as int] == (pair.0@, pair.1@));
        assert(head + output@.remap.take(i + 1).map_values(
            |p: (Seq<char>, Seq<char>)| seq![p.0, p.1],
        ) =~= before.push(seq![pair.0@, pair.1@]));
        i = i + 1;
    }
    assert(output@.remap.take(i as int) == output@.remap);
    lay_out(&table)
}

/// A message of the compiler or of the program, fenced, on a line of its
/// own; nothing where there is none.
pub open spec fn fenced(message: Option<Seq<char>>) -> Seq<char> {
    match message {
        Some(m) => "```"@ + m + "```\n"@,
        None => Seq::empty(),
    }
}

/// The line that tells the signal; nothing where there is none.
pub open spec fn signal_line(signal: Option<Seq<char>>) -> Seq<char> {
    match signal {
        Some(s) => "exited with signal: "@ + s + "\n"@,
        None => Seq::empty(),
    }
}

/// The line that tells the exit status; nothing where there is none.
pub open spec fn status_line(status: Option<u32>) -> Seq<char> {
    match status {
        Some(s) => "exited with status code "@ + decimal(s as nat) + "\n"@,
        None => Seq::empty(),
    }
}

/// The line that gives the link; nothing where there is none.
pub open spec fn url_line(url: Option<Seq<char>>) -> Seq<char> {
    match url {
        Some(u) => u + "\n"@,
        None => Seq::empty(),
    }
}

/// A message without its ANSI escape sequences, where there is one and it
/// can be cleaned.
pub open spec fn cleaned(message: Option<Seq<char>>) -> Option<Seq<char>> {
    match message {
        Some(m) => stripped_text(m),
        None => None,
    }
}

/// What a run came to, in words: what the compiler said and what the
/// program printed, each fenced and without ANSI escape sequences, then the
/// signal, the exit status and the link, each on a line of its own and each
/// only where there is one. Nothing where a message cannot be cleaned.
pub open spec fn result_text(
    compiler_message: Option<Seq<char>>,
    program_message: Option<Seq<char>>,
    signal: Option<Seq<char>>,
    status: Option<u32>,
    url: Option<Seq<char>>,
) -> Option<Seq<char>> {
    if (compiler_message is Some && cleaned(compiler_message) is None) || (program_message
        is Some && cleaned(program_message) is None) {
        None
    } else {
        Some(
            fenced(cleaned(compiler_message)) + fenced(cleaned(program_message)) + signal_line(
                signal,
            ) + status_line(status) + url_line(url),
        )
    }
}

/// A message fenced and cleaned; the empty text where there is none; nothing
/// where it cannot be cleaned.
fn fenced_part(message: Option<&String>) -> (r: Option<String>)
    ensures
        match r {
            Some(part) => part@ == fenced(cleaned(crate::compile_result::borrowed_text(message)))
                && (message is Some ==> cleaned(crate::compile_result::borrowed_text(message))
                is Some),
            None => message is Some && cleaned(crate::compile_result::borrowed_text(message))
                is None,
        },
{
    match message {
        Some(m) => match strip_ansi_escapes(m.as_str()) {
            Some(clean) => {
                let part = String::from_str("```").concat(clean.as_str()).concat("```\n");
                Some(part)
            },
            None => None,
        },
        None => Some(String::new()),
    }
}

fn signal_part(signal: Option<&String>) -> (r: String)
    ensures
        r@ == signal_line(crate::compile_result::borrowed_text(signal)),
{
    match signal {
        Some(s) => String::from_str("exited with signal: ").concat(s.as_str()).concat("\n"),
        None => String::new(),
    }
}

fn status_part(status: Option<u32>) -> (r: String)
    ensures
        r@ == status_line(status),
{
    match status {
        Some(s) => {
            let number: u64 = s as u64;
            String::from_str("exited with status code ").concat(
                decimal_text(number).as_str(),
            ).concat("\n")
        },
        None => String::new(),
    }
}

fn url_part(url: Option<&String>) -> (r: String)
    ensures
        r@ == url_line(crate::compile_result::borrowed_text(url)),
{
    match url {
        Some(u) => u.clone().concat("\n"),
        None => String::new(),
    }
}

/// Tells in words what a run came to.
pub fn render_result<T: CompileResult>(result: &T) -> (r: Option<String>)
    ensures
        match r {
            Some(text) => result_text(
                result.spec_compiler_message(),
                result.spec_program_message(),
                result.spec_signal(),
                result.spec_status(),
                result.spec_url(),
            ) == Some(text@),
            None => result_text(
                result.spec_compiler_message(),
                result.spec_program_message(),
                result.spec_signal(),
                result.spec_status(),
                result.spec_url(),
            ) is None,
        },
{
    let compiler = match fenced_part(result.compiler_message()) {
        Some(part) => part,
        None => {
            return None;
        },
    };
    let program = match fenced_part(result.program_message()) {
        Some(part) => part,
        None => {
            return None;
        },
    };
    let signal = signal_part(result.signal());
    let status = status_part(result.status());
    let url = url_part(result.url());
    Some(
        compiler.concat(program.as_str()).concat(signal.as_str()).concat(status.as_str()).concat(
            url.as_str(),
        ),
    )
}

/// What a run came to, in words, with the ANSI escape sequences taken out
/// of the whole: the messages fenced, then the signal, the exit status and
/// the link, each on a line of its own and each only where there is one.
/// Nothing where the whole cannot be cleaned.
pub open spec fn printed_text(
    compiler_message: Option<Seq<char>>,
    program_message: Option<Seq<char>>,
    signal: Option<Seq<char>>,
    status: Option<u32>,
    url: Option<Seq<char>>,
) -> Option<Seq<char>> {
    stripped_text(
        fenced(compiler_message) + fenced(program_message) + signal_line(signal) + status_line(
            status,
        ) + url_line(url),
    )
}

fn plain_fenced_part(message: Option<&String>) -> (r: String)
    ensures
        r@ == fenced(crate::compile_result::borrowed_text(message)),
{
    match message {
        Some(m) => String::from_str("```").concat(m.as_str()).concat("```\n"),
        None => String::new(),
    }
}

/// Tells in words what a run came to, and takes the ANSI escape sequences
/// out of the whole.
pub fn print_result<T: CompileResult>(result: &T) -> (r: Option<String>)
    ensures
        match r {
            Some(text) => printed_text(
                result.spec_compiler_message(),
                result.spec_program_message(),
                result.spec_signal(),
                result.spec_status(),
                result.spec_url(),
            ) == Some(text@),
            None => printed_text(
                result.spec_compiler_message(),
                result.spec_program_message(),
                result.spec_signal(),
                result.spec_status(),
                result.spec_url(),
            ) is None,
        },
{
    let compiler = plain_fenced_part(result.compiler_message());
    let program = plain_fenced_part(result.program_message());
    let signal = signal_part(result.signal());
    let status = status_part(result.status());
    let url = url_part(result.url());
    let text = compiler.concat(program.as_str()).concat(signal.as_str()).concat(
        status.as_str(),
    ).concat(url.as_str());
    strip_ansi_escapes(text.as_str())
}

/// A text cut into pieces of `size` characters, the last one perhaps
/// shorter. The empty text has no pieces.
pub open spec fn pieces_of(text: Seq<char>, size: nat) -> Seq<Seq<char>>
    decreases text.len(),
{
    if text.len() == 0 || size == 0 {
        Seq::empty()
    } else if text.len() <= size {
        seq![text]
    } else {
        seq![text.take(size as int)] + pieces_of(text.skip(size as int), size)
    }
}

/// Cuts a text into pieces that a chat takes, of `size` characters at most.
pub fn pieces(text: &str, size: usize) -> (r: Vec<String>)
    requires
        size > 0,
    ensures
        string_views(r@) == pieces_of(text@, size as nat),
{
    let chars = chars_of(text);
    let mut found: Vec<String> = Vec::new();
    let mut from: usize = 0;
    assert(chars@.skip(0) == chars@);
    while from < chars.len()
        invariant
            size > 0,
            0 <= from <= chars.len(),
            chars@ == text@,
            pieces_of(text@, size as nat) == string_views(found@) + pieces_of(
                chars@.skip(from as int),
                size as nat,
            ),
        decreases chars.len() - from,
    {
        let ghost before = string_views(found@);
        let ghost rest = chars@.skip(from as int);
        let to = if chars.len() - from <= size {
            chars.len()
        } else {
            from + size
        };
        let piece = text_of(&slice(&chars, from, to));
        proof {
            assert(piece@ == rest.take(to - from));
            assert(rest.skip(to - from) == chars@.skip(to as int));
            if to == chars.len() {
                assert(rest.take(to - from) == rest);
                assert(pieces_of(chars@.skip(to as int), size as nat) == Seq::<
                    Seq<char>,
                >::empty());
                assert(pieces_of(rest, size as nat) =~= seq![piece@] + pieces_of(
                    chars@.skip(to as int),
                    size as nat,
                ));
            }
        }
        found.push(piece);
        proof {
            assert(string_views(found@) =~= before.push(piece@));
            assert(before + (seq![piece@] + pieces_of(chars@.skip(to as int), size as nat))
                =~= before.push(piece@) + pieces_of(chars@.skip(to as int), size as nat));
        }
        from = to;
    }
    assert(string_views(found@) + Seq::<Seq<char>>::empty() =~= string_views(found@));
    found
}

/// What the bot can do, as it tells it when asked for help.
pub fn help() -> (r: &'static str)
    ensures
        r@ == help_text(),
{
    "
`!runbot` のあとに `global` をつけると全チャンネルに対して設定ができるよ
```
!runbot help            -- これ
!runbot show-setting    -- 設定表示
!runbot auto            -- 自動実行設定
!runbot no-auto         -- 自動実行解除
!runbot auto-save       -- 自動実行時に保存する
!runbot no-auto-save    -- 自動実行時に保存しない
!runbot remap           -- 言語名とコンパイラの紐付けを上書き
!runbot list-languages  -- 言語を一覧
!runbot list            -- 言語に対応するコンパイラを一覧
!runbot run             -- 実行
!runbot run-save        -- 実行して保存
```
"
}

/// What the bot can do, as it tells it when asked for help.
pub open spec fn help_text() -> Seq<char> {
    "
`!runbot` のあとに `global` をつけると全チャンネルに対して設定ができるよ
```
!runbot help            -- これ
!runbot show-setting    -- 設定表示
!runbot auto            -- 自動実行設定
!runbot no-auto         -- 自動実行解除
!runbot auto-save       -- 自動実行時に保存する
!runbot no-auto-save    -- 自動実行時に保存しない
!runbot remap           -- 言語名とコンパイラの紐付けを上書き
!runbot list-languages  -- 言語を一覧
!runbot list            -- 言語に対応するコンパイラを一覧
!runbot run             -- 実行
!runbot run-save        -- 実行して保存
```
"@
}

/// A text between fences, so that a chat shows it as it stands.
pub fn code_block(text: &str) -> (r: String)
    ensures
        r@ == "```"@ + text@ + "```"@,
{
    String::from_str("```").concat(text).concat("```")
}

/// The words with which the bot turns down what it does not understand.
pub fn unhandled(message: &str) -> (r: String)
    ensures
        r@ == "わからん、"@ + message@,
{
    String::from_str("わからん、").concat(message)
}

} // verus!
