//! Code as it is posted in a chat: one fenced block, or two where one of them
//! is labelled `stdin` and holds the program's input.

use crate::model::code::Code;
use crate::model::language::LanguageName;
use crate::wandbox::compile::text_view;
use std::str::Chars;
use vstd::prelude::*;
use vstd::std_specs::iter::IteratorSpec;

verus! {

broadcast use vstd::string::group_string_axioms;

/// Whether a character is white space, as Unicode has it.
pub open spec fn is_space(c: char) -> bool {
    let n = c as u32;
    ||| 0x09 <= n <= 0x0d
    ||| n == 0x20
    ||| n == 0x85
    ||| n == 0xa0
    ||| n == 0x1680
    ||| 0x2000 <= n <= 0x200a
    ||| n == 0x2028
    ||| n == 0x2029
    ||| n == 0x202f
    ||| n == 0x205f
    ||| n == 0x3000
}

/// A text without the white space it begins with.
pub open spec fn trim_start(s: Seq<char>) -> Seq<char>
    decreases s.len(),
{
    if s.len() > 0 && is_space(s[0]) {
        trim_start(s.skip(1))
    } else {
        s
    }
}

/// A text without the white space it ends with.
pub open spec fn trim_end(s: Seq<char>) -> Seq<char>
    decreases s.len(),
{
    if s.len() > 0 && is_space(s.last()) {
        trim_end(s.drop_last())
    } else {
        s
    }
}

/// A text without the white space around it.
pub open spec fn trimmed(s: Seq<char>) -> Seq<char> {
    trim_end(trim_start(s))
}

/// Whether `pattern` stands in `s` at the place `i`.
pub open spec fn occurs_at(s: Seq<char>, pattern: Seq<char>, i: int) -> bool {
    0 <= i && i + pattern.len() <= s.len() && s.subrange(i, i + pattern.len()) == pattern
}

/// Whether `i` is the first place at which `pattern` stands in `s`.
pub open spec fn first_occurrence(s: Seq<char>, pattern: Seq<char>, i: int) -> bool {
    occurs_at(s, pattern, i) && forall|j: int| 0 <= j < i ==> !occurs_at(s, pattern, j)
}

/// The text before and the text after the first `pattern` in `s`, if there
/// is one.
pub open spec fn split_once(s: Seq<char>, pattern: Seq<char>) -> Option<(Seq<char>, Seq<char>)> {
    if exists|i: int| first_occurrence(s, pattern, i) {
        let i = choose|i: int| first_occurrence(s, pattern, i);
        Some((s.take(i), s.skip(i + pattern.len())))
    } else {
        None
    }
}

/// A fenced block of a message.
#[derive(Debug)]
pub struct CodeBlock {
    language: Option<String>,
    code: String,
}

/// A block as plain values: the label after the opening fence, if there is
/// one, and the text between the fences.
pub struct CodeBlockView {
    pub language: Option<Seq<char>>,
    pub code: Seq<char>,
}

impl View for CodeBlock {
    type V = CodeBlockView;

    closed spec fn view(&self) -> CodeBlockView {
        CodeBlockView { language: text_view(self.language), code: self.code@ }
    }
}

/// The fence that opens and closes a block.
pub open spec fn fence() -> Seq<char> {
    seq!['`', '`', '`']
}

/// The first block of a text and what follows it. The text must begin with
/// a fence, white space aside. Where the fence is followed, on its own line,
/// by a word without blanks, the word is the block's label and the code
/// begins on the next line; else the code begins right behind the fence.
/// The code ends before the next fence, which must be there.
pub open spec fn first_block(s: Seq<char>) -> Option<(CodeBlockView, Seq<char>)> {
    let t = trimmed(s);
    if t.len() >= 3 && t.take(3) == fence() {
        let opened = t.skip(3);
        let (language, body) = match split_once(opened, seq!['\n']) {
            Some((head, tail)) => if head.len() > 0 && !head.contains(' ') {
                (Some(head), tail)
            } else {
                (None, opened)
            },
            None => (None, opened),
        };
        match split_once(body, fence()) {
            Some((code, rest)) => Some((CodeBlockView { language, code }, rest)),
            None => None,
        }
    } else {
        None
    }
}

fn space(c: char) -> (r: bool)
    ensures
        r == is_space(c),
{
    let n = c as u32;
    (0x09 <= n && n <= 0x0d) || n == 0x20 || n == 0x85 || n == 0xa0 || n == 0x1680 || (0x2000 <= n
        && n <= 0x200a) || n == 0x2028 || n == 0x2029 || n == 0x202f || n == 0x205f || n == 0x3000
}

/// The characters of a text, one by one.
pub fn chars_of(s: &str) -> (r: Vec<char>)
    ensures
        r@ == s@,
{
    let mut chars: Vec<char> = Vec::new();
    let mut rest: Chars = s.chars();
    loop
        invariant
            chars.len() <= s@.len(),
            rest.remaining() == s@.skip(chars.len() as int),
            chars@ == s@.take(chars.len() as int),
        ensures
            chars@ == s@,
        decreases s@.len() - chars.len(),
    {
        match rest.next() {
            Some(c) => {
                proof {
                    let n = chars.len() as int;
                    assert(s@.skip(n).drop_first() == s@.skip(n + 1));
                    assert(s@.take(n + 1) == s@.take(n).push(s@[n]));
                }
                chars.push(c);
            },
            None => {
                assert(s@.take(chars.len() as int) == s@);
                break;
            },
        }
    }
    chars
}

/// The text that characters spell: `String::from_iter`, which makes a text
/// of the characters in their order.
#[verifier::external_body]
pub(crate) fn text_of(chars: &Vec<char>) -> (r: String)
    ensures
        r@ == chars@,
{
    String::from_iter(chars.iter())
}

/// The characters from `from` up to `to`.
pub(crate) fn slice(chars: &Vec<char>, from: usize, to: usize) -> (r: Vec<char>)
    requires
        from <= to <= chars.len(),
    ensures
        r@ == chars@.subrange(from as int, to as int),
{
    let mut part: Vec<char> = Vec::new();
    let mut i: usize = from;
    while i < to
        invariant
            from <= i <= to <= chars.len(),
            part@ == chars@.subrange(from as int, i as int),
        decreases to - i,
    {
        part.push(chars[i]);
        assert(chars@.subrange(from as int, i + 1) == chars@.subrange(from as int, i as int).push(
            chars[i as int],
        ));
        i = i + 1;
    }
    part
}

/// The characters without the white space around them.
pub(crate) fn trim(chars: &Vec<char>) -> (r: Vec<char>)
    ensures
        r@ == trimmed(chars@),
{
    let mut from: usize = 0;
    assert(chars@.skip(0) == chars@);
    while from < chars.len() && space(chars[from])
        invariant
            0 <= from <= chars.len(),
            trim_start(chars@) == trim_start(chars@.skip(from as int)),
        decreases chars.len() - from,
    {
        assert(chars@.skip(from as int).skip(1) == chars@.skip(from + 1));
        from = from + 1;
    }
    assert(trim_start(chars@) == chars@.skip(from as int));
    let mut to: usize = chars.len();
    let ghost started = chars@.skip(from as int);
    assert(started == chars@.subrange(from as int, to as int));
    while to > from && space(chars[to - 1])
        invariant
            from <= to <= chars.len(),
            started == chars@.skip(from as int),
            trim_end(started) == trim_end(chars@.subrange(from as int, to as int)),
        decreases to - from,
    {
        assert(chars@.subrange(from as int, to as int).drop_last() == chars@.subrange(
            from as int,
            to - 1,
        ));
        to = to - 1;
    }
    assert(trim_end(started) == chars@.subrange(from as int, to as int));
    slice(chars, from, to)
}

/// Whether `pattern` stands in `chars` at the place `at`.
pub fn stands_at(chars: &Vec<char>, pattern: &Vec<char>, at: usize) -> (r: bool)
    requires
        at + pattern.len() <= chars.len(),
    ensures
        r == occurs_at(chars@, pattern@, at as int),
{
    let mut k: usize = 0;
    while k < pattern.len()
        invariant
            0 <= k <= pattern.len(),
            at + pattern.len() <= chars.len(),
            forall|j: int| 0 <= j < k ==> chars[at + j] == pattern[j],
        decreases pattern.len() - k,
    {
        if chars[at + k] != pattern[k] {
            assert(chars@.subrange(at as int, at + pattern.len())[k as int] != pattern@[k as int]);
            return false;
        }
        k = k + 1;
    }
    assert(chars@.subrange(at as int, at + pattern.len()) =~= pattern@);
    true
}

/// Splits at the first `pattern`, if there is one.
pub(crate) fn split(chars: &Vec<char>, pattern: &Vec<char>) -> (r: Option<(Vec<char>, Vec<char>)>)
    ensures
        match r {
            Some((head, tail)) => split_once(chars@, pattern@) == Some((head@, tail@)),
            None => split_once(chars@, pattern@) is None,
        },
{
    if pattern.len() > chars.len() {
        return None;
    }
    let last = chars.len() - pattern.len();
    let mut i: usize = 0;
    loop
        invariant
            last == chars.len() - pattern.len(),
            0 <= i <= last,
            forall|j: int| 0 <= j < i ==> !occurs_at(chars@, pattern@, j),
        decreases last - i,
    {
        if stands_at(chars, pattern, i) {
            proof {
                assert(first_occurrence(chars@, pattern@, i as int));
                let w = choose|w: int| first_occurrence(chars@, pattern@, w);
                if w < i {
                    assert(!occurs_at(chars@, pattern@, w));
                } else if i < w {
                    assert(!occurs_at(chars@, pattern@, i as int));
                }
                assert(chars@.take(i as int) == chars@.subrange(0, i as int));
                assert(chars@.skip(i + pattern.len()) == chars@.subrange(
                    i + pattern.len(),
                    chars.len() as int,
                ));
            }
            let head = slice(chars, 0, i);
            let tail = slice(chars, i + pattern.len(), chars.len());
            return Some((head, tail));
        }
        if i == last {
            return None;
        }
        i = i + 1;
    }
}

/// Whether `c` is among the characters.
fn contains_char(chars: &Vec<char>, c: char) -> (r: bool)
    ensures
        r == chars@.contains(c),
{
    let mut i: usize = 0;
    while i < chars.len()
        invariant
            0 <= i <= chars.len(),
            forall|j: int| 0 <= j < i ==> chars[j] != c,
        decreases chars.len() - i,
    {
        if chars[i] == c {
            return true;
        }
        i = i + 1;
    }
    false
}

fn fence_chars() -> (r: Vec<char>)
    ensures
        r@ == fence(),
{
    let mut f: Vec<char> = Vec::new();
    f.push('`');
    f.push('`');
    f.push('`');
    assert(f@ =~= fence());
    f
}

/// Reads the first block of a text, and hands back what follows it.
pub fn parse_code_block(s: &Vec<char>) -> (r: Option<(CodeBlock, Vec<char>)>)
    ensures
        match r {
            Some((block, rest)) => first_block(s@) == Some((block@, rest@)),
            None => first_block(s@) is None,
        },
{
    let t = trim(s);
    let fence = fence_chars();
    if t.len() < 3 || !stands_at(&t, &fence, 0) {
        assert(t.len() >= 3 ==> t@.take(3) == t@.subrange(0, 3));
        return None;
    }
    assert(t@.take(3) == t@.subrange(0, 3));
    let opened = slice(&t, 3, t.len());
    assert(opened@ == t@.skip(3));
    let mut newline: Vec<char> = Vec::new();
    newline.push('\n');
    assert(newline@ =~= seq!['\n']);
    let (language, body) = match split(&opened, &newline) {
        Some((head, tail)) => {
            if head.len() > 0 && !contains_char(&head, ' ') {
                (Some(text_of(&head)), tail)
            } else {
                (None, opened)
            }
        },
        None => (None, opened),
    };
    match split(&body, &fence) {
        Some((code, rest)) => Some((CodeBlock { language, code: text_of(&code) }, rest)),
        None => None,
    }
}

impl Clone for CodeBlock {
    fn clone(&self) -> (r: CodeBlock)
        ensures
            r@ == self@,
    {
        CodeBlock {
            language: match &self.language {
                Some(l) => Some(l.clone()),
                None => None,
            },
            code: self.code.clone(),
        }
    }
}

impl CodeBlockView {
    /// Whether the block is labelled as the program's input.
    pub open spec fn is_stdin(self) -> bool {
        self.language == Some("stdin"@)
    }
}

impl CodeBlock {
    /// A block of a label and a text.
    pub fn new(language: Option<String>, code: String) -> (r: CodeBlock)
        ensures
            r@ == (CodeBlockView { language: text_view(language), code: code@ }),
    {
        CodeBlock { language, code }
    }

    /// The block as code, in the language that its label names, if it has
    /// a label.
    pub fn into_code(self) -> (r: Code)
        ensures
            r.spec_text() == self@.code,
            r.spec_language() == self@.language,
    {
        match self.language {
            Some(l) => Code::with_language(self.code, LanguageName::from_string(l)),
            None => Code::without_language(self.code),
        }
    }

    /// Whether the block is labelled as the program's input.
    pub fn is_stdin(&self) -> (r: bool)
        ensures
            r == self@.is_stdin(),
    {
        match &self.language {
            Some(l) => *l == String::from_str("stdin"),
            None => false,
        }
    }
}

/// The code of a message, with the program's input where the message gives
/// it.
#[derive(Debug)]
pub struct CodeInput {
    code: CodeBlock,
    stdin: Option<String>,
}

/// What `CodeInput` holds, as plain values.
pub struct CodeInputView {
    pub code: CodeBlockView,
    pub stdin: Option<Seq<char>>,
}

impl View for CodeInput {
    type V = CodeInputView;

    closed spec fn view(&self) -> CodeInputView {
        CodeInputView { code: self.code@, stdin: text_view(self.stdin) }
    }
}

impl Clone for CodeInput {
    fn clone(&self) -> (r: CodeInput)
        ensures
            r@ == self@,
    {
        CodeInput {
            code: self.code.clone(),
            stdin: match &self.stdin {
                Some(s) => Some(s.clone()),
                None => None,
            },
        }
    }
}

/// Why a message gives no code to run.
#[derive(Debug, Clone, Copy, PartialEq, Eq, Structural)]
pub enum ParseCodeInputError {
    NoCodeBlockFound,
    OnlyStdinFound,
    TooManyCodeBlocks,
}

impl ParseCodeInputError {
    /// The error in words.
    pub open spec fn spec_message(self) -> Seq<char> {
        match self {
            ParseCodeInputError::NoCodeBlockFound => "no code block found in the input"@,
            ParseCodeInputError::OnlyStdinFound => "only stdin block found in the input"@,
            ParseCodeInputError::TooManyCodeBlocks => "too many code blocks in the input"@,
        }
    }

    /// The error in words.
    pub fn message(&self) -> (r: &'static str)
        ensures
            r@ == self.spec_message(),
    {
        match self {
            ParseCodeInputError::NoCodeBlockFound => "no code block found in the input",
            ParseCodeInputError::OnlyStdinFound => "only stdin block found in the input",
            ParseCodeInputError::TooManyCodeBlocks => "too many code blocks in the input",
        }
    }
}

/// The code and input that a message gives. One block is the code, unless
/// it is labelled `stdin`. Of two blocks one must be labelled `stdin`: it is
/// the input, and the other is the code; where both are, the first is the
/// input. Anything else is an error.
pub open spec fn code_input(s: Seq<char>) -> Result<CodeInputView, ParseCodeInputError> {
    match first_block(s) {
        None => Err(ParseCodeInputError::NoCodeBlockFound),
        Some((first, rest)) => match first_block(rest) {
            None => if first.is_stdin() {
                Err(ParseCodeInputError::OnlyStdinFound)
            } else {
                Ok(CodeInputView { code: first, stdin: None })
            },
            Some((second, rest)) => match first_block(rest) {
                None => if first.is_stdin() {
                    Ok(CodeInputView { code: second, stdin: Some(first.code) })
                } else if second.is_stdin() {
                    Ok(CodeInputView { code: first, stdin: Some(second.code) })
                } else {
                    Err(ParseCodeInputError::TooManyCodeBlocks)
                },
                Some(_) => Err(ParseCodeInputError::TooManyCodeBlocks),
            },
        },
    }
}

impl CodeInput {
    /// Reads the code and the input that a message gives.
    pub fn parse(s: &str) -> (r: Result<CodeInput, ParseCodeInputError>)
        ensures
            match r {
                Ok(input) => code_input(s@) == Ok::<CodeInputView, ParseCodeInputError>(input@),
                Err(e) => code_input(s@) == Err::<CodeInputView, ParseCodeInputError>(e),
            },
    {
        let chars = chars_of(s);
        let (first, rest) = match parse_code_block(&chars) {
            Some(found) => found,
            None => {
                return Err(ParseCodeInputError::NoCodeBlockFound);
            },
        };
        let (second, rest) = match parse_code_block(&rest) {
            Some(found) => found,
            None => {
                if first.is_stdin() {
                    return Err(ParseCodeInputError::OnlyStdinFound);
                }
                return Ok(CodeInput { code: first, stdin: None });
            },
        };
        if parse_code_block(&rest).is_some() {
            return Err(ParseCodeInputError::TooManyCodeBlocks);
        }
        if first.is_stdin() {
            Ok(CodeInput { code: second, stdin: Some(first.code) })
        } else if second.is_stdin() {
            Ok(CodeInput { code: first, stdin: Some(second.code) })
        } else {
            Err(ParseCodeInputError::TooManyCodeBlocks)
        }
    }

    /// The code of the message.
    pub fn into_code(self) -> (r: Code)
        ensures
            r.spec_text() == self@.code.code,
            r.spec_language() == self@.code.language,
    {
        self.code.into_code()
    }

    /// The program's input, where the message gives it.
    pub fn stdin(&self) -> (r: Option<&String>)
        ensures
            match r {
                Some(s) => self@.stdin == Some(s@),
                None => self@.stdin is None,
            },
    {
        self.stdin.as_ref()
    }
}

impl std::str::FromStr for CodeInput {
    type Err = ParseCodeInputError;

    /// Reads the code and the input that a message gives, as `parse` does.
    fn from_str(s: &str) -> (r: Result<CodeInput, ParseCodeInputError>)
        ensures
            match r {
                Ok(input) => code_input(s@) == Ok::<CodeInputView, ParseCodeInputError>(input@),
                Err(e) => code_input(s@) == Err::<CodeInputView, ParseCodeInputError>(e),
            },
    {
        CodeInput::parse(s)
    }
}

} // verus!
