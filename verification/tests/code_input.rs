use runbot::code_input::{chars_of, parse_code_block, CodeInput, ParseCodeInputError};

fn chars(s: &str) -> Vec<char> {
    s.chars().collect()
}

fn text(v: &[char]) -> String {
    v.iter().collect()
}

fn parsed(s: &str) -> (Option<String>, String, Option<String>) {
    let input = CodeInput::parse(s).expect("code");
    let stdin = input.stdin().cloned();
    let code = input.into_code();
    (code.language().map(|l| l.as_string().clone()), code.text().clone(), stdin)
}

#[test]
fn texts_and_characters_convert_both_ways() {
    assert_eq!(chars_of("aé日"), vec!['a', 'é', '日']);
    assert_eq!(chars_of(""), Vec::<char>::new());
    // and back, through a block
    let (block, rest) = parse_code_block(&chars("```é日```日é")).unwrap();
    assert_eq!(text(&rest), "日é");
    assert_eq!(block.into_code().text(), "é日");
}

#[test]
fn a_block_with_a_label() {
    let (block, rest) = parse_code_block(&chars("```rust\nfn main() {}\n``` tail")).unwrap();
    assert_eq!(text(&rest), " tail");
    let code = block.into_code();
    assert_eq!(code.language().map(|l| l.as_string().as_str()), Some("rust"));
    assert_eq!(code.text(), "fn main() {}\n");
}

#[test]
fn a_block_without_a_label() {
    let (block, rest) = parse_code_block(&chars("  \n```\nplain\n```")).unwrap();
    assert_eq!(text(&rest), "");
    let code = block.into_code();
    assert!(code.language().is_none());
    // the line break behind the fence belongs to the code
    assert_eq!(code.text(), "\nplain\n");
}

#[test]
fn a_first_line_with_a_blank_is_code() {
    let (block, _) = parse_code_block(&chars("```int main\nx\n```")).unwrap();
    let code = block.into_code();
    assert!(code.language().is_none());
    assert_eq!(code.text(), "int main\nx\n");
}

#[test]
fn a_block_on_one_line_has_no_label() {
    let (block, rest) = parse_code_block(&chars("```echo```x")).unwrap();
    assert_eq!(text(&rest), "x");
    let code = block.into_code();
    assert!(code.language().is_none());
    assert_eq!(code.text(), "echo");
}

#[test]
fn what_is_no_block() {
    assert!(parse_code_block(&chars("")).is_none());
    assert!(parse_code_block(&chars("   ")).is_none());
    assert!(parse_code_block(&chars("text ```a```")).is_none());
    assert!(parse_code_block(&chars("``")).is_none());
    assert!(parse_code_block(&chars("```")).is_none());
    assert!(parse_code_block(&chars("```rust\nnever closed")).is_none());
    assert!(parse_code_block(&chars("``rust\nx\n```")).is_none());
}

#[test]
fn white_space_around_a_block_is_dropped() {
    let (block, rest) = parse_code_block(&chars("\u{3000}\t```c\nx```  \u{a0}")).unwrap();
    assert_eq!(text(&rest), "");
    assert_eq!(block.into_code().text(), "x");
    // a zero-width space is no white space
    assert!(parse_code_block(&chars("\u{200b}```c\nx```")).is_none());
}

#[test]
fn stdin_is_a_label() {
    let (block, _) = parse_code_block(&chars("```stdin\n1 2\n```")).unwrap();
    assert!(block.is_stdin());
    let (block, _) = parse_code_block(&chars("```Stdin\n1 2\n```")).unwrap();
    assert!(!block.is_stdin());
    let (block, _) = parse_code_block(&chars("```\nstdin\n```")).unwrap();
    assert!(!block.is_stdin());
}

#[test]
fn one_block_is_the_code() {
    assert_eq!(
        parsed("```python\nprint(1)\n```"),
        (Some("python".to_string()), "print(1)\n".to_string(), None)
    );
}

#[test]
fn of_two_blocks_one_is_the_input() {
    assert_eq!(
        parsed("```c\nmain(){}\n```\n```stdin\n42\n```"),
        (Some("c".to_string()), "main(){}\n".to_string(), Some("42\n".to_string()))
    );
    assert_eq!(
        parsed("```stdin\n42\n```\n```c\nmain(){}\n```"),
        (Some("c".to_string()), "main(){}\n".to_string(), Some("42\n".to_string()))
    );
    // where both are labelled as input, the first is the input
    assert_eq!(
        parsed("```stdin\nfirst```\n```stdin\nsecond```"),
        (Some("stdin".to_string()), "second".to_string(), Some("first".to_string()))
    );
}

#[test]
fn what_is_no_code_input() {
    assert_eq!(CodeInput::parse("hello").unwrap_err(), ParseCodeInputError::NoCodeBlockFound);
    assert_eq!(CodeInput::parse("").unwrap_err(), ParseCodeInputError::NoCodeBlockFound);
    assert_eq!(
        CodeInput::parse("```stdin\n1\n```").unwrap_err(),
        ParseCodeInputError::OnlyStdinFound
    );
    assert_eq!(
        CodeInput::parse("```a\n1```\n```b\n2```").unwrap_err(),
        ParseCodeInputError::TooManyCodeBlocks
    );
    assert_eq!(
        CodeInput::parse("```a\n1```\n```stdin\n2```\n```c\n3```").unwrap_err(),
        ParseCodeInputError::TooManyCodeBlocks
    );
    // text between the blocks ends the list of blocks
    assert_eq!(
        parsed("```a\n1``` and ```stdin\n2```"),
        (Some("a".to_string()), "1".to_string(), None)
    );
}

#[test]
fn code_input_is_read_from_text() {
    let input: CodeInput = "```sh\nls\n```".parse().unwrap();
    let copy = input.clone();
    assert_eq!(copy.into_code().text(), "ls\n");
    assert!(input.stdin().is_none());
    assert!("none".parse::<CodeInput>().is_err());
}

#[test]
fn parse_errors_are_told_in_words() {
    assert_eq!(ParseCodeInputError::NoCodeBlockFound.message(), "no code block found in the input");
    assert_eq!(ParseCodeInputError::OnlyStdinFound.message(), "only stdin block found in the input");
    assert_eq!(
        ParseCodeInputError::TooManyCodeBlocks.message(),
        "too many code blocks in the input"
    );
}
