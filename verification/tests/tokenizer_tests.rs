use vshell::tokenizer::input_line_parsing;
use vshell::tokenizer::join_tokens;

fn toks(line: &str) -> Vec<String> {
    input_line_parsing(line)
}

#[test]
fn single_quoted_word_keeps_space() {
    assert_eq!(toks("'a b' c"), vec!["a b".to_string(), "c".to_string()]);
}

#[test]
fn backslash_escapes_space() {
    assert_eq!(toks("a\\ b"), vec!["a b".to_string()]);
}

#[test]
fn double_quote_backslash_escapes_quote() {
    assert_eq!(toks("\"a\\\"b\""), vec!["a\"b".to_string()]);
}

#[test]
fn empty_line_gives_no_tokens() {
    assert_eq!(toks(""), Vec::<String>::new());
}

#[test]
fn consecutive_spaces_make_no_empty_tokens() {
    assert_eq!(toks("a   b"), vec!["a".to_string(), "b".to_string()]);
}

#[test]
fn leading_and_trailing_spaces_are_dropped() {
    assert_eq!(toks("  echo hi  "), vec!["echo".to_string(), "hi".to_string()]);
}

#[test]
fn unterminated_single_quote_runs_to_end() {
    assert_eq!(toks("'a b"), vec!["a b".to_string()]);
}

#[test]
fn unterminated_double_quote_runs_to_end() {
    assert_eq!(toks("\"a b"), vec!["a b".to_string()]);
}

#[test]
fn trailing_backslash_is_dropped() {
    assert_eq!(toks("ab\\"), vec!["ab".to_string()]);
}

#[test]
fn backslash_inside_single_quotes_is_literal() {
    assert_eq!(toks("'a\\b'"), vec!["a\\b".to_string()]);
}

#[test]
fn backslash_in_double_quotes_keeps_ordinary_char() {
    // inside double quotes, a backslash before anything but `"` or `\`
    // stays in the output
    assert_eq!(toks("\"a\\nb\""), vec!["a\\nb".to_string()]);
}

#[test]
fn backslash_in_double_quotes_escapes_backslash() {
    assert_eq!(toks("\"a\\\\b\""), vec!["a\\b".to_string()]);
}

#[test]
fn quote_toggles_only_outside_other_quote() {
    assert_eq!(toks("\"a'b\""), vec!["a'b".to_string()]);
    assert_eq!(toks("'a\"b'"), vec!["a\"b".to_string()]);
}

#[test]
fn adjacent_quoted_pieces_form_one_token() {
    assert_eq!(toks("'a'\"b\"c"), vec!["abc".to_string()]);
}

#[test]
fn join_rejoins_with_single_spaces() {
    let words = vec!["echo".to_string(), "a".to_string(), "b".to_string()];
    assert_eq!(join_tokens(&words), "echo a b".to_string());
}

#[test]
fn join_of_nothing_is_empty() {
    assert_eq!(join_tokens(&[]), String::new());
}

#[test]
fn round_trip_is_stable_without_special_characters() {
    // double spaces collapse once; after that, tokenizing is stable
    let first = toks("echo  a   b");
    let rejoined = join_tokens(&first);
    assert_eq!(rejoined, "echo a b".to_string());
    assert_eq!(toks(&rejoined), first);
}
