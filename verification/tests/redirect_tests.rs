use vshell::redirect::file_payload;
use vshell::redirect::get_filepath;
use vshell::redirect::resolve;
use vshell::redirect::trim_ascii_bytes;
use vshell::redirect::Redirect;
use vshell::redirect::StreamSel;
use vshell::redirect::WriteMode;

fn words(parts: &[&str]) -> Vec<String> {
    parts.iter().map(|p| p.to_string()).collect()
}

#[test]
fn resolve_splits_echo_with_truncate_target() {
    let tokens = words(&["echo", "hi", ">", "out.txt"]);
    let (command, redirect) = resolve(&tokens);
    assert_eq!(command, words(&["echo", "hi"]));
    let spec = redirect.expect("an operator with a target");
    assert_eq!(spec.target, "out.txt".to_string());
    assert_eq!(spec.mode, WriteMode::Truncate);
    assert_eq!(spec.stream, StreamSel::OutStream);
}

#[test]
fn resolve_without_operator_keeps_everything() {
    let tokens = words(&["echo", "hi", "there"]);
    let (command, redirect) = resolve(&tokens);
    assert_eq!(command, words(&["echo", "hi", "there"]));
    assert!(redirect.is_none());
}

#[test]
fn resolve_operator_without_target_gives_none() {
    let tokens = words(&["echo", "hi", ">"]);
    let (command, redirect) = resolve(&tokens);
    assert_eq!(command, words(&["echo", "hi"]));
    assert!(redirect.is_none());
}

#[test]
fn resolve_honors_first_operator_only() {
    let tokens = words(&["cmd", ">", "a", ">", "b"]);
    let (command, redirect) = resolve(&tokens);
    assert_eq!(command, words(&["cmd"]));
    let spec = redirect.expect("first operator with target");
    assert_eq!(spec.target, "a".to_string());
}

#[test]
fn all_six_spellings_parse() {
    assert_eq!(">".parse::<Redirect>(), Ok(Redirect::Stdout));
    assert_eq!("1>".parse::<Redirect>(), Ok(Redirect::Stdout));
    assert_eq!(">>".parse::<Redirect>(), Ok(Redirect::StdoutAppend));
    assert_eq!("1>>".parse::<Redirect>(), Ok(Redirect::StdoutAppend));
    assert_eq!("2>".parse::<Redirect>(), Ok(Redirect::Stderr));
    assert_eq!("2>>".parse::<Redirect>(), Ok(Redirect::StderrAppend));
    assert_eq!("3>".parse::<Redirect>(), Err(()));
    assert_eq!(">>>".parse::<Redirect>(), Err(()));
    assert_eq!("".parse::<Redirect>(), Err(()));
}

#[test]
fn append_spellings_carry_append_mode() {
    let tokens = words(&["cmd", "2>>", "log"]);
    let (_, redirect) = resolve(&tokens);
    let spec = redirect.unwrap();
    assert_eq!(spec.stream, StreamSel::ErrStream);
    assert_eq!(spec.mode, WriteMode::Append);
}

#[test]
fn get_filepath_returns_token_after_operator() {
    let tokens = words(&["hi", ">", "out.txt"]);
    assert_eq!(get_filepath(&tokens), Some(&"out.txt".to_string()));
    let no_target = words(&["hi", ">"]);
    assert_eq!(get_filepath(&no_target), None);
    let no_op = words(&["hi", "there"]);
    assert_eq!(get_filepath(&no_op), None);
}

#[test]
fn trim_ascii_bytes_removes_surrounding_whitespace() {
    assert_eq!(trim_ascii_bytes(b"  hi \n"), b"hi".to_vec());
    assert_eq!(trim_ascii_bytes(b"\t\r\n "), Vec::<u8>::new());
    assert_eq!(trim_ascii_bytes(b"a b"), b"a b".to_vec());
}

#[test]
fn file_payload_trims_and_terminates() {
    assert_eq!(file_payload(b"hi\n"), b"hi\n".to_vec());
    assert_eq!(file_payload(b"  hi"), b"hi\n".to_vec());
    assert_eq!(file_payload(b""), Vec::<u8>::new());
    // whitespace-only content still ends in the one newline
    assert_eq!(file_payload(b" \n"), b"\n".to_vec());
}
