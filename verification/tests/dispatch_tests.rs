use vshell::dispatch::classify_line;
use vshell::dispatch::plan_echo;
use vshell::dispatch::route_captured;
use vshell::dispatch::type_message;
use vshell::dispatch::type_reply;
use vshell::dispatch::CommandKind;
use vshell::dispatch::EchoAction;
use vshell::dispatch::LineKind;
use vshell::redirect::WriteMode;

fn words(parts: &[&str]) -> Vec<String> {
    parts.iter().map(|p| p.to_string()).collect()
}

#[test]
fn type_of_builtin_names_it() {
    assert_eq!(type_reply("cd", None), "cd is a shell builtin".to_string());
    assert_eq!(type_message("cd"), "cd is a shell builtin".to_string());
}

#[test]
fn type_of_unknown_name_is_not_found() {
    assert_eq!(
        type_reply("nonexistent_cmd_xyz", None),
        "nonexistent_cmd_xyz: not found".to_string()
    );
    assert_eq!(
        type_message("nonexistent_cmd_xyz"),
        "nonexistent_cmd_xyz: not found".to_string()
    );
}

#[test]
fn type_of_found_executable_names_its_path() {
    assert_eq!(
        type_reply("xyz", Some("/usr/bin/xyz".to_string())),
        "xyz is /usr/bin/xyz".to_string()
    );
}

#[test]
fn classify_pipe_wins() {
    assert_eq!(classify_line("printf a | cat"), LineKind::Pipeline);
}

#[test]
fn classify_blank_line() {
    assert_eq!(classify_line("   "), LineKind::Blank);
    assert_eq!(classify_line(""), LineKind::Blank);
}

#[test]
fn classify_first_word() {
    assert_eq!(classify_line("echo hi"), LineKind::Run(CommandKind::Echo));
    assert_eq!(classify_line("  exit"), LineKind::Run(CommandKind::Exit));
    assert_eq!(classify_line("type cd"), LineKind::Run(CommandKind::Type));
    assert_eq!(classify_line("pwd"), LineKind::Run(CommandKind::Pwd));
    assert_eq!(classify_line("cd /tmp"), LineKind::Run(CommandKind::Cd));
    assert_eq!(classify_line("history 3"), LineKind::Run(CommandKind::History));
    assert_eq!(classify_line("ls -l"), LineKind::Run(CommandKind::External));
}

#[test]
fn echo_without_redirect_prints() {
    match plan_echo(&words(&["a", "b"])) {
        EchoAction::Print { content } => assert_eq!(content, "a b".to_string()),
        other => panic!("expected a print plan, got {:?}", other),
    }
}

#[test]
fn echo_with_truncate_redirect_writes() {
    match plan_echo(&words(&["hi", ">", "out.txt"])) {
        EchoAction::WriteFile { path, mode, content } => {
            assert_eq!(path, "out.txt".to_string());
            assert_eq!(mode, WriteMode::Truncate);
            assert_eq!(content, "hi".to_string());
        },
        other => panic!("expected a file write plan, got {:?}", other),
    }
}

#[test]
fn echo_with_append_redirect_appends() {
    match plan_echo(&words(&["hi", "1>>", "out.txt"])) {
        EchoAction::WriteFile { path, mode, content } => {
            assert_eq!(path, "out.txt".to_string());
            assert_eq!(mode, WriteMode::Append);
            assert_eq!(content, "hi".to_string());
        },
        other => panic!("expected a file write plan, got {:?}", other),
    }
}

#[test]
fn echo_with_stderr_redirect_empties_target_and_prints() {
    match plan_echo(&words(&["hi", "2>", "err.txt"])) {
        EchoAction::TouchAndPrint { path, content } => {
            assert_eq!(path, "err.txt".to_string());
            assert_eq!(content, "hi".to_string());
        },
        other => panic!("expected a touch-and-print plan, got {:?}", other),
    }
}

#[test]
fn echo_with_dangling_operator_prints() {
    match plan_echo(&words(&["hi", ">"])) {
        EchoAction::Print { content } => assert_eq!(content, "hi".to_string()),
        other => panic!("expected a print plan, got {:?}", other),
    }
}

#[test]
fn route_without_operator_shows_nonempty_streams() {
    let r = route_captured(&words(&["-l"]), b"out \n", b"");
    assert!(r.file.is_none());
    assert_eq!(r.show_out, Some(b"out".to_vec()));
    assert!(r.show_err.is_none());
}

#[test]
fn route_stdout_redirect_files_stdout_and_shows_stderr() {
    let r = route_captured(&words(&["-l", ">", "out.txt"]), b"data", b"warn\n");
    let w = r.file.expect("a file write");
    assert_eq!(w.path, "out.txt".to_string());
    assert_eq!(w.mode, WriteMode::Truncate);
    assert_eq!(w.content, b"data".to_vec());
    assert!(r.show_out.is_none());
    assert_eq!(r.show_err, Some(b"warn".to_vec()));
}

#[test]
fn route_stderr_redirect_files_stderr_and_shows_stdout() {
    let r = route_captured(&words(&["2>>", "log"]), b"data", b"warn");
    let w = r.file.expect("a file write");
    assert_eq!(w.path, "log".to_string());
    assert_eq!(w.mode, WriteMode::Append);
    assert_eq!(w.content, b"warn".to_vec());
    assert!(r.show_err.is_none());
    assert_eq!(r.show_out, Some(b"data".to_vec()));
}

#[test]
fn route_dangling_operator_shows_its_stream_only() {
    let r = route_captured(&words(&[">"]), b"", b"warn");
    assert!(r.file.is_none());
    // the dangling stdout operator shows stdout even when empty, and
    // drops stderr
    assert_eq!(r.show_out, Some(Vec::<u8>::new()));
    assert!(r.show_err.is_none());
}
