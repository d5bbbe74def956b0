use vshell::editor::completion_query;
use vshell::editor::editor_fetch_index;
use vshell::editor::editor_step;
use vshell::editor::EditorEffect;
use vshell::editor::EditorState;
use vshell::editor::Key;
use vshell::history::history_entry;

fn words(parts: &[&str]) -> Vec<String> {
    parts.iter().map(|p| p.to_string()).collect()
}

fn nav(st: EditorState, key: Key, store: &[String]) -> (EditorState, EditorEffect) {
    let fetched = match editor_fetch_index(&st, key) {
        Some(i) => history_entry(store, i),
        None => None,
    };
    editor_step(st, key, fetched, &[])
}

#[test]
fn printable_characters_append_and_echo() {
    let st = EditorState::new();
    let (st, eff) = editor_step(st, Key::Printable('h'), None, &[]);
    assert!(matches!(eff, EditorEffect::EchoChar { c: 'h' }));
    let (st, _) = editor_step(st, Key::Printable('i'), None, &[]);
    assert_eq!(st.buffer, "hi".to_string());
}

#[test]
fn enter_accepts_and_records_nonempty_lines() {
    let st = EditorState::new();
    let (st, _) = editor_step(st, Key::Printable('x'), None, &[]);
    let (st, eff) = editor_step(st, Key::Enter, None, &[]);
    assert!(matches!(eff, EditorEffect::AcceptLine { record: true }));
    assert_eq!(st.buffer, "x".to_string());
}

#[test]
fn enter_on_empty_line_records_nothing() {
    let (_, eff) = editor_step(EditorState::new(), Key::Enter, None, &[]);
    assert!(matches!(eff, EditorEffect::AcceptLine { record: false }));
}

#[test]
fn backspace_removes_last_character() {
    let st = EditorState::new();
    let (st, _) = editor_step(st, Key::Printable('a'), None, &[]);
    let (st, _) = editor_step(st, Key::Printable('b'), None, &[]);
    let (st, eff) = editor_step(st, Key::Backspace, None, &[]);
    assert!(matches!(eff, EditorEffect::EraseLast));
    assert_eq!(st.buffer, "a".to_string());
}

#[test]
fn backspace_on_empty_buffer_does_nothing() {
    let (st, eff) = editor_step(EditorState::new(), Key::Backspace, None, &[]);
    assert!(matches!(eff, EditorEffect::Quiet));
    assert_eq!(st.buffer, String::new());
}

#[test]
fn ctrl_c_drops_the_line_and_resets() {
    let st = EditorState::new();
    let (st, _) = editor_step(st, Key::Printable('a'), None, &[]);
    let (st, _) = nav(st, Key::Up, &words(&["old"]));
    let (st, eff) = editor_step(st, Key::CtrlC, None, &[]);
    assert!(matches!(eff, EditorEffect::CancelLine));
    assert_eq!(st.buffer, String::new());
    assert_eq!(st.history_index, 0);
}

#[test]
fn history_up_recalls_most_recent_first() {
    let store = words(&["a", "b", "c"]);
    let st = EditorState::new();
    let (st, eff) = nav(st, Key::Up, &store);
    assert!(matches!(eff, EditorEffect::Redraw));
    assert_eq!(st.buffer, "c".to_string());
    let (st, _) = nav(st, Key::Up, &store);
    assert_eq!(st.buffer, "b".to_string());
    let (st, _) = nav(st, Key::Down, &store);
    assert_eq!(st.buffer, "c".to_string());
}

#[test]
fn history_up_stops_at_the_oldest_entry() {
    let store = words(&["only"]);
    let st = EditorState::new();
    let (st, _) = nav(st, Key::Up, &store);
    assert_eq!(st.buffer, "only".to_string());
    let (st, eff) = nav(st, Key::Up, &store);
    assert!(matches!(eff, EditorEffect::Quiet));
    assert_eq!(st.buffer, "only".to_string());
    assert_eq!(st.history_index, 1);
}

#[test]
fn history_down_past_newest_clears_the_buffer() {
    let store = words(&["a", "b"]);
    let st = EditorState::new();
    let (st, _) = nav(st, Key::Up, &store);
    let (st, eff) = nav(st, Key::Down, &store);
    assert!(matches!(eff, EditorEffect::Redraw));
    assert_eq!(st.buffer, String::new());
    assert_eq!(st.history_index, 0);
    let (st, eff) = nav(st, Key::Down, &store);
    assert!(matches!(eff, EditorEffect::Quiet));
    assert_eq!(st.buffer, String::new());
    assert_eq!(st.history_index, 0);
}

#[test]
fn fetch_index_names_the_needed_entry() {
    let mut st = EditorState::new();
    assert_eq!(editor_fetch_index(&st, Key::Up), Some(1));
    assert_eq!(editor_fetch_index(&st, Key::Down), None);
    st.history_index = 3;
    assert_eq!(editor_fetch_index(&st, Key::Up), Some(4));
    assert_eq!(editor_fetch_index(&st, Key::Down), Some(2));
    assert_eq!(editor_fetch_index(&st, Key::Tab), None);
}

#[test]
fn completion_query_hands_out_the_buffer() {
    let st = EditorState::new();
    assert_eq!(completion_query(&st, Key::Tab), None);
    let (st, _) = editor_step(st, Key::Printable('e'), None, &[]);
    assert_eq!(completion_query(&st, Key::Tab), Some("e".to_string()));
    assert_eq!(completion_query(&st, Key::Enter), None);
}

#[test]
fn tab_on_empty_buffer_rings() {
    let (st, eff) = editor_step(EditorState::new(), Key::Tab, None, &[]);
    assert!(matches!(eff, EditorEffect::Bell { line_break: true }));
    assert_eq!(st.buffer, String::new());
    assert!(!st.tab_flip);
}

#[test]
fn tab_with_no_candidates_rings() {
    let st = EditorState::new();
    let (st, _) = editor_step(st, Key::Printable('q'), None, &[]);
    let (st, eff) = editor_step(st, Key::Tab, None, &[]);
    assert!(matches!(eff, EditorEffect::Bell { line_break: true }));
    assert_eq!(st.buffer, "q".to_string());
}

#[test]
fn tab_completes_a_unique_candidate_with_a_space() {
    let st = EditorState::new();
    let (st, _) = editor_step(st, Key::Printable('e'), None, &[]);
    let (st, _) = editor_step(st, Key::Printable('c'), None, &[]);
    let (st, eff) = editor_step(st, Key::Tab, None, &[]);
    assert!(matches!(eff, EditorEffect::Redraw));
    assert_eq!(st.buffer, "echo ".to_string());
}

#[test]
fn double_tab_rings_then_lists_exit_and_echo() {
    let st = EditorState::new();
    let (st, _) = editor_step(st, Key::Printable('e'), None, &[]);
    let (st, eff) = editor_step(st, Key::Tab, None, &[]);
    assert!(matches!(eff, EditorEffect::Bell { line_break: false }));
    assert!(st.tab_flip);
    assert_eq!(st.buffer, "e".to_string());
    let (st, eff) = editor_step(st, Key::Tab, None, &[]);
    match eff {
        EditorEffect::ShowCandidates { candidates } => {
            assert_eq!(candidates, words(&["exit", "echo"]));
        },
        other => panic!("expected the candidate list, got {:?}", other),
    }
    assert!(!st.tab_flip);
    assert_eq!(st.buffer, "e".to_string());
}

#[test]
fn an_edit_between_tabs_clears_the_double_tab_flag() {
    let st = EditorState::new();
    let (st, _) = editor_step(st, Key::Printable('e'), None, &[]);
    let (st, _) = editor_step(st, Key::Tab, None, &[]);
    assert!(st.tab_flip);
    let (st, _) = editor_step(st, Key::Printable('x'), None, &[]);
    assert!(!st.tab_flip);
}

#[test]
fn tab_extends_to_the_longest_common_prefix() {
    let path = words(&["xyab", "xyac"]);
    let st = EditorState::new();
    let (st, _) = editor_step(st, Key::Printable('x'), None, &[]);
    let (st, _) = editor_step(st, Key::Printable('y'), None, &path);
    let (st, eff) = editor_step(st, Key::Tab, None, &path);
    assert!(matches!(eff, EditorEffect::Redraw));
    assert_eq!(st.buffer, "xya".to_string());
    assert!(!st.tab_flip);
}
