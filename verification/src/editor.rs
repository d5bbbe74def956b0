//! The line editor: a state machine over key events that maintains the
//! edit buffer, the double-tab flag and the history cursor. The caller
//! runs the event loop, fetches history entries and search-path matches
//! when asked, performs the returned screen effect, and stops when a line
//! is accepted.
use vstd::prelude::*;

use crate::completion::auto_complete;
use crate::completion::longest_common_prefix;
use crate::completion::spec_blocks_extension;
use crate::completion::spec_candidates;
use crate::text::push_char;
use crate::text::spec_starts_with;
use crate::text::views_of;

verus! {

/// One key event, as the editor understands it.
#[derive(Debug, Clone, Copy, PartialEq, Eq, Structural)]
pub enum Key {
    Enter,
    Backspace,
    Tab,
    Up,
    Down,
    CtrlC,
    Printable(char),
    Other,
}

/// The editor's state while one line is read: the edit buffer, whether
/// the previous event was an unproductive Tab, and how far up the history
/// the cursor stands (0 is the line being edited).
#[derive(Debug)]
pub struct EditorState {
    pub buffer: String,
    pub tab_flip: bool,
    pub history_index: usize,
}

impl EditorState {
    /// A fresh editor state, as each new prompt begins with.
    pub fn new() -> (r: EditorState)
        ensures
            r.buffer@ == Seq::<char>::empty(),
            !r.tab_flip,
            r.history_index == 0,
    {
        EditorState { buffer: String::new(), tab_flip: false, history_index: 0 }
    }
}

/// What the caller paints or emits after one step.
#[derive(Debug)]
pub enum EditorEffect {
    /// Nothing to show.
    Quiet,
    /// Echo the typed character.
    EchoChar { c: char },
    /// Erase the last screen column.
    EraseLast,
    /// Emit a line break and hand the buffer to the shell; when `record`
    /// is set, append the buffer to the history first.
    AcceptLine { record: bool },
    /// Repaint the prompt and the buffer.
    Redraw,
    /// Ring the bell (after a line break when `line_break` is set), then
    /// repaint.
    Bell { line_break: bool },
    /// Show the candidate names on a fresh line, then repaint.
    ShowCandidates { candidates: Vec<String> },
    /// Print the cancel mark, drop the line, and repaint an empty prompt.
    CancelLine,
}

/// True when `a` and `b` agree on every field.
pub open spec fn spec_same_state(a: EditorState, b: EditorState) -> bool {
    a.buffer@ == b.buffer@ && a.tab_flip == b.tab_flip && a.history_index == b.history_index
}

/// True when all of the candidates agree on their first `l + 1`
/// characters, so that completion can extend a buffer of length `l`.
pub open spec fn spec_can_extend(cands: Seq<Seq<char>>, l: int) -> bool {
    &&& cands.len() > 0
    &&& forall|k: int| 0 <= k < cands.len() ==> (#[trigger] cands[k]).len() > l
    &&& forall|k: int, j: int|
        0 <= k < cands.len() && 0 <= j <= l ==> #[trigger] cands[k][j] == cands[0][j]
}

/// The history position the next step will ask for under `key`, if any:
/// one step older for Up, one step newer for Down while the cursor is
/// above the second entry.
pub fn editor_fetch_index(st: &EditorState, key: Key) -> (r: Option<usize>)
    ensures
        key is Up && st.history_index < usize::MAX ==> r == Some((st.history_index + 1) as usize),
        key is Up && st.history_index == usize::MAX ==> r is None,
        key is Down && st.history_index >= 2 ==> r == Some((st.history_index - 1) as usize),
        key is Down && st.history_index < 2 ==> r is None,
        !(key is Up) && !(key is Down) ==> r is None,
{
    match key {
        Key::Up => {
            if st.history_index < usize::MAX {
                Some(st.history_index + 1)
            } else {
                None
            }
        },
        Key::Down => {
            if st.history_index >= 2 {
                Some(st.history_index - 1)
            } else {
                None
            }
        },
        _ => None,
    }
}

/// The completion prefix the next step will ask the search path about
/// under `key`: the buffer, when Tab is pressed over a non-empty buffer.
pub fn completion_query(st: &EditorState, key: Key) -> (r: Option<String>)
    ensures
        key is Tab && st.buffer@.len() > 0 ==> (r matches Some(b) && b@ == st.buffer@),
        !(key is Tab) || st.buffer@.len() == 0 ==> r is None,
{
    match key {
        Key::Tab => {
            if st.buffer.as_str().is_empty() {
                None
            } else {
                Some(st.buffer.clone())
            }
        },
        _ => None,
    }
}

/// One step of the editor: the next state and the screen effect for one
/// key event. `fetched` is the history store's answer for the position
/// `editor_fetch_index` named, and `path_matches` are the executable
/// names with the buffer as prefix that the search path offered for a
/// Tab, in the order found there.
pub fn editor_step(
    st: EditorState,
    key: Key,
    fetched: Option<String>,
    path_matches: &[String],
) -> (r: (EditorState, EditorEffect))
    requires
        key is Up && fetched is Some ==> st.history_index < usize::MAX,
    ensures
        key is Enter ==> spec_same_state(r.0, st) && (r.1 matches EditorEffect::AcceptLine {
            record,
        } && record == (st.buffer@.len() > 0)),
        key is Backspace ==> {
            &&& (st.buffer@.len() > 0 ==> r.0.buffer@ == st.buffer@.drop_last() && !r.0.tab_flip
                && r.0.history_index == st.history_index && r.1 is EraseLast)
            &&& (st.buffer@.len() == 0 ==> spec_same_state(r.0, st) && r.1 is Quiet)
        },
        key is Up ==> {
            &&& (fetched matches Some(e) ==> r.0.buffer@ == e@ && r.0.history_index
                == st.history_index + 1 && r.0.tab_flip == st.tab_flip && r.1 is Redraw)
            &&& (fetched is None ==> spec_same_state(r.0, st) && r.1 is Quiet)
        },
        key is Down ==> {
            &&& (st.history_index == 0 ==> spec_same_state(r.0, st) && r.1 is Quiet)
            &&& (st.history_index == 1 ==> r.0.buffer@.len() == 0 && r.0.history_index == 0
                && r.0.tab_flip == st.tab_flip && r.1 is Redraw)
            &&& (st.history_index >= 2 ==> {
                &&& r.0.history_index == st.history_index - 1
                &&& r.0.tab_flip == st.tab_flip
                &&& (fetched matches Some(e) ==> r.0.buffer@ == e@)
                &&& (fetched is None ==> r.0.buffer@ == st.buffer@)
                &&& r.1 is Redraw
            })
        },
        key matches Key::Printable(c) ==> r.0.buffer@ == st.buffer@.push(c) && !r.0.tab_flip
            && r.0.history_index == st.history_index && (r.1 matches EditorEffect::EchoChar {
            c: e,
        } && e == c),
        key is CtrlC ==> r.0.buffer@.len() == 0 && !r.0.tab_flip && r.0.history_index == 0
            && r.1 is CancelLine,
        key is Other ==> spec_same_state(r.0, st) && r.1 is Quiet,
        key is Tab ==> ({
            let cands = spec_candidates(st.buffer@, views_of(path_matches@));
            &&& (st.buffer@.len() == 0 ==> r.0.buffer@ == st.buffer@ && !r.0.tab_flip
                && r.0.history_index == st.history_index && (r.1 matches EditorEffect::Bell {
                line_break,
            } && line_break))
            &&& (st.buffer@.len() > 0 ==> {
                &&& (cands.len() == 0 ==> r.0.buffer@ == st.buffer@ && !r.0.tab_flip
                    && r.0.history_index == st.history_index && (r.1 matches EditorEffect::Bell {
                    line_break,
                } && line_break))
                &&& (cands.len() == 1 ==> r.0.buffer@ == cands[0].push(' ') && !r.0.tab_flip
                    && r.0.history_index == st.history_index && r.1 is Redraw)
                &&& (cands.len() >= 2 ==> {
                    &&& (spec_can_extend(cands, st.buffer@.len() as int) ==> {
                        &&& r.0.buffer@.len() > st.buffer@.len()
                        &&& (forall|k: int|
                            0 <= k < cands.len() ==> spec_starts_with(
                                #[trigger] cands[k],
                                r.0.buffer@,
                            ))
                        &&& (exists|k: int|
                            0 <= k < cands.len() && spec_blocks_extension(
                                cands[0],
                                #[trigger] cands[k],
                                r.0.buffer@,
                            ))
                        &&& !r.0.tab_flip
                        &&& r.0.history_index == st.history_index
                        &&& r.1 is Redraw
                    })
                    &&& (!spec_can_extend(cands, st.buffer@.len() as int) ==> {
                        &&& r.0.buffer@ == st.buffer@
                        &&& r.0.history_index == st.history_index
                        &&& (!st.tab_flip ==> r.0.tab_flip && (r.1 matches EditorEffect::Bell {
                            line_break,
                        } && !line_break))
                        &&& (st.tab_flip ==> !r.0.tab_flip && (r.1 matches
                            EditorEffect::ShowCandidates { candidates } && views_of(candidates@)
                            == cands))
                    })
                })
            })
        }),
{
    match key {
        Key::Enter => {
            let record = !st.buffer.as_str().is_empty();
            (st, EditorEffect::AcceptLine { record })
        },
        Key::Backspace => {
            if st.buffer.as_str().is_empty() {
                (st, EditorEffect::Quiet)
            } else {
                let mut buffer = st.buffer;
                let _ = crate::text::pop_char(&mut buffer);
                (
                    EditorState { buffer, tab_flip: false, history_index: st.history_index },
                    EditorEffect::EraseLast,
                )
            }
        },
        Key::Up => {
            match fetched {
                Some(e) => (
                    EditorState {
                        buffer: e,
                        tab_flip: st.tab_flip,
                        history_index: st.history_index + 1,
                    },
                    EditorEffect::Redraw,
                ),
                None => (st, EditorEffect::Quiet),
            }
        },
        Key::Down => {
            if st.history_index == 0 {
                (st, EditorEffect::Quiet)
            } else if st.history_index == 1 {
                (
                    EditorState { buffer: String::new(), tab_flip: st.tab_flip, history_index: 0 },
                    EditorEffect::Redraw,
                )
            } else {
                let buffer = match fetched {
                    Some(e) => e,
                    None => st.buffer,
                };
                (
                    EditorState {
                        buffer,
                        tab_flip: st.tab_flip,
                        history_index: st.history_index - 1,
                    },
                    EditorEffect::Redraw,
                )
            }
        },
        Key::Printable(c) => {
            let mut buffer = st.buffer;
            push_char(&mut buffer, c);
            (
                EditorState { buffer, tab_flip: false, history_index: st.history_index },
                EditorEffect::EchoChar { c },
            )
        },
        Key::CtrlC => {
            (
                EditorState { buffer: String::new(), tab_flip: false, history_index: 0 },
                EditorEffect::CancelLine,
            )
        },
        Key::Other => (st, EditorEffect::Quiet),
        Key::Tab => editor_tab_step(st, path_matches),
    }
}

/// The Tab step: complete from the candidates, extend to their longest
/// common prefix, or ring and list on repeated unproductive presses.
fn editor_tab_step(st: EditorState, path_matches: &[String]) -> (r: (EditorState, EditorEffect))
    ensures
        ({
            let cands = spec_candidates(st.buffer@, views_of(path_matches@));
            &&& (st.buffer@.len() == 0 ==> r.0.buffer@ == st.buffer@ && !r.0.tab_flip
                && r.0.history_index == st.history_index && (r.1 matches EditorEffect::Bell {
                line_break,
            } && line_break))
            &&& (st.buffer@.len() > 0 ==> {
                &&& (cands.len() == 0 ==> r.0.buffer@ == st.buffer@ && !r.0.tab_flip
                    && r.0.history_index == st.history_index && (r.1 matches EditorEffect::Bell {
                    line_break,
                } && line_break))
                &&& (cands.len() == 1 ==> r.0.buffer@ == cands[0].push(' ') && !r.0.tab_flip
                    && r.0.history_index == st.history_index && r.1 is Redraw)
                &&& (cands.len() >= 2 ==> {
                    &&& (spec_can_extend(cands, st.buffer@.len() as int) ==> {
                        &&& r.0.buffer@.len() > st.buffer@.len()
                        &&& (forall|k: int|
                            0 <= k < cands.len() ==> spec_starts_with(
                                #[trigger] cands[k],
                                r.0.buffer@,
                            ))
                        &&& (exists|k: int|
                            0 <= k < cands.len() && spec_blocks_extension(
                                cands[0],
                                #[trigger] cands[k],
                                r.0.buffer@,
                            ))
                        &&& !r.0.tab_flip
                        &&& r.0.history_index == st.history_index
                        &&& r.1 is Redraw
                    })
                    &&& (!spec_can_extend(cands, st.buffer@.len() as int) ==> {
                        &&& r.0.buffer@ == st.buffer@
                        &&& r.0.history_index == st.history_index
                        &&& (!st.tab_flip ==> r.0.tab_flip && (r.1 matches EditorEffect::Bell {
                            line_break,
                        } && !line_break))
                        &&& (st.tab_flip ==> !r.0.tab_flip && (r.1 matches
                            EditorEffect::ShowCandidates { candidates } && views_of(candidates@)
                            == cands))
                    })
                })
            })
        }),
{
    if st.buffer.as_str().is_empty() {
        return (
            EditorState { buffer: st.buffer, tab_flip: false, history_index: st.history_index },
            EditorEffect::Bell { line_break: true },
        );
    }
    let (unique, cands) = auto_complete(st.buffer.as_str(), path_matches);
    let ghost cv = spec_candidates(st.buffer@, views_of(path_matches@));
    if cands.len() == 0 {
        (
            EditorState { buffer: st.buffer, tab_flip: false, history_index: st.history_index },
            EditorEffect::Bell { line_break: true },
        )
    } else if cands.len() == 1 {
        let mut buffer = match unique {
            Some(c) => c,
            None => {
                proof {
                    assert(false);
                }
                String::new()
            },
        };
        push_char(&mut buffer, ' ');
        (
            EditorState { buffer, tab_flip: false, history_index: st.history_index },
            EditorEffect::Redraw,
        )
    } else {
        let common = longest_common_prefix(cands.as_slice());
        let clen = common.as_str().unicode_len();
        let blen = st.buffer.as_str().unicode_len();
        if clen > blen {
            proof {
                assert forall|k: int| 0 <= k < cv.len() implies (#[trigger] cv[k]).len()
                    > blen by {
                    assert(cv[k] == cands@[k]@);
                    assert(spec_starts_with(cands@[k]@, common@));
                }
                assert forall|k: int, j: int|
                    0 <= k < cv.len() && 0 <= j <= blen implies #[trigger] cv[k][j] == cv[0][j] by {
                    assert(cv[k] == cands@[k]@);
                    assert(cv[0] == cands@[0]@);
                    assert(spec_starts_with(cands@[k]@, common@));
                    assert(spec_starts_with(cands@[0]@, common@));
                    assert(cv[k][j] == common@[j]);
                    assert(cv[0][j] == common@[j]);
                }
                assert(spec_can_extend(cv, blen as int));
                let k0 = choose|k: int|
                    0 <= k < cands@.len() && spec_blocks_extension(cands@[0]@, cands@[k]@, common@);
                assert(cv[k0] == cands@[k0]@);
                assert(cv[0] == cands@[0]@);
                assert(0 <= k0 < cv.len() && spec_blocks_extension(cv[0], cv[k0], common@));
            }
            (
                EditorState { buffer: common, tab_flip: false, history_index: st.history_index },
                EditorEffect::Redraw,
            )
        } else {
            proof {
                if spec_can_extend(cv, blen as int) {
                    let k = choose|k: int|
                        0 <= k < cands@.len() && spec_blocks_extension(
                            cands@[0]@,
                            cands@[k]@,
                            common@,
                        );
                    assert(cv[k] == cands@[k]@);
                    assert(cv[0] == cands@[0]@);
                    assert(cv[k].len() > blen);
                    if cands@[k]@.len() == common@.len() {
                        assert(false);
                    } else {
                        assert(cv[k][common@.len() as int] == cv[0][common@.len() as int]);
                        assert(false);
                    }
                }
            }
            if !st.tab_flip {
                (
                    EditorState {
                        buffer: st.buffer,
                        tab_flip: true,
                        history_index: st.history_index,
                    },
                    EditorEffect::Bell { line_break: false },
                )
            } else {
                (
                    EditorState {
                        buffer: st.buffer,
                        tab_flip: false,
                        history_index: st.history_index,
                    },
                    EditorEffect::ShowCandidates { candidates: cands },
                )
            }
        }
    }
}

} // verus!
