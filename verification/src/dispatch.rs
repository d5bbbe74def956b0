//! Command dispatch: classifying one input line, the `type` builtin's
//! reply, the `echo` builtin's plan, and the routing of an external
//! command's captured output to files and to the shell's own streams.
use vstd::prelude::*;

use crate::completion::is_builtin;
use crate::completion::spec_is_builtin;
use crate::redirect::find_first_redirect;
use crate::redirect::lemma_first_redirect;
use crate::redirect::redirect_of_token;
use crate::redirect::resolve;
use crate::redirect::spec_first_redirect;
use crate::redirect::spec_redirect_of;
use crate::redirect::spec_trim_bytes;
use crate::redirect::trim_ascii_bytes;
use crate::redirect::Redirect;
use crate::redirect::StreamSel;
use crate::redirect::WriteMode;
use crate::text::contains_char;
use crate::text::spec_contains_char;
use crate::text::spec_split_ws;
use crate::text::split_whitespace_tokens;
use crate::text::str_eq;
use crate::text::views_of;
use crate::tokenizer::join_tokens;
use crate::tokenizer::spec_join;

verus! {

/// What the first word of a line names: one of the six builtins, or an
/// external program.
#[derive(Debug, Clone, Copy, PartialEq, Eq, Structural)]
pub enum CommandKind {
    Exit,
    Echo,
    Type,
    Pwd,
    Cd,
    History,
    External,
}

/// The command kind a name denotes.
pub open spec fn spec_command_kind(name: Seq<char>) -> CommandKind {
    if name == "exit"@ {
        CommandKind::Exit
    } else if name == "echo"@ {
        CommandKind::Echo
    } else if name == "type"@ {
        CommandKind::Type
    } else if name == "pwd"@ {
        CommandKind::Pwd
    } else if name == "cd"@ {
        CommandKind::Cd
    } else if name == "history"@ {
        CommandKind::History
    } else {
        CommandKind::External
    }
}

/// Reads a command name as one of the builtins or an external program.
pub fn command_kind(name: &str) -> (r: CommandKind)
    ensures
        r == spec_command_kind(name@),
{
    if str_eq(name, "exit") {
        CommandKind::Exit
    } else if str_eq(name, "echo") {
        CommandKind::Echo
    } else if str_eq(name, "type") {
        CommandKind::Type
    } else if str_eq(name, "pwd") {
        CommandKind::Pwd
    } else if str_eq(name, "cd") {
        CommandKind::Cd
    } else if str_eq(name, "history") {
        CommandKind::History
    } else {
        CommandKind::External
    }
}

/// How one raw input line is handled: ignored when blank, given to the
/// pipeline builder when it holds a pipe, otherwise dispatched on its
/// first word.
#[derive(Debug, Clone, Copy, PartialEq, Eq, Structural)]
pub enum LineKind {
    Blank,
    Pipeline,
    Run(CommandKind),
}

/// Classifies one raw input line.
pub fn classify_line(line: &str) -> (r: LineKind)
    ensures
        spec_contains_char(line@, '|') ==> r == LineKind::Pipeline,
        !spec_contains_char(line@, '|') && spec_split_ws(line@).len() == 0 ==> r == LineKind::Blank,
        !spec_contains_char(line@, '|') && spec_split_ws(line@).len() > 0 ==> r == LineKind::Run(
            spec_command_kind(spec_split_ws(line@)[0]),
        ),
{
    if contains_char(line, '|') {
        return LineKind::Pipeline;
    }
    let words = split_whitespace_tokens(line);
    if words.len() == 0 {
        LineKind::Blank
    } else {
        proof {
            assert(words@[0]@ == views_of(words@)[0]);
        }
        LineKind::Run(command_kind(words[0].as_str()))
    }
}

/// The `type` reply for a builtin name.
pub open spec fn spec_type_builtin_msg(name: Seq<char>) -> Seq<char> {
    name + " is a shell builtin"@
}

/// The `type` reply for a name resolved on the search path.
pub open spec fn spec_type_path_msg(name: Seq<char>, path: Seq<char>) -> Seq<char> {
    name + " is "@ + path
}

/// The `type` reply for a name that resolves to nothing.
pub open spec fn spec_type_not_found_msg(name: Seq<char>) -> Seq<char> {
    name + ": not found"@
}

/// Builds the `type` builtin's reply from a name and the result of the
/// search-path lookup for it: builtins are named as such, a found
/// executable is shown with its path, and anything else is not found.
pub fn type_reply(name: &str, found: Option<String>) -> (r: String)
    ensures
        spec_is_builtin(name@) ==> r@ == spec_type_builtin_msg(name@),
        !spec_is_builtin(name@) ==> (found matches Some(p) ==> r@ == spec_type_path_msg(
            name@,
            p@,
        )),
        !spec_is_builtin(name@) ==> (found is None ==> r@ == spec_type_not_found_msg(name@)),
{
    if is_builtin(name) {
        String::from_str(name).concat(" is a shell builtin")
    } else {
        match found {
            Some(p) => {
                let r = String::from_str(name).concat(" is ").concat(p.as_str());
                proof {
                    assert(r@ =~= spec_type_path_msg(name@, p@));
                }
                r
            },
            None => String::from_str(name).concat(": not found"),
        }
    }
}

/// Relies on pathsearch::find_executable_in_path: searches the directories
/// named by the PATH environment variable and returns the path of the
/// first executable file called `name`, if any. The result depends on the
/// environment and the disk, so nothing more is promised of it.
#[verifier::external_body]
fn find_in_path(name: &str) -> (r: Option<String>) {
    pathsearch::find_executable_in_path(name).map(|p| p.to_string_lossy().into_owned())
}

/// The `type` builtin's reply for `name`: builtins are named as such;
/// any other name is looked up on the search path, and shown with its
/// path when found there or reported not found.
pub fn type_message(name: &str) -> (r: String)
    ensures
        spec_is_builtin(name@) ==> r@ == spec_type_builtin_msg(name@),
        !spec_is_builtin(name@) ==> r@ == spec_type_not_found_msg(name@) || (exists|p: Seq<char>|
            r@ == #[trigger] spec_type_path_msg(name@, p)),
{
    let found = find_in_path(name);
    let ghost found_view = match found {
        Some(ref p) => Some(p@),
        None => None,
    };
    let r = type_reply(name, found);
    proof {
        if !spec_is_builtin(name@) && found_view is Some {
            assert(r@ == spec_type_path_msg(name@, found_view->0));
        }
    }
    r
}

/// The `echo` builtin's plan: its message is printed, written to a
/// redirection target, or both printed and paired with an emptied target
/// when the redirection names the error stream, which `echo` never writes.
#[derive(Debug)]
pub enum EchoAction {
    Print { content: String },
    WriteFile { path: String, mode: WriteMode, content: String },
    TouchAndPrint { path: String, content: String },
}

/// Plans the `echo` builtin for the words after `echo` itself: the words
/// before any redirection operator, joined with single spaces, go to the
/// operator's target when one stands with a target, and to the screen
/// otherwise. A redirection of the error stream empties its target and
/// still prints.
pub fn plan_echo(args: &[String]) -> (r: EchoAction)
    ensures
        ({
            let toks = views_of(args@);
            let fr = spec_first_redirect(toks);
            let cut = if fr is Some {
                fr->0
            } else {
                toks.len() as int
            };
            let content = spec_join(toks.subrange(0, cut));
            let has_target = fr is Some && fr->0 + 1 < toks.len();
            &&& (!has_target ==> (r matches EchoAction::Print { content: c } && c@ == content))
            &&& (has_target ==> ({
                let op = spec_redirect_of(toks[fr->0])->0;
                let target = toks[fr->0 + 1];
                &&& (op.spec_stream() == StreamSel::ErrStream ==> (r matches
                    EchoAction::TouchAndPrint { path: f, content: c } && f@ == target && c@
                    == content))
                &&& (op.spec_stream() == StreamSel::OutStream ==> (r matches EchoAction::WriteFile {
                    path: f,
                    mode: m,
                    content: c,
                } && f@ == target && m == op.spec_mode() && c@ == content))
            }))
        }),
{
    let (command, redirect) = resolve(args);
    let content = join_tokens(command.as_slice());
    proof {
        let toks = views_of(args@);
        lemma_first_redirect(toks);
        assert(toks.subrange(0, toks.len() as int) =~= toks);
    }
    match redirect {
        None => EchoAction::Print { content },
        Some(rs) => match rs.stream {
            StreamSel::ErrStream => EchoAction::TouchAndPrint { path: rs.target, content },
            StreamSel::OutStream => EchoAction::WriteFile {
                path: rs.target,
                mode: rs.mode,
                content,
            },
        },
    }
}

/// One write of captured output to a redirection target.
#[derive(Debug)]
pub struct FileWrite {
    pub path: String,
    pub mode: WriteMode,
    pub content: Vec<u8>,
}

/// Where an external command's captured output goes: at most one file
/// write, and what is shown on the shell's own standard output and
/// standard error, each already trimmed of surrounding ASCII whitespace.
#[derive(Debug)]
pub struct OutputRoute {
    pub file: Option<FileWrite>,
    pub show_out: Option<Vec<u8>>,
    pub show_err: Option<Vec<u8>>,
}

/// Routes the captured output of an external command, given the words
/// after the program name. The first redirection operator with a target
/// sends its stream to that file; the other stream is shown only when it
/// is non-empty. With an operator but no target, the operator's stream is
/// shown unconditionally and the other is dropped. With no operator, each
/// stream is shown when non-empty.
pub fn route_captured(args: &[String], out_bytes: &[u8], err_bytes: &[u8]) -> (r: OutputRoute)
    ensures
        ({
            let toks = views_of(args@);
            let fr = spec_first_redirect(toks);
            let t_out = spec_trim_bytes(out_bytes@);
            let t_err = spec_trim_bytes(err_bytes@);
            &&& (fr is None ==> {
                &&& r.file is None
                &&& (out_bytes@.len() > 0 ==> (r.show_out matches Some(b) && b@ == t_out))
                &&& (out_bytes@.len() == 0 ==> r.show_out is None)
                &&& (err_bytes@.len() > 0 ==> (r.show_err matches Some(b) && b@ == t_err))
                &&& (err_bytes@.len() == 0 ==> r.show_err is None)
            })
            &&& (fr matches Some(p) ==> ({
                let op = spec_redirect_of(toks[p])->0;
                let has_target = p + 1 < toks.len();
                &&& (!has_target ==> {
                    &&& r.file is None
                    &&& (op.spec_stream() == StreamSel::OutStream ==> (r.show_out matches Some(b)
                        && b@ == t_out) && r.show_err is None)
                    &&& (op.spec_stream() == StreamSel::ErrStream ==> (r.show_err matches Some(b)
                        && b@ == t_err) && r.show_out is None)
                })
                &&& (has_target ==> ({
                    let target = toks[p + 1];
                    &&& (r.file matches Some(w) && w.path@ == target && w.mode == op.spec_mode())
                    &&& (op.spec_stream() == StreamSel::OutStream ==> {
                        &&& r.file->0.content@ == out_bytes@
                        &&& r.show_out is None
                        &&& (err_bytes@.len() > 0 ==> (r.show_err matches Some(b) && b@ == t_err))
                        &&& (err_bytes@.len() == 0 ==> r.show_err is None)
                    })
                    &&& (op.spec_stream() == StreamSel::ErrStream ==> {
                        &&& r.file->0.content@ == err_bytes@
                        &&& r.show_err is None
                        &&& (out_bytes@.len() > 0 ==> (r.show_out matches Some(b) && b@ == t_out))
                        &&& (out_bytes@.len() == 0 ==> r.show_out is None)
                    })
                }))
            }))
        }),
{
    let ghost toks = views_of(args@);
    let n = args.len();
    match find_first_redirect(args) {
        None => OutputRoute {
            file: None,
            show_out: if out_bytes.len() > 0 {
                Some(trim_ascii_bytes(out_bytes))
            } else {
                None
            },
            show_err: if err_bytes.len() > 0 {
                Some(trim_ascii_bytes(err_bytes))
            } else {
                None
            },
        },
        Some(p) => {
            proof {
                lemma_first_redirect(toks);
            }
            let op = match redirect_of_token(args[p].as_str()) {
                Some(op) => op,
                None => {
                    proof {
                        assert(false);
                    }
                    Redirect::Stdout
                },
            };
            let is_out = match op.stream() {
                StreamSel::OutStream => true,
                StreamSel::ErrStream => false,
            };
            if p + 1 < n {
                let target = args[p + 1].clone();
                if is_out {
                    OutputRoute {
                        file: Some(
                            FileWrite {
                                path: target,
                                mode: op.mode(),
                                content: vstd::slice::slice_to_vec(out_bytes),
                            },
                        ),
                        show_out: None,
                        show_err: if err_bytes.len() > 0 {
                            Some(trim_ascii_bytes(err_bytes))
                        } else {
                            None
                        },
                    }
                } else {
                    OutputRoute {
                        file: Some(
                            FileWrite {
                                path: target,
                                mode: op.mode(),
                                content: vstd::slice::slice_to_vec(err_bytes),
                            },
                        ),
                        show_err: None,
                        show_out: if out_bytes.len() > 0 {
                            Some(trim_ascii_bytes(out_bytes))
                        } else {
                            None
                        },
                    }
                }
            } else {
                if is_out {
                    OutputRoute {
                        file: None,
                        show_out: Some(trim_ascii_bytes(out_bytes)),
                        show_err: None,
                    }
                } else {
                    OutputRoute {
                        file: None,
                        show_out: None,
                        show_err: Some(trim_ascii_bytes(err_bytes)),
                    }
                }
            }
        },
    }
}

} // verus!
