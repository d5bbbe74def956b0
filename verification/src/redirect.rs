//! Redirection: the four operator spellings, finding the first operator in
//! a token sequence, and the shape of the bytes written to a target file.
use vstd::prelude::*;

use crate::text::is_ascii_ws_byte;
use crate::text::spec_is_ascii_ws_byte;
use crate::text::str_eq;
use crate::text::views_of;

verus! {

/// A redirection operator: which stream it captures and whether the target
/// file is truncated or appended to.
#[derive(Debug, Clone, Copy, PartialEq, Eq, Structural)]
pub enum Redirect {
    Stdout,
    StdoutAppend,
    Stderr,
    StderrAppend,
}

/// Which output stream a redirection captures.
#[derive(Debug, Clone, Copy, PartialEq, Eq, Structural)]
pub enum StreamSel {
    OutStream,
    ErrStream,
}

/// Whether the target file is truncated or appended to.
#[derive(Debug, Clone, Copy, PartialEq, Eq, Structural)]
pub enum WriteMode {
    Truncate,
    Append,
}

/// A resolved redirection: the captured stream, the write mode, and the
/// target path.
#[derive(Debug, Clone)]
pub struct RedirectSpec {
    pub stream: StreamSel,
    pub mode: WriteMode,
    pub target: String,
}

/// The operator a token spells, if any. Exactly six spellings are
/// recognized: `>`, `1>`, `>>`, `1>>`, `2>`, `2>>`.
pub open spec fn spec_redirect_of(t: Seq<char>) -> Option<Redirect> {
    if t == ">"@ || t == "1>"@ {
        Some(Redirect::Stdout)
    } else if t == ">>"@ || t == "1>>"@ {
        Some(Redirect::StdoutAppend)
    } else if t == "2>"@ {
        Some(Redirect::Stderr)
    } else if t == "2>>"@ {
        Some(Redirect::StderrAppend)
    } else {
        None
    }
}

/// Reads a token as a redirection operator.
pub fn redirect_of_token(t: &str) -> (r: Option<Redirect>)
    ensures
        r == spec_redirect_of(t@),
{
    if str_eq(t, ">") || str_eq(t, "1>") {
        Some(Redirect::Stdout)
    } else if str_eq(t, ">>") || str_eq(t, "1>>") {
        Some(Redirect::StdoutAppend)
    } else if str_eq(t, "2>") {
        Some(Redirect::Stderr)
    } else if str_eq(t, "2>>") {
        Some(Redirect::StderrAppend)
    } else {
        None
    }
}

impl core::str::FromStr for Redirect {
    type Err = ();

    fn from_str(s: &str) -> Result<Redirect, ()> {
        match redirect_of_token(s) {
            Some(op) => Ok(op),
            None => Err(()),
        }
    }
}

impl Redirect {
    /// The stream this operator captures.
    pub open spec fn spec_stream(self) -> StreamSel {
        match self {
            Redirect::Stdout => StreamSel::OutStream,
            Redirect::StdoutAppend => StreamSel::OutStream,
            Redirect::Stderr => StreamSel::ErrStream,
            Redirect::StderrAppend => StreamSel::ErrStream,
        }
    }

    /// Whether this operator truncates the target or appends to it.
    pub open spec fn spec_mode(self) -> WriteMode {
        match self {
            Redirect::Stdout => WriteMode::Truncate,
            Redirect::StdoutAppend => WriteMode::Append,
            Redirect::Stderr => WriteMode::Truncate,
            Redirect::StderrAppend => WriteMode::Append,
        }
    }

    /// The stream this operator captures.
    pub fn stream(&self) -> (r: StreamSel)
        ensures
            r == self.spec_stream(),
    {
        match self {
            Redirect::Stdout => StreamSel::OutStream,
            Redirect::StdoutAppend => StreamSel::OutStream,
            Redirect::Stderr => StreamSel::ErrStream,
            Redirect::StderrAppend => StreamSel::ErrStream,
        }
    }

    /// Whether this operator truncates the target or appends to it.
    pub fn mode(&self) -> (r: WriteMode)
        ensures
            r == self.spec_mode(),
    {
        match self {
            Redirect::Stdout => WriteMode::Truncate,
            Redirect::StdoutAppend => WriteMode::Append,
            Redirect::Stderr => WriteMode::Truncate,
            Redirect::StderrAppend => WriteMode::Append,
        }
    }
}

/// The position of the first operator token at or after `i`, if any.
pub open spec fn spec_redirect_scan(toks: Seq<Seq<char>>, i: int) -> Option<int>
    decreases toks.len() - i,
{
    if i < 0 || i >= toks.len() {
        None
    } else if spec_redirect_of(toks[i]) is Some {
        Some(i)
    } else {
        spec_redirect_scan(toks, i + 1)
    }
}

/// The position of the first operator token, if any.
pub open spec fn spec_first_redirect(toks: Seq<Seq<char>>) -> Option<int> {
    spec_redirect_scan(toks, 0)
}

proof fn lemma_redirect_scan(toks: Seq<Seq<char>>, i: int)
    requires
        0 <= i <= toks.len(),
    ensures
        spec_redirect_scan(toks, i) matches Some(p) ==> i <= p < toks.len() && spec_redirect_of(
            toks[p],
        ) is Some && (forall|j: int| i <= j < p ==> spec_redirect_of(#[trigger] toks[j]) is None),
        spec_redirect_scan(toks, i) is None ==> forall|j: int|
            i <= j < toks.len() ==> spec_redirect_of(#[trigger] toks[j]) is None,
    decreases toks.len() - i,
{
    if i < toks.len() && spec_redirect_of(toks[i]) is None {
        lemma_redirect_scan(toks, i + 1);
    }
}

/// What the position of the first operator means: an operator stands there
/// and none stands before it; and when there is none, no token is an
/// operator.
pub proof fn lemma_first_redirect(toks: Seq<Seq<char>>)
    ensures
        spec_first_redirect(toks) matches Some(p) ==> 0 <= p < toks.len() && spec_redirect_of(
            toks[p],
        ) is Some && (forall|j: int| 0 <= j < p ==> spec_redirect_of(#[trigger] toks[j]) is None),
        spec_first_redirect(toks) is None ==> forall|j: int|
            0 <= j < toks.len() ==> spec_redirect_of(#[trigger] toks[j]) is None,
{
    lemma_redirect_scan(toks, 0);
}

/// Scans `tokens` for the first redirection operator. The tokens before it
/// are the command; the token after it, if any, is the target path. An
/// operator with no token after it yields no redirection, as does a token
/// sequence without an operator.
pub fn resolve(tokens: &[String]) -> (r: (Vec<String>, Option<RedirectSpec>))
    ensures
        spec_first_redirect(views_of(tokens@)) matches Some(p) ==> {
            let toks = views_of(tokens@);
            let op = spec_redirect_of(toks[p])->0;
            &&& views_of(r.0@) == toks.subrange(0, p)
            &&& (p + 1 < toks.len() ==> {
                &&& r.1 is Some
                &&& r.1->0.stream == op.spec_stream()
                &&& r.1->0.mode == op.spec_mode()
                &&& r.1->0.target@ == toks[p + 1]
            })
            &&& (p + 1 == toks.len() ==> r.1 is None)
        },
        spec_first_redirect(views_of(tokens@)) is None ==> views_of(r.0@) == views_of(tokens@)
            && r.1 is None,
{
    let ghost toks = views_of(tokens@);
    let n = tokens.len();
    let pos = find_first_redirect(tokens);
    proof {
        lemma_first_redirect(toks);
    }
    let stop: usize = match pos {
        Some(p) => p,
        None => n,
    };
    let mut command: Vec<String> = Vec::new();
    let mut j: usize = 0;
    while j < stop
        invariant
            0 <= j <= stop <= n,
            n == tokens@.len(),
            toks == views_of(tokens@),
            views_of(command@) =~= toks.subrange(0, j as int),
        decreases stop - j,
    {
        let ghost prev = views_of(command@);
        command.push(tokens[j].clone());
        proof {
            assert(views_of(command@) =~= prev.push(command@.last()@));
            assert(views_of(command@) =~= toks.subrange(0, j as int + 1));
        }
        j = j + 1;
    }
    match pos {
        Some(p) => {
            if p + 1 < n {
                let op = match redirect_of_token(tokens[p].as_str()) {
                    Some(op) => op,
                    None => {
                        proof {
                            assert(false);
                        }
                        Redirect::Stdout
                    },
                };
                let spec = RedirectSpec {
                    stream: op.stream(),
                    mode: op.mode(),
                    target: tokens[p + 1].clone(),
                };
                (command, Some(spec))
            } else {
                (command, None)
            }
        },
        None => {
            proof {
                assert(views_of(command@) =~= toks);
            }
            (command, None)
        },
    }
}

/// The position of the first redirection operator among `tokens`.
pub fn find_first_redirect(tokens: &[String]) -> (pos: Option<usize>)
    ensures
        pos matches Some(i) ==> Some(i as int) == spec_first_redirect(views_of(tokens@)) && i
            < tokens@.len(),
        pos is None ==> spec_first_redirect(views_of(tokens@)) is None,
{
    let ghost toks = views_of(tokens@);
    let n = tokens.len();
    let mut i: usize = 0;
    while i < n
        invariant
            0 <= i <= n,
            n == tokens@.len(),
            toks == views_of(tokens@),
            spec_redirect_scan(toks, 0) == spec_redirect_scan(toks, i as int),
        decreases n - i,
    {
        if redirect_of_token(tokens[i].as_str()).is_some() {
            proof {
                assert(spec_redirect_scan(toks, i as int) == Some(i as int));
            }
            return Some(i);
        }
        i = i + 1;
    }
    proof {
        assert(spec_redirect_scan(toks, n as int) is None);
    }
    None
}

/// The token after the first redirection operator, if both exist: the
/// target path of the redirection.
pub fn get_filepath(args: &[String]) -> (r: Option<&String>)
    ensures
        spec_first_redirect(views_of(args@)) matches Some(p) ==> (p + 1 < args@.len() ==> (r
            matches Some(f) && f@ == views_of(args@)[p + 1])),
        r is Some <==> (spec_first_redirect(views_of(args@)) is Some && spec_first_redirect(
            views_of(args@),
        )->0 + 1 < args@.len()),
{
    let n = args.len();
    match find_first_redirect(args) {
        Some(p) => {
            if p + 1 < n {
                Some(&args[p + 1])
            } else {
                None
            }
        },
        None => None,
    }
}

/// `bytes` with leading and trailing ASCII whitespace removed.
pub open spec fn spec_trim_bytes_start(s: Seq<u8>) -> Seq<u8>
    decreases s.len(),
{
    if s.len() > 0 && spec_is_ascii_ws_byte(s[0]) {
        spec_trim_bytes_start(s.drop_first())
    } else {
        s
    }
}

/// `bytes` with trailing ASCII whitespace removed.
pub open spec fn spec_trim_bytes_end(s: Seq<u8>) -> Seq<u8>
    decreases s.len(),
{
    if s.len() > 0 && spec_is_ascii_ws_byte(s.last()) {
        spec_trim_bytes_end(s.drop_last())
    } else {
        s
    }
}

/// `bytes` with leading and trailing ASCII whitespace removed.
pub open spec fn spec_trim_bytes(s: Seq<u8>) -> Seq<u8> {
    spec_trim_bytes_end(spec_trim_bytes_start(s))
}

proof fn lemma_trim_bytes_start_at(s: Seq<u8>, k: int)
    requires
        0 <= k <= s.len(),
        forall|j: int| 0 <= j < k ==> spec_is_ascii_ws_byte(s[j]),
        k == s.len() || !spec_is_ascii_ws_byte(s[k]),
    ensures
        spec_trim_bytes_start(s) == s.subrange(k, s.len() as int),
    decreases k,
{
    if k == 0 {
        assert(s.subrange(0, s.len() as int) =~= s);
    } else {
        lemma_trim_bytes_start_at(s.drop_first(), k - 1);
        assert(s.drop_first().subrange(k - 1, s.drop_first().len() as int) =~= s.subrange(
            k,
            s.len() as int,
        ));
    }
}

proof fn lemma_trim_bytes_end_at(s: Seq<u8>, k: int)
    requires
        0 <= k <= s.len(),
        forall|j: int| k <= j < s.len() ==> spec_is_ascii_ws_byte(s[j]),
        k == 0 || !spec_is_ascii_ws_byte(s[k - 1]),
    ensures
        spec_trim_bytes_end(s) == s.subrange(0, k),
    decreases s.len() - k,
{
    if k == s.len() {
        assert(s.subrange(0, k) =~= s);
    } else {
        lemma_trim_bytes_end_at(s.drop_last(), k);
        assert(s.drop_last().subrange(0, k) =~= s.subrange(0, k));
    }
}

/// Removes leading and trailing ASCII whitespace from `bytes`.
pub fn trim_ascii_bytes(bytes: &[u8]) -> (r: Vec<u8>)
    ensures
        r@ == spec_trim_bytes(bytes@),
{
    let n = bytes.len();
    let mut lo: usize = 0;
    while lo < n && is_ascii_ws_byte(bytes[lo])
        invariant
            lo <= n,
            n == bytes@.len(),
            forall|j: int| 0 <= j < lo ==> spec_is_ascii_ws_byte(bytes@[j]),
        decreases n - lo,
    {
        lo = lo + 1;
    }
    let mut hi: usize = n;
    while hi > lo && is_ascii_ws_byte(bytes[hi - 1])
        invariant
            lo <= hi <= n,
            n == bytes@.len(),
            forall|j: int| hi <= j < n ==> spec_is_ascii_ws_byte(bytes@[j]),
        decreases hi,
    {
        hi = hi - 1;
    }
    proof {
        lemma_trim_bytes_start_at(bytes@, lo as int);
        let t = bytes@.subrange(lo as int, bytes@.len() as int);
        lemma_trim_bytes_end_at(t, hi - lo);
        assert(t.subrange(0, hi - lo) =~= bytes@.subrange(lo as int, hi as int));
    }
    let mut out: Vec<u8> = Vec::new();
    let mut k: usize = lo;
    while k < hi
        invariant
            lo <= k <= hi <= n,
            n == bytes@.len(),
            out@ =~= bytes@.subrange(lo as int, k as int),
        decreases hi - k,
    {
        out.push(bytes[k]);
        proof {
            assert(out@ =~= bytes@.subrange(lo as int, k as int + 1));
        }
        k = k + 1;
    }
    proof {
        assert(out@ =~= bytes@.subrange(lo as int, hi as int));
    }
    out
}

/// The bytes a redirection writes to its target file: the captured output
/// with surrounding ASCII whitespace removed and exactly one final newline,
/// except that empty captured output is written as nothing at all.
pub open spec fn spec_file_payload(content: Seq<u8>) -> Seq<u8> {
    if content.len() == 0 {
        Seq::<u8>::empty()
    } else {
        spec_trim_bytes(content).push(10)
    }
}

/// Shapes captured output for a redirection target file: trims surrounding
/// ASCII whitespace and terminates non-empty output with one newline.
pub fn file_payload(content: &[u8]) -> (r: Vec<u8>)
    ensures
        r@ == spec_file_payload(content@),
{
    if content.len() == 0 {
        Vec::new()
    } else {
        let mut out = trim_ascii_bytes(content);
        out.push(10);
        out
    }
}

} // verus!
