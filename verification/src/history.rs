//! The `history` builtin: fetching the Nth most recent stored line,
//! numbering the stored lines for display, and choosing among the listing
//! and the file operations. The storage itself belongs to the caller; the
//! functions here work on the lines it hands over.
use vstd::prelude::*;

use crate::text::parse_usize;
use crate::text::spec_all_digits;
use crate::text::spec_dec_value;
use crate::text::spec_digits_of;
use crate::text::str_eq;

verus! {

/// The `index`-th most recent of `lines`, counted 1-based from the end.
pub fn history_entry(lines: &[String], index: usize) -> (r: Option<String>)
    ensures
        1 <= index <= lines@.len() ==> (r matches Some(e) && e@ == lines@[lines@.len() - index]@),
        !(1 <= index <= lines@.len()) ==> r is None,
{
    let n = lines.len();
    if 1 <= index && index <= n {
        Some(lines[n - index].clone())
    } else {
        None
    }
}

/// Where a listing of `len` stored lines begins when the last `count` of
/// them were asked for: a count past the beginning shows them all.
pub open spec fn spec_listing_start(len: int, count: int) -> int {
    if count <= len {
        len - count
    } else {
        0
    }
}

/// True when `entries` numbers the lines of `lines` from position `start`
/// on, 1-based.
pub open spec fn spec_is_listing(
    lines: Seq<String>,
    start: int,
    entries: Seq<(usize, String)>,
) -> bool {
    &&& entries.len() == lines.len() - start
    &&& forall|t: int|
        0 <= t < entries.len() ==> (#[trigger] entries[t]).0 == start + t + 1 && entries[t].1@
            == lines[start + t]@
}

/// Numbers the stored lines for display: all of them, or only the last
/// `count` when one is given.
pub fn history_listing(lines: &[String], count: Option<usize>) -> (r: Vec<(usize, String)>)
    ensures
        count matches Some(c) ==> spec_is_listing(
            lines@,
            spec_listing_start(lines@.len() as int, c as int),
            r@,
        ),
        count is None ==> spec_is_listing(lines@, 0, r@),
{
    let n = lines.len();
    let start: usize = match count {
        Some(c) => if c <= n {
            n - c
        } else {
            0
        },
        None => 0,
    };
    let mut out: Vec<(usize, String)> = Vec::new();
    let mut i: usize = start;
    while i < n
        invariant
            start <= i <= n,
            n == lines@.len(),
            out@.len() == i - start,
            forall|t: int|
                0 <= t < out@.len() ==> (#[trigger] out@[t]).0 == start + t + 1 && out@[t].1@
                    == lines@[start + t]@,
        decreases n - i,
    {
        out.push((i + 1, lines[i].clone()));
        i = i + 1;
    }
    out
}

/// What one invocation of the `history` builtin does.
#[derive(Debug)]
pub enum HistoryAction {
    /// Show these numbered lines.
    List { entries: Vec<(usize, String)> },
    /// Append the named file's lines to the stored history.
    ReadFrom { path: String },
    /// Write the stored history to the named file, truncating it.
    WriteTo { path: String },
    /// Append the stored history to the named file, then clear the store.
    AppendTo { path: String },
    /// The argument is neither a file operation nor a count.
    Unknown { arg: String },
    /// A file operation named no file: nothing to do.
    Nothing,
}

/// Plans the `history` builtin for the words after `history` itself,
/// given the stored lines: no word lists everything, `-r`/`-w`/`-a` name
/// file operations, a count lists the most recent lines, and anything
/// else is unknown.
pub fn plan_history(args: &[String], lines: &[String]) -> (r: HistoryAction)
    ensures
        args@.len() == 0 ==> (r matches HistoryAction::List { entries } && spec_is_listing(
            lines@,
            0,
            entries@,
        )),
        args@.len() > 0 ==> ({
            let a0 = args@[0]@;
            let numeric = spec_all_digits(spec_digits_of(a0)) && spec_dec_value(spec_digits_of(a0))
                <= usize::MAX;
            &&& (a0 == "-r"@ ==> (args@.len() == 1 ==> r is Nothing) && (args@.len() > 1 ==> (r
                matches HistoryAction::ReadFrom { path } && path@ == args@[1]@)))
            &&& (a0 == "-w"@ ==> (args@.len() == 1 ==> r is Nothing) && (args@.len() > 1 ==> (r
                matches HistoryAction::WriteTo { path } && path@ == args@[1]@)))
            &&& (a0 == "-a"@ ==> (args@.len() == 1 ==> r is Nothing) && (args@.len() > 1 ==> (r
                matches HistoryAction::AppendTo { path } && path@ == args@[1]@)))
            &&& (a0 != "-r"@ && a0 != "-w"@ && a0 != "-a"@ ==> {
                &&& (numeric ==> (r matches HistoryAction::List { entries } && spec_is_listing(
                    lines@,
                    spec_listing_start(lines@.len() as int, spec_dec_value(spec_digits_of(a0))),
                    entries@,
                )))
                &&& (!numeric ==> (r matches HistoryAction::Unknown { arg } && arg@ == a0))
            })
        }),
{
    proof {
        reveal_strlit("-r");
        reveal_strlit("-w");
        reveal_strlit("-a");
        assert("-r"@ != "-w"@) by {
            assert("-r"@[1] == 'r' && "-w"@[1] == 'w');
        }
        assert("-r"@ != "-a"@) by {
            assert("-r"@[1] == 'r' && "-a"@[1] == 'a');
        }
        assert("-w"@ != "-a"@) by {
            assert("-w"@[1] == 'w' && "-a"@[1] == 'a');
        }
    }
    if args.len() == 0 {
        return HistoryAction::List { entries: history_listing(lines, None) };
    }
    let a0 = &args[0];
    if str_eq(a0.as_str(), "-r") {
        if args.len() == 1 {
            HistoryAction::Nothing
        } else {
            HistoryAction::ReadFrom { path: args[1].clone() }
        }
    } else if str_eq(a0.as_str(), "-w") {
        if args.len() == 1 {
            HistoryAction::Nothing
        } else {
            HistoryAction::WriteTo { path: args[1].clone() }
        }
    } else if str_eq(a0.as_str(), "-a") {
        if args.len() == 1 {
            HistoryAction::Nothing
        } else {
            HistoryAction::AppendTo { path: args[1].clone() }
        }
    } else {
        match parse_usize(a0.as_str()) {
            Some(n) => HistoryAction::List { entries: history_listing(lines, Some(n)) },
            None => HistoryAction::Unknown { arg: a0.clone() },
        }
    }
}

} // verus!
