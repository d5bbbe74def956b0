//! Tab completion: builtin names matched by prefix, executables found on
//! the search path as the fallback, and the longest common prefix of the
//! candidate set.
use vstd::prelude::*;

use crate::text::spec_starts_with;
use crate::text::str_eq;
use crate::text::str_starts_with;
use crate::text::views_of;

verus! {

/// The names of the shell builtins, in the order completion offers them.
pub open spec fn spec_builtins() -> Seq<Seq<char>> {
    seq!["exit"@, "echo"@, "type"@, "pwd"@, "cd"@, "history"@]
}

/// True when `name` is the name of a shell builtin.
pub open spec fn spec_is_builtin(name: Seq<char>) -> bool {
    spec_builtins().contains(name)
}

/// The builtin names as strings, in the order completion offers them.
pub fn builtin_commands() -> (r: Vec<String>)
    ensures
        views_of(r@) == spec_builtins(),
{
    let mut v: Vec<String> = Vec::new();
    v.push(String::from_str("exit"));
    v.push(String::from_str("echo"));
    v.push(String::from_str("type"));
    v.push(String::from_str("pwd"));
    v.push(String::from_str("cd"));
    v.push(String::from_str("history"));
    proof {
        assert(views_of(v@) =~= spec_builtins());
    }
    v
}

/// Decides whether `name` is the name of a shell builtin.
pub fn is_builtin(name: &str) -> (r: bool)
    ensures
        r == spec_is_builtin(name@),
{
    let r = str_eq(name, "exit") || str_eq(name, "echo") || str_eq(name, "type") || str_eq(
        name,
        "pwd",
    ) || str_eq(name, "cd") || str_eq(name, "history");
    proof {
        if r {
            assert(spec_builtins().contains(name@));
        } else {
            assert forall|i: int| 0 <= i < spec_builtins().len() implies spec_builtins()[i]
                != name@ by {}
        }
    }
    r
}

/// The builtin names that begin with `buf`.
pub open spec fn spec_builtin_matches(buf: Seq<char>) -> Seq<Seq<char>> {
    spec_builtins().filter(|t: Seq<char>| spec_starts_with(t, buf))
}

/// Collects the builtin names that begin with `buffer`.
pub fn builtin_matches(buffer: &str) -> (r: Vec<String>)
    ensures
        views_of(r@) == spec_builtin_matches(buffer@),
{
    let cands = builtin_commands();
    let mut out: Vec<String> = Vec::new();
    let n = cands.len();
    proof {
        reveal(Seq::filter);
        assert(views_of(cands@).subrange(0, 0) =~= Seq::<Seq<char>>::empty());
    }
    let mut i: usize = 0;
    while i < n
        invariant
            i <= n,
            n == cands@.len(),
            views_of(cands@) == spec_builtins(),
            views_of(out@) == views_of(cands@).subrange(0, i as int).filter(
                |t: Seq<char>| spec_starts_with(t, buffer@),
            ),
        decreases n - i,
    {
        let ghost pre = views_of(cands@).subrange(0, i as int);
        let ghost post = views_of(cands@).subrange(0, i as int + 1);
        proof {
            reveal(Seq::filter);
            assert(post.drop_last() =~= pre);
            assert(post.last() == cands@[i as int]@);
        }
        if str_starts_with(cands[i].as_str(), buffer) {
            let ghost prev_out = views_of(out@);
            out.push(cands[i].clone());
            proof {
                assert(views_of(out@) =~= prev_out.push(out@.last()@));
            }
        }
        i = i + 1;
    }
    proof {
        assert(views_of(cands@).subrange(0, n as int) =~= spec_builtins());
    }
    out
}

/// The completion candidates for `buf`: the builtin names that begin with
/// it or, only when no builtin matches, the executables found on the
/// search path.
pub open spec fn spec_candidates(buf: Seq<char>, path_matches: Seq<Seq<char>>) -> Seq<Seq<char>> {
    if spec_builtin_matches(buf).len() > 0 {
        spec_builtin_matches(buf)
    } else {
        path_matches
    }
}

/// Computes the completion candidates for `buffer`, given the executable
/// names with that prefix that the search path offered. Returns the sole
/// candidate when there is exactly one, and the full candidate set.
pub fn auto_complete(buffer: &str, path_matches: &[String]) -> (r: (Option<String>, Vec<String>))
    ensures
        views_of(r.1@) == spec_candidates(buffer@, views_of(path_matches@)),
        r.0 is Some <==> views_of(r.1@).len() == 1,
        r.0 matches Some(c) ==> c@ == views_of(r.1@)[0],
{
    let builtins = builtin_matches(buffer);
    let cands: Vec<String> = if builtins.len() > 0 {
        builtins
    } else {
        let mut copy: Vec<String> = Vec::new();
        let n = path_matches.len();
        let mut i: usize = 0;
        while i < n
            invariant
                i <= n,
                n == path_matches@.len(),
                views_of(copy@) =~= views_of(path_matches@).subrange(0, i as int),
            decreases n - i,
        {
            let ghost prev = views_of(copy@);
            copy.push(path_matches[i].clone());
            proof {
                assert(views_of(copy@) =~= prev.push(copy@.last()@));
                assert(views_of(copy@) =~= views_of(path_matches@).subrange(0, i as int + 1));
            }
            i = i + 1;
        }
        proof {
            assert(views_of(copy@) =~= views_of(path_matches@));
        }
        copy
    };
    if cands.len() == 1 {
        (Some(cands[0].clone()), cands)
    } else {
        (None, cands)
    }
}

/// True when no common prefix of the strings is longer than `p`: some
/// string ends at `p`'s length, or differs there from the first string.
pub open spec fn spec_blocks_extension(base: Seq<char>, s: Seq<char>, p: Seq<char>) -> bool {
    s.len() == p.len() || (p.len() < s.len() && p.len() < base.len() && s[p.len() as int]
        != base[p.len() as int])
}

/// The longest common prefix of the strings: a common prefix of them all
/// that no common prefix exceeds. The empty string when there are none.
pub fn longest_common_prefix(strings: &[String]) -> (r: String)
    ensures
        strings@.len() == 0 ==> r@ == Seq::<char>::empty(),
        forall|k: int| 0 <= k < strings@.len() ==> spec_starts_with(#[trigger] strings@[k]@, r@),
        strings@.len() > 0 ==> exists|k: int|
            0 <= k < strings@.len() && spec_blocks_extension(
                strings@[0]@,
                #[trigger] strings@[k]@,
                r@,
            ),
{
    let n = strings.len();
    if n == 0 {
        return String::new();
    }
    let mut prefix: String = strings[0].clone();
    let mut i: usize = 1;
    while i < n
        invariant
            1 <= i <= n,
            n == strings@.len(),
            forall|k: int| 0 <= k < i ==> spec_starts_with(#[trigger] strings@[k]@, prefix@),
            prefix@ == strings@[0]@ || exists|k: int|
                0 <= k < i && spec_blocks_extension(strings@[0]@, #[trigger] strings@[k]@, prefix@),
        decreases n - i,
    {
        let s = &strings[i];
        let plen = prefix.as_str().unicode_len();
        let slen = s.as_str().unicode_len();
        let max: usize = if plen < slen {
            plen
        } else {
            slen
        };
        let mut j: usize = 0;
        while j < max && prefix.as_str().get_char(j) == s.as_str().get_char(j)
            invariant
                j <= max,
                max == (if prefix@.len() < s@.len() {
                    prefix@.len()
                } else {
                    s@.len()
                }),
                plen == prefix@.len(),
                slen == s@.len(),
                s@ == strings@[i as int]@,
                forall|t: int| 0 <= t < j ==> prefix@[t] == s@[t],
            decreases max - j,
        {
            j = j + 1;
        }
        let ghost old_prefix = prefix@;
        let cut = prefix.as_str().substring_char(0, j);
        prefix = String::from_str(cut);
        proof {
            assert(prefix@ =~= old_prefix.subrange(0, j as int));
            assert forall|k: int| 0 <= k < i + 1 implies spec_starts_with(
                #[trigger] strings@[k]@,
                prefix@,
            ) by {
                if k < i {
                    assert(spec_starts_with(strings@[k]@, old_prefix));
                }
            }
            if j == plen {
                assert(prefix@ =~= old_prefix);
            } else {
                // the scan stopped early: strings[i] ends here or differs
                // here from the first string, so no common prefix is longer
                assert(spec_starts_with(strings@[0]@, old_prefix));
                if j == max {
                    assert(s@.len() == j);
                    assert(spec_blocks_extension(strings@[0]@, strings@[i as int]@, prefix@));
                } else {
                    assert(strings@[0]@[j as int] == old_prefix[j as int]);
                    assert(spec_blocks_extension(strings@[0]@, strings@[i as int]@, prefix@));
                }
            }
        }
        i = i + 1;
    }
    prefix
}

} // verus!
