//! The tokenizer: splits one raw input line into argument words under
//! POSIX-like quoting rules. Outside quotes a backslash escapes the next
//! character and spaces separate words; single quotes make everything
//! literal; inside double quotes a backslash escapes only `"` and `\`.
use vstd::prelude::*;

use crate::text::push_char;
use crate::text::views_of;

verus! {

/// The scanning state of the tokenizer: whether the scan stands inside
/// single quotes, inside double quotes, and whether the previous character
/// was an escaping backslash.
pub struct LexState {
    pub in_single: bool,
    pub in_double: bool,
    pub escaped: bool,
}

/// The state in which scanning a line begins.
pub open spec fn spec_lex_start() -> LexState {
    LexState { in_single: false, in_double: false, escaped: false }
}

/// One left-to-right scan over the remaining characters `s`: `cur` is the
/// word being read and `acc` the words already complete. An unterminated
/// quote stays open to the end of the line, and a trailing backslash is
/// dropped.
pub open spec fn spec_tokenize_acc(
    s: Seq<char>,
    st: LexState,
    cur: Seq<char>,
    acc: Seq<Seq<char>>,
) -> Seq<Seq<char>>
    decreases s.len(),
{
    if s.len() == 0 {
        if cur.len() > 0 {
            acc.push(cur)
        } else {
            acc
        }
    } else {
        let c = s[0];
        let rest = s.drop_first();
        if st.escaped {
            spec_tokenize_acc(
                rest,
                LexState { in_single: st.in_single, in_double: st.in_double, escaped: false },
                cur.push(c),
                acc,
            )
        } else if c == '\\' {
            if st.in_single {
                spec_tokenize_acc(rest, st, cur.push(c), acc)
            } else if st.in_double {
                if s.len() >= 2 && (s[1] == '"' || s[1] == '\\') {
                    spec_tokenize_acc(
                        rest,
                        LexState {
                            in_single: st.in_single,
                            in_double: st.in_double,
                            escaped: true,
                        },
                        cur,
                        acc,
                    )
                } else {
                    spec_tokenize_acc(rest, st, cur.push(c), acc)
                }
            } else {
                spec_tokenize_acc(
                    rest,
                    LexState { in_single: st.in_single, in_double: st.in_double, escaped: true },
                    cur,
                    acc,
                )
            }
        } else if c == '\'' && !st.in_double {
            spec_tokenize_acc(
                rest,
                LexState { in_single: !st.in_single, in_double: st.in_double, escaped: false },
                cur,
                acc,
            )
        } else if c == '"' && !st.in_single {
            spec_tokenize_acc(
                rest,
                LexState { in_single: st.in_single, in_double: !st.in_double, escaped: false },
                cur,
                acc,
            )
        } else if c == ' ' && !st.in_single && !st.in_double {
            if cur.len() > 0 {
                spec_tokenize_acc(rest, st, Seq::<char>::empty(), acc.push(cur))
            } else {
                spec_tokenize_acc(rest, st, cur, acc)
            }
        } else {
            spec_tokenize_acc(rest, st, cur.push(c), acc)
        }
    }
}

/// The words of one raw input line.
pub open spec fn spec_tokenize(s: Seq<char>) -> Seq<Seq<char>> {
    spec_tokenize_acc(s, spec_lex_start(), Seq::<char>::empty(), Seq::<Seq<char>>::empty())
}

/// Splits one raw input line into argument words under the quoting rules.
pub fn input_line_parsing(input: &str) -> (r: Vec<String>)
    ensures
        views_of(r@) == spec_tokenize(input@),
{
    let n = input.unicode_len();
    let mut acc: Vec<String> = Vec::new();
    let mut cur = String::new();
    let mut in_single = false;
    let mut in_double = false;
    let mut escaped = false;
    proof {
        assert(input@.skip(0) =~= input@);
        assert(views_of(acc@) =~= Seq::<Seq<char>>::empty());
    }
    let mut i: usize = 0;
    while i < n
        invariant
            i <= n,
            n == input@.len(),
            spec_tokenize_acc(
                input@.skip(i as int),
                LexState { in_single, in_double, escaped },
                cur@,
                views_of(acc@),
            ) == spec_tokenize(input@),
        decreases n - i,
    {
        let c = input.get_char(i);
        proof {
            assert(input@.skip(i as int).drop_first() =~= input@.skip(i as int + 1));
            assert(input@.skip(i as int)[0] == input@[i as int]);
        }
        let ghost prev_views = views_of(acc@);
        if escaped {
            push_char(&mut cur, c);
            escaped = false;
        } else if c == '\\' {
            if in_single {
                push_char(&mut cur, c);
            } else if in_double {
                if i + 1 < n {
                    let nx = input.get_char(i + 1);
                    proof {
                        assert(input@.skip(i as int)[1] == input@[i as int + 1]);
                    }
                    if nx == '"' || nx == '\\' {
                        escaped = true;
                    } else {
                        push_char(&mut cur, c);
                    }
                } else {
                    push_char(&mut cur, c);
                }
            } else {
                escaped = true;
            }
        } else if c == '\'' && !in_double {
            in_single = !in_single;
        } else if c == '"' && !in_single {
            in_double = !in_double;
        } else if c == ' ' && !in_single && !in_double {
            if !cur.as_str().is_empty() {
                acc.push(cur);
                cur = String::new();
                proof {
                    assert(views_of(acc@) =~= prev_views.push(acc@.last()@));
                }
            }
        } else {
            push_char(&mut cur, c);
        }
        i = i + 1;
    }
    proof {
        assert(input@.skip(n as int) =~= Seq::<char>::empty());
    }
    if !cur.as_str().is_empty() {
        let ghost prev_views = views_of(acc@);
        acc.push(cur);
        proof {
            assert(views_of(acc@) =~= prev_views.push(acc@.last()@));
        }
    }
    acc
}

proof fn lemma_tokenize_acc_nonempty(s: Seq<char>, st: LexState, cur: Seq<char>, acc: Seq<Seq<char>>)
    requires
        forall|k: int| 0 <= k < acc.len() ==> (#[trigger] acc[k]).len() > 0,
    ensures
        forall|k: int|
            0 <= k < spec_tokenize_acc(s, st, cur, acc).len() ==> (#[trigger] spec_tokenize_acc(
                s,
                st,
                cur,
                acc,
            )[k]).len() > 0,
    decreases s.len(),
{
    if s.len() == 0 {
    } else {
        let c = s[0];
        let rest = s.drop_first();
        let un_esc = LexState { in_single: st.in_single, in_double: st.in_double, escaped: false };
        let esc = LexState { in_single: st.in_single, in_double: st.in_double, escaped: true };
        let flip_s = LexState {
            in_single: !st.in_single,
            in_double: st.in_double,
            escaped: false,
        };
        let flip_d = LexState {
            in_single: st.in_single,
            in_double: !st.in_double,
            escaped: false,
        };
        if st.escaped {
            lemma_tokenize_acc_nonempty(rest, un_esc, cur.push(c), acc);
            assert(spec_tokenize_acc(s, st, cur, acc) == spec_tokenize_acc(
                rest,
                un_esc,
                cur.push(c),
                acc,
            ));
        } else if c == '\\' {
            if st.in_single {
                lemma_tokenize_acc_nonempty(rest, st, cur.push(c), acc);
                assert(spec_tokenize_acc(s, st, cur, acc) == spec_tokenize_acc(
                    rest,
                    st,
                    cur.push(c),
                    acc,
                ));
            } else if st.in_double {
                if s.len() >= 2 && (s[1] == '"' || s[1] == '\\') {
                    lemma_tokenize_acc_nonempty(rest, esc, cur, acc);
                    assert(spec_tokenize_acc(s, st, cur, acc) == spec_tokenize_acc(
                        rest,
                        esc,
                        cur,
                        acc,
                    ));
                } else {
                    lemma_tokenize_acc_nonempty(rest, st, cur.push(c), acc);
                    assert(spec_tokenize_acc(s, st, cur, acc) == spec_tokenize_acc(
                        rest,
                        st,
                        cur.push(c),
                        acc,
                    ));
                }
            } else {
                lemma_tokenize_acc_nonempty(rest, esc, cur, acc);
                assert(spec_tokenize_acc(s, st, cur, acc) == spec_tokenize_acc(
                    rest,
                    esc,
                    cur,
                    acc,
                ));
            }
        } else if c == '\'' && !st.in_double {
            lemma_tokenize_acc_nonempty(rest, flip_s, cur, acc);
            assert(spec_tokenize_acc(s, st, cur, acc) == spec_tokenize_acc(rest, flip_s, cur, acc));
        } else if c == '"' && !st.in_single {
            lemma_tokenize_acc_nonempty(rest, flip_d, cur, acc);
            assert(spec_tokenize_acc(s, st, cur, acc) == spec_tokenize_acc(rest, flip_d, cur, acc));
        } else if c == ' ' && !st.in_single && !st.in_double {
            if cur.len() > 0 {
                lemma_tokenize_acc_nonempty(rest, st, Seq::<char>::empty(), acc.push(cur));
                assert(spec_tokenize_acc(s, st, cur, acc) == spec_tokenize_acc(
                    rest,
                    st,
                    Seq::<char>::empty(),
                    acc.push(cur),
                ));
            } else {
                lemma_tokenize_acc_nonempty(rest, st, cur, acc);
                assert(spec_tokenize_acc(s, st, cur, acc) == spec_tokenize_acc(rest, st, cur, acc));
            }
        } else {
            lemma_tokenize_acc_nonempty(rest, st, cur.push(c), acc);
            assert(spec_tokenize_acc(s, st, cur, acc) == spec_tokenize_acc(
                rest,
                st,
                cur.push(c),
                acc,
            ));
        }
    }
}

/// The tokenizer never produces an empty word: consecutive separators are
/// collapsed and a blank line gives no words at all.
pub proof fn lemma_tokens_nonempty(line: Seq<char>)
    ensures
        forall|k: int| 0 <= k < spec_tokenize(line).len() ==> spec_tokenize(line)[k].len() > 0,
{
    lemma_tokenize_acc_nonempty(
        line,
        spec_lex_start(),
        Seq::<char>::empty(),
        Seq::<Seq<char>>::empty(),
    );
}

/// The words of `toks` joined with a single space between each pair.
pub open spec fn spec_join(toks: Seq<Seq<char>>) -> Seq<char>
    decreases toks.len(),
{
    if toks.len() == 0 {
        Seq::<char>::empty()
    } else if toks.len() == 1 {
        toks[0]
    } else {
        toks[0] + seq![' '] + spec_join(toks.drop_first())
    }
}

/// Appending one more word to a join places a single space before it,
/// unless it is the first.
pub proof fn lemma_join_push(ts: Seq<Seq<char>>, t: Seq<char>)
    ensures
        spec_join(ts.push(t)) == (if ts.len() == 0 {
            t
        } else {
            spec_join(ts) + seq![' '] + t
        }),
    decreases ts.len(),
{
    if ts.len() == 0 {
        assert(ts.push(t).len() == 1);
        assert(ts.push(t)[0] == t);
    } else {
        lemma_join_push(ts.drop_first(), t);
        assert(ts.push(t).drop_first() =~= ts.drop_first().push(t));
        assert(ts.push(t)[0] == ts[0]);
        if ts.len() == 1 {
            assert(spec_join(ts.drop_first()) =~= Seq::<char>::empty());
            assert(spec_join(ts) == ts[0]);
        }
    }
}

/// Joins words with a single space between each pair.
pub fn join_tokens(tokens: &[String]) -> (r: String)
    ensures
        r@ == spec_join(views_of(tokens@)),
{
    let ghost toks = views_of(tokens@);
    let mut out = String::new();
    let n = tokens.len();
    let mut i: usize = 0;
    while i < n
        invariant
            i <= n,
            n == tokens@.len(),
            toks == views_of(tokens@),
            i == 0 ==> out@ == Seq::<char>::empty(),
            i > 0 ==> out@ == spec_join(toks.subrange(0, i as int)),
        decreases n - i,
    {
        if i > 0 {
            out.append(" ");
        }
        out.append(tokens[i].as_str());
        proof {
            reveal_strlit(" ");
            assert(" "@ =~= seq![' ']);
            lemma_join_push(toks.subrange(0, i as int), toks[i as int]);
            assert(toks.subrange(0, i as int).push(toks[i as int]) =~= toks.subrange(
                0,
                i as int + 1,
            ));
            if i > 0 {
                assert(out@ =~= spec_join(toks.subrange(0, i as int)) + seq![' ']
                    + toks[i as int]);
            } else {
                assert(out@ =~= toks[0]);
            }
        }
        i = i + 1;
    }
    proof {
        if n > 0 {
            assert(toks.subrange(0, n as int) =~= toks);
        }
    }
    out
}

/// True when no character of `t` is special to the tokenizer, so that `t`
/// rides through a scan unchanged.
pub open spec fn spec_no_special(t: Seq<char>) -> bool {
    forall|j: int|
        0 <= j < t.len() ==> !(t[j] == ' ' || t[j] == '\'' || t[j] == '"' || t[j] == '\\')
}

/// Scanning a word without special characters moves it whole into the word
/// being read.
proof fn lemma_scan_plain_word(t: Seq<char>, s: Seq<char>, cur: Seq<char>, acc: Seq<Seq<char>>)
    requires
        spec_no_special(t),
    ensures
        spec_tokenize_acc(t + s, spec_lex_start(), cur, acc) == spec_tokenize_acc(
            s,
            spec_lex_start(),
            cur + t,
            acc,
        ),
    decreases t.len(),
{
    if t.len() == 0 {
        assert(t + s =~= s);
        assert(cur + t =~= cur);
    } else {
        let c = t[0];
        assert((t + s)[0] == c);
        assert((t + s).drop_first() =~= t.drop_first() + s);
        lemma_scan_plain_word(t.drop_first(), s, cur.push(c), acc);
        assert(cur.push(c) + t.drop_first() =~= cur + t);
    }
}

/// Scanning a space after a non-empty word completes that word.
proof fn lemma_scan_space(s: Seq<char>, cur: Seq<char>, acc: Seq<Seq<char>>)
    ensures
        spec_tokenize_acc(seq![' '] + s, spec_lex_start(), cur, acc) == (if cur.len() > 0 {
            spec_tokenize_acc(s, spec_lex_start(), Seq::<char>::empty(), acc.push(cur))
        } else {
            spec_tokenize_acc(s, spec_lex_start(), cur, acc)
        }),
{
    assert((seq![' '] + s)[0] == ' ');
    assert((seq![' '] + s).drop_first() =~= s);
}

/// Tokenizing the joined words of `toks` appends exactly `toks` to the
/// words already accumulated.
proof fn lemma_tokenize_join_acc(toks: Seq<Seq<char>>, acc: Seq<Seq<char>>)
    requires
        forall|k: int| 0 <= k < toks.len() ==> spec_no_special(#[trigger] toks[k]),
        forall|k: int| 0 <= k < toks.len() ==> #[trigger] toks[k].len() > 0,
    ensures
        spec_tokenize_acc(spec_join(toks), spec_lex_start(), Seq::<char>::empty(), acc) == acc
            + toks,
    decreases toks.len(),
{
    if toks.len() == 0 {
        assert(acc + toks =~= acc);
    } else if toks.len() == 1 {
        assert(toks[0] =~= toks[0] + Seq::<char>::empty());
        lemma_scan_plain_word(toks[0], Seq::<char>::empty(), Seq::<char>::empty(), acc);
        assert(Seq::<char>::empty() + toks[0] =~= toks[0]);
        assert(acc + toks =~= acc.push(toks[0]));
    } else {
        let rest = toks.drop_first();
        assert(spec_join(toks) =~= toks[0] + (seq![' '] + spec_join(rest)));
        lemma_scan_plain_word(toks[0], seq![' '] + spec_join(rest), Seq::<char>::empty(), acc);
        assert(Seq::<char>::empty() + toks[0] =~= toks[0]);
        lemma_scan_space(spec_join(rest), toks[0], acc);
        lemma_tokenize_join_acc(rest, acc.push(toks[0]));
        assert(acc.push(toks[0]) + rest =~= acc + toks);
    }
}

/// Joining words that hold no character special to the tokenizer with
/// single spaces and tokenizing the result gives back exactly those words.
pub proof fn lemma_tokenize_join(toks: Seq<Seq<char>>)
    requires
        forall|k: int| 0 <= k < toks.len() ==> spec_no_special(#[trigger] toks[k]),
        forall|k: int| 0 <= k < toks.len() ==> #[trigger] toks[k].len() > 0,
    ensures
        spec_tokenize(spec_join(toks)) == toks,
{
    lemma_tokenize_join_acc(toks, Seq::<Seq<char>>::empty());
    assert(Seq::<Seq<char>>::empty() + toks =~= toks);
}

/// Round-trip stability: when tokenizing a line needed no quoting or
/// escaping (no word of the result holds a character special to the
/// tokenizer), re-joining the words with single spaces and tokenizing again
/// gives the same words.
pub proof fn lemma_tokenize_round_trip(line: Seq<char>)
    requires
        forall|k: int|
            0 <= k < spec_tokenize(line).len() ==> spec_no_special(#[trigger] spec_tokenize(line)[k]),
    ensures
        spec_tokenize(spec_join(spec_tokenize(line))) == spec_tokenize(line),
{
    lemma_tokens_nonempty(line);
    lemma_tokenize_join(spec_tokenize(line));
}

} // verus!
