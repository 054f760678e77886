//! Decoding of one complete SSE frame into its data payload.
//!
//! A frame is split into lines at `\n`.  Each line is trimmed of
//! ASCII whitespace; comment lines starting with `:` are ignored, and
//! the remainders of lines starting with the literal prefix `data: `
//! are joined with a single `\n` between them, per the SSE
//! multi-line-data continuation rule.  All other lines are ignored.

use crate::frame::LF;
use vstd::prelude::*;

verus! {

/// ASCII whitespace, the bytes the `data:` line margins are stripped
/// of.  Trimming is deliberately ASCII-only: it happens before the
/// bytes are decoded to text, so a multi-byte character — including a
/// non-ASCII Unicode whitespace such as a no-break space — on a
/// line's margin is kept, not stripped.
pub open spec fn is_ws(b: u8) -> bool {
    b == 9 || b == 10 || b == 11 || b == 12 || b == 13 || b == 32
}

/// `s` without its leading ASCII whitespace.
pub open spec fn drop_leading_ws(s: Seq<u8>) -> Seq<u8>
    decreases s.len(),
{
    if s.len() > 0 && is_ws(s[0]) {
        drop_leading_ws(s.skip(1))
    } else {
        s
    }
}

/// `s` without its trailing ASCII whitespace.
pub open spec fn drop_trailing_ws(s: Seq<u8>) -> Seq<u8>
    decreases s.len(),
{
    if s.len() > 0 && is_ws(s[s.len() - 1]) {
        drop_trailing_ws(s.take(s.len() - 1))
    } else {
        s
    }
}

/// `s` without leading and trailing ASCII whitespace.
pub open spec fn spec_trim(s: Seq<u8>) -> Seq<u8> {
    drop_trailing_ws(drop_leading_ws(s))
}

proof fn lemma_drop_leading_ws_skip(s: Seq<u8>, k: int)
    requires
        0 <= k <= s.len(),
        forall|j: int| 0 <= j < k ==> is_ws(s[j]),
    ensures
        drop_leading_ws(s) == drop_leading_ws(s.skip(k)),
    decreases k,
{
    if k > 0 {
        assert(is_ws(s[0]));
        lemma_drop_leading_ws_skip(s.skip(1), k - 1);
        assert(s.skip(1).skip(k - 1) =~= s.skip(k));
    } else {
        assert(s.skip(0) =~= s);
    }
}

proof fn lemma_drop_trailing_ws_take(s: Seq<u8>, k: int)
    requires
        0 <= k <= s.len(),
        forall|j: int| k <= j < s.len() ==> is_ws(s[j]),
    ensures
        drop_trailing_ws(s) == drop_trailing_ws(s.take(k)),
    decreases s.len(),
{
    if s.len() > k {
        assert(is_ws(s[s.len() - 1]));
        lemma_drop_trailing_ws_take(s.take(s.len() - 1), k);
        assert(s.take(s.len() - 1).take(k) =~= s.take(k));
    } else {
        assert(s.take(k) =~= s);
    }
}

/// The trimmed text is the range `[lo, hi)` when everything before
/// `lo` and after `hi` is whitespace and the ends of the range are not.
proof fn lemma_trim_range(s: Seq<u8>, lo: int, hi: int)
    requires
        0 <= lo <= hi <= s.len(),
        forall|j: int| 0 <= j < lo ==> is_ws(s[j]),
        forall|j: int| hi <= j < s.len() ==> is_ws(s[j]),
        lo < hi ==> !is_ws(s[lo]) && !is_ws(s[hi - 1]),
        lo == hi ==> lo == s.len(),
    ensures
        spec_trim(s) == s.subrange(lo, hi),
{
    lemma_drop_leading_ws_skip(s, lo);
    let t = s.skip(lo);
    if lo < hi {
        assert(!is_ws(t[0]));
    } else {
        assert(t.len() == 0);
    }
    assert(drop_leading_ws(t) == t);
    lemma_drop_trailing_ws_take(t, hi - lo);
    let u = t.take(hi - lo);
    assert(u =~= s.subrange(lo, hi));
    if lo < hi {
        assert(u[u.len() - 1] == s[hi - 1]);
    }
    assert(drop_trailing_ws(u) == u);
}

/// Positions of the trimmed part of `s`: `spec_trim(s@)` is exactly
/// `s@.subrange(r.0, r.1)`.
fn trim_bounds(s: &[u8]) -> (r: (usize, usize))
    ensures
        r.0 <= r.1 <= s@.len(),
        spec_trim(s@) == s@.subrange(r.0 as int, r.1 as int),
{
    let n = s.len();
    let mut lo: usize = 0;
    while lo < n && (s[lo] == 9 || s[lo] == 10 || s[lo] == 11 || s[lo] == 12 || s[lo] == 13
        || s[lo] == 32)
        invariant
            lo <= n,
            n == s@.len(),
            forall|j: int| 0 <= j < lo ==> is_ws(s@[j]),
        decreases n - lo,
    {
        lo = lo + 1;
    }
    let mut hi: usize = n;
    while hi > lo && (s[hi - 1] == 9 || s[hi - 1] == 10 || s[hi - 1] == 11 || s[hi - 1] == 12
        || s[hi - 1] == 13 || s[hi - 1] == 32)
        invariant
            lo <= hi <= n,
            n == s@.len(),
            lo < n ==> !is_ws(s@[lo as int]),
            lo < n ==> hi > lo,
            forall|j: int| hi <= j < n ==> is_ws(s@[j]),
        decreases hi,
    {
        hi = hi - 1;
    }
    proof {
        lemma_trim_range(s@, lo as int, hi as int);
    }
    (lo, hi)
}

/// Position of the first `\n` of `s`; `s.len()` when there is none.
pub open spec fn first_lf(s: Seq<u8>) -> nat
    decreases s.len(),
{
    if s.len() == 0 {
        0
    } else if s[0] == LF {
        0
    } else {
        1 + first_lf(s.skip(1))
    }
}

/// `first_lf` returns the least `\n` position, or `s.len()`.
proof fn lemma_first_lf(s: Seq<u8>)
    ensures
        first_lf(s) <= s.len(),
        first_lf(s) < s.len() ==> s[first_lf(s) as int] == LF,
        forall|j: int| 0 <= j < first_lf(s) ==> s[j] != LF,
    decreases s.len(),
{
    if s.len() == 0 {
    } else if s[0] == LF {
    } else {
        let t = s.skip(1);
        lemma_first_lf(t);
        assert forall|j: int| 0 <= j < first_lf(s) implies s[j] != LF by {
            if j > 0 {
                assert(t[j - 1] != LF);
            }
        }
    }
}

/// A `\n` at `i` with none before it pins `first_lf` to `i`; no `\n`
/// at all pins it to `s.len()`.
proof fn lemma_first_lf_at(s: Seq<u8>, i: int)
    requires
        0 <= i <= s.len(),
        i < s.len() ==> s[i] == LF,
        forall|j: int| 0 <= j < i ==> s[j] != LF,
    ensures
        i < s.len() ==> first_lf(s) == i,
        i == s.len() ==> first_lf(s) == s.len(),
    decreases s.len(),
{
    lemma_first_lf(s);
    let f = first_lf(s) as int;
    if i < s.len() {
        if f < i {
            assert(s[f] != LF);
        }
        if i < f {
            assert(s[i] != LF);
        }
    } else {
        if f < s.len() {
            assert(s[f] != LF);
        }
    }
}

/// The lines of `s`, split at each `\n`; the final line is the part
/// after the last `\n`, possibly empty.
pub open spec fn lines_of(s: Seq<u8>) -> Seq<Seq<u8>>
    decreases s.len(),
{
    let f = first_lf(s) as int;
    if f < s.len() {
        seq![s.take(f)] + lines_of(s.skip(f + 1))
    } else {
        seq![s]
    }
}

/// The literal prefix `data: ` that marks a payload line.
pub open spec fn data_prefix() -> Seq<u8> {
    seq![100u8, 97u8, 116u8, 97u8, 58u8, 32u8]
}

/// A trimmed line that the SSE rules call a comment.
pub open spec fn is_comment(t: Seq<u8>) -> bool {
    t.len() > 0 && t[0] == 58
}

/// A trimmed line that carries payload data.
pub open spec fn is_data(t: Seq<u8>) -> bool {
    t.len() >= 6 && t.take(6) == data_prefix()
}

/// Accumulates one line into the payload gathered so far: comments
/// and non-`data:` lines change nothing; the remainder of a `data:`
/// line is appended, after a joining `\n` when data was already there.
pub open spec fn line_step(acc: Seq<u8>, line: Seq<u8>) -> Seq<u8> {
    let t = spec_trim(line);
    if is_comment(t) {
        acc
    } else if is_data(t) {
        if acc.len() == 0 {
            t.skip(6)
        } else {
            acc + seq![LF] + t.skip(6)
        }
    } else {
        acc
    }
}

/// Folds `line_step` over a sequence of lines.
pub open spec fn payload_join(acc: Seq<u8>, lines: Seq<Seq<u8>>) -> Seq<u8>
    decreases lines.len(),
{
    if lines.len() == 0 {
        acc
    } else {
        payload_join(line_step(acc, lines[0]), lines.skip(1))
    }
}

/// The data payload of one complete frame: empty when the frame
/// carries no `data:` line.
pub open spec fn payload_of(frame: Seq<u8>) -> Seq<u8> {
    payload_join(Seq::empty(), lines_of(frame))
}

/// The payload literal `[DONE]` that signals the graceful end of a stream.
pub open spec fn sentinel() -> Seq<u8> {
    seq![91u8, 68u8, 79u8, 78u8, 69u8, 93u8]
}

/// Whether a payload is the termination sentinel `[DONE]`.
pub fn is_sentinel(p: &[u8]) -> (r: bool)
    ensures
        r <==> p@ == sentinel(),
{
    if p.len() == 6 && p[0] == 91 && p[1] == 68 && p[2] == 79 && p[3] == 78 && p[4] == 69
        && p[5] == 93 {
        proof {
            assert(p@ =~= sentinel());
        }
        true
    } else {
        proof {
            if p@ == sentinel() {
                assert(p@.len() == 6);
                assert(p@[0] == 91 && p@[1] == 68 && p@[2] == 79 && p@[3] == 78 && p@[4] == 69
                    && p@[5] == 93);
                assert(false);
            }
        }
        false
    }
}

/// Decodes one complete frame into its joined `data:` payload.
pub fn decode_event(frame: &[u8]) -> (out: Vec<u8>)
    ensures
        out@ == payload_of(frame@),
{
    let n = frame.len();
    let mut acc: Vec<u8> = Vec::new();
    let mut pos: usize = 0;
    let mut done: bool = false;
    proof {
        assert(frame@.skip(0) =~= frame@);
    }
    while !done
        invariant
            pos <= n,
            n == frame@.len(),
            !done ==> payload_join(acc@, lines_of(frame@.skip(pos as int))) == payload_of(
                frame@,
            ),
            done ==> acc@ == payload_of(frame@),
        decreases n - pos + (if done { 0int } else { 1int }),
    {
        let ghost suffix = frame@.skip(pos as int);
        let mut e: usize = pos;
        while e < n && frame[e] != 10
            invariant
                pos <= e <= n,
                n == frame@.len(),
                forall|j: int| pos <= j < e ==> frame@[j] != LF,
            decreases n - e,
        {
            e = e + 1;
        }
        proof {
            assert forall|j: int| 0 <= j < e - pos implies suffix[j] != LF by {
                assert(suffix[j] == frame@[pos + j]);
            }
            if e < n {
                assert(suffix[e - pos] == frame@[e as int]);
            }
            lemma_first_lf_at(suffix, e - pos);
        }
        let line: &[u8] = &frame[pos..e];
        proof {
            assert(line@ =~= suffix.take(e - pos));
            if e < n {
                assert(lines_of(suffix) == seq![line@] + lines_of(suffix.skip(e - pos + 1)));
            } else {
                assert(line@ =~= suffix);
                assert(lines_of(suffix) == seq![line@]);
            }
        }
        let (lo, hi) = trim_bounds(line);
        let ghost t = spec_trim(line@);
        let ghost acc0 = acc@;
        if hi > lo && line[lo] == 58 {
            proof {
                assert(t[0] == line@[lo as int]);
                assert(is_comment(t));
            }
        } else if hi - lo >= 6 && line[lo] == 100 && line[lo + 1] == 97 && line[lo + 2] == 116
            && line[lo + 3] == 97 && line[lo + 4] == 58 && line[lo + 5] == 32 {
            proof {
                assert(t.take(6) =~= data_prefix());
                assert(is_data(t));
                assert(!is_comment(t));
            }
            if acc.len() > 0 {
                acc.push(10);
            }
            let content: &[u8] = &line[lo + 6..hi];
            acc.extend_from_slice(content);
            proof {
                assert(content@ =~= t.skip(6));
                if acc0.len() == 0 {
                    assert(acc@ =~= t.skip(6));
                } else {
                    assert(acc@ =~= acc0 + seq![LF] + t.skip(6));
                }
            }
        } else {
            proof {
                if t.len() > 0 && t[0] == 58 {
                    assert(hi > lo);
                    assert(line@[lo as int] == t[0]);
                    assert(false);
                }
                assert(!is_comment(t));
                if is_data(t) {
                    assert(hi - lo >= 6);
                    assert(t[0] == line@[lo as int] && t[1] == line@[lo as int + 1] && t[2]
                        == line@[lo as int + 2] && t[3] == line@[lo as int + 3] && t[4] == line@[
                        lo as int + 4] && t[5] == line@[lo as int + 5]);
                    assert(t.take(6)[0] == data_prefix()[0] && t.take(6)[1] == data_prefix()[1]
                        && t.take(6)[2] == data_prefix()[2] && t.take(6)[3] == data_prefix()[3]
                        && t.take(6)[4] == data_prefix()[4] && t.take(6)[5] == data_prefix()[5]);
                    assert(line@[lo as int] == 100 && line@[lo as int + 1] == 97 && line@[lo as int
                        + 2] == 116 && line@[lo as int + 3] == 97 && line@[lo as int + 4] == 58
                        && line@[lo as int + 5] == 32);
                    assert(false);
                }
                assert(!is_data(t));
            }
        }
        proof {
            assert(acc@ == line_step(acc0, line@));
        }
        if e < n {
            proof {
                let rest = suffix.skip(e - pos + 1);
                assert(lines_of(suffix) == seq![line@] + lines_of(rest));
                assert((seq![line@] + lines_of(rest))[0] == line@);
                assert((seq![line@] + lines_of(rest)).skip(1) =~= lines_of(rest));
                assert(payload_join(acc0, lines_of(suffix)) == payload_join(
                    line_step(acc0, line@),
                    lines_of(rest),
                ));
                assert(frame@.skip(e + 1) =~= rest);
            }
            pos = e + 1;
        } else {
            done = true;
            proof {
                assert(lines_of(suffix) == seq![line@]);
                assert(seq![line@][0] == line@);
                assert(seq![line@].skip(1) =~= Seq::<Seq<u8>>::empty());
                assert(payload_join(acc0, lines_of(suffix)) == payload_join(
                    line_step(acc0, line@),
                    seq![line@].skip(1),
                ));
            }
        }
    }
    acc
}

} // verus!
