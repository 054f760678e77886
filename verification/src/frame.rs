//! Reassembly of SSE frames from raw transport bytes.
//!
//! A complete frame is a maximal byte range ending at the first
//! occurrence of the two-byte delimiter `\n\n`, scanning forward from
//! the buffer head.  Bytes are never reordered or dropped except as
//! fully consumed complete frames.

use vstd::prelude::*;

verus! {

/// The line-feed byte, `\n`.
pub const LF: u8 = 10;

/// The frame delimiter `\n\n` starts at position `i` of `s`.
pub open spec fn is_delim_at(s: Seq<u8>, i: int) -> bool {
    &&& 0 <= i
    &&& i + 1 < s.len()
    &&& s[i] == LF
    &&& s[i + 1] == LF
}

/// Position of the first frame delimiter of `s`; `s.len()` when there
/// is none.  A delimiter exists exactly when `first_delim(s) + 2 <= s.len()`.
pub open spec fn first_delim(s: Seq<u8>) -> nat
    decreases s.len(),
{
    if s.len() < 2 {
        s.len()
    } else if s[0] == LF && s[1] == LF {
        0
    } else {
        1 + first_delim(s.skip(1))
    }
}

/// `first_delim` returns the least delimiter position, or `s.len()`.
pub proof fn lemma_first_delim(s: Seq<u8>)
    ensures
        first_delim(s) <= s.len(),
        first_delim(s) + 2 <= s.len() ==> is_delim_at(s, first_delim(s) as int),
        forall|j: int| 0 <= j < first_delim(s) ==> !is_delim_at(s, j),
    decreases s.len(),
{
    if s.len() < 2 {
    } else if s[0] == LF && s[1] == LF {
    } else {
        let t = s.skip(1);
        lemma_first_delim(t);
        assert(forall|j: int| 0 <= j < first_delim(t) ==> !is_delim_at(t, j));
        assert forall|j: int| 0 <= j < first_delim(s) implies !is_delim_at(s, j) by {
            if j > 0 {
                assert(t[j - 1] == s[j] && j < s.len() ==> t[j - 1] == s[j]);
                assert(!is_delim_at(t, j - 1));
            }
        }
        if first_delim(t) + 2 <= t.len() {
            assert(is_delim_at(t, first_delim(t) as int));
            assert(s[first_delim(s) as int] == t[first_delim(t) as int]);
            assert(s[first_delim(s) as int + 1] == t[first_delim(t) as int + 1]);
        }
    }
}

/// A delimiter at `i` with none before it pins `first_delim` to `i`.
proof fn lemma_first_delim_at(s: Seq<u8>, i: int)
    requires
        is_delim_at(s, i),
        forall|j: int| 0 <= j < i ==> !is_delim_at(s, j),
    ensures
        first_delim(s) == i,
{
    lemma_first_delim(s);
    let f = first_delim(s);
    if f + 2 <= s.len() {
        if f < i {
            assert(!is_delim_at(s, f as int));
        }
        if i < f {
            assert(!is_delim_at(s, i));
        }
    } else {
        assert(i < f);
        assert(!is_delim_at(s, i));
    }
}

/// Appending bytes does not move an already present first delimiter.
proof fn lemma_first_delim_append(a: Seq<u8>, b: Seq<u8>)
    requires
        first_delim(a) + 2 <= a.len(),
    ensures
        first_delim(a + b) == first_delim(a),
{
    lemma_first_delim(a);
    let f = first_delim(a) as int;
    assert(is_delim_at(a + b, f));
    assert forall|j: int| 0 <= j < f implies !is_delim_at(a + b, j) by {
        assert(!is_delim_at(a, j));
        assert((a + b)[j] == a[j]);
        assert((a + b)[j + 1] == a[j + 1]);
    }
    lemma_first_delim_at(a + b, f);
}

/// The complete frames at the head of `s`, in order, each ending with
/// the delimiter, and the residue left after the last of them.
pub open spec fn split_frames(s: Seq<u8>) -> (Seq<Seq<u8>>, Seq<u8>)
    decreases s.len(),
{
    let f = first_delim(s) as int;
    if f + 2 <= s.len() {
        let rest = split_frames(s.skip(f + 2));
        (seq![s.take(f + 2)] + rest.0, rest.1)
    } else {
        (Seq::empty(), s)
    }
}

/// The residue never holds a complete frame.
pub proof fn lemma_split_frames_residue(s: Seq<u8>)
    ensures
        first_delim(split_frames(s).1) + 2 > split_frames(s).1.len(),
    decreases s.len(),
{
    let f = first_delim(s) as int;
    if f + 2 <= s.len() {
        lemma_split_frames_residue(s.skip(f + 2));
    }
}

/// Splitting `a + b` finds first the frames of `a`, then the frames
/// of `a`'s residue joined with `b`: buffering bytes and splitting
/// later loses nothing and invents nothing.
pub proof fn lemma_split_frames_append(a: Seq<u8>, b: Seq<u8>)
    ensures
        split_frames(a + b).0 == split_frames(a).0 + split_frames(split_frames(a).1 + b).0,
        split_frames(a + b).1 == split_frames(split_frames(a).1 + b).1,
    decreases a.len(),
{
    let f = first_delim(a) as int;
    if f + 2 <= a.len() {
        lemma_first_delim_append(a, b);
        assert((a + b).take(f + 2) =~= a.take(f + 2));
        assert((a + b).skip(f + 2) =~= a.skip(f + 2) + b);
        lemma_split_frames_append(a.skip(f + 2), b);
        assert(split_frames(a + b).0 =~= split_frames(a).0 + split_frames(split_frames(a).1 + b).0);
    } else {
        assert(split_frames(a).1 + b =~= a + b);
        assert(split_frames(a + b).0 =~= split_frames(a).0 + split_frames(split_frames(a).1 + b).0);
    }
}

/// Byte accumulator owned by one stream: bytes go in at the tail, and
/// complete frames come out at the head as soon as they are complete.
pub struct FrameBuffer {
    data: Vec<u8>,
}

impl View for FrameBuffer {
    type V = Seq<u8>;

    closed spec fn view(&self) -> Seq<u8> {
        self.data@
    }
}

impl FrameBuffer {
    /// An empty buffer.
    pub fn new() -> (b: Self)
        ensures
            b@ == Seq::<u8>::empty(),
    {
        FrameBuffer { data: Vec::new() }
    }

    /// How many bytes are buffered.
    pub fn len(&self) -> (n: usize)
        ensures
            n == self@.len(),
    {
        self.data.len()
    }

    /// Whether the buffer holds no bytes.
    pub fn is_empty(&self) -> (r: bool)
        ensures
            r <==> self@.len() == 0,
    {
        self.data.len() == 0
    }

    /// Adds `chunk` at the tail of the buffer.
    pub fn append(&mut self, chunk: &[u8])
        ensures
            final(self)@ == old(self)@ + chunk@,
    {
        self.data.extend_from_slice(chunk);
        assert(self.data@ =~= old(self)@ + chunk@);
    }

    /// Removes and returns the first complete frame, delimiter
    /// included, when one is buffered; leaves the buffer untouched and
    /// returns nothing otherwise.
    pub fn extract_next_frame(&mut self) -> (r: Option<Vec<u8>>)
        ensures
            first_delim(old(self)@) + 2 <= old(self)@.len() ==> {
                &&& r is Some
                &&& r->Some_0@ == old(self)@.take(first_delim(old(self)@) as int + 2)
                &&& final(self)@ == old(self)@.skip(first_delim(old(self)@) as int + 2)
            },
            first_delim(old(self)@) + 2 > old(self)@.len() ==> {
                &&& r is None
                &&& final(self)@ == old(self)@
            },
    {
        let n = self.data.len();
        let mut i: usize = 0;
        let mut found: bool = false;
        if n >= 2 {
            while i < n - 1 && !found
                invariant
                    n >= 2,
                    n == self@.len(),
                    *self == *old(self),
                    i <= n - 1,
                    found ==> i + 1 < n && is_delim_at(self@, i as int),
                    forall|j: int| 0 <= j < i ==> !is_delim_at(self@, j),
                decreases n - i + (if found { 0int } else { 1int }),
            {
                if self.data[i] == 10u8 && self.data[i + 1] == 10u8 {
                    found = true;
                } else {
                    i = i + 1;
                }
            }
        }
        if found {
            proof {
                lemma_first_delim_at(self@, i as int);
            }
            let mut tail = self.data.split_off(i + 2);
            core::mem::swap(&mut self.data, &mut tail);
            assert(tail@ =~= old(self)@.take(i + 2));
            Some(tail)
        } else {
            proof {
                lemma_first_delim(self@);
                if first_delim(self@) + 2 <= self@.len() {
                    assert(is_delim_at(self@, first_delim(self@) as int));
                }
            }
            None
        }
    }

    /// Removes and returns everything still buffered: the residual
    /// bytes of a stream that ended without a final delimiter.
    pub fn take_residue(&mut self) -> (r: Vec<u8>)
        ensures
            r@ == old(self)@,
            final(self)@ == Seq::<u8>::empty(),
    {
        let mut out: Vec<u8> = Vec::new();
        core::mem::swap(&mut self.data, &mut out);
        out
    }
}

} // verus!
