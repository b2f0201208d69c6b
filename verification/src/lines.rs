//! Byte-level line discipline shared by every textual format of the crate.
//!
//! All wire text is a sequence of bytes; a line is a maximal run of bytes
//! not containing `\n`.  [`take_line`] is the specification of reading one
//! line; the executable readers and writers below are proved against it.

use vstd::prelude::*;
use vstd::slice::{slice_index_get, slice_subrange, slice_to_vec};

verus! {

/// Whether byte `b` occurs in `s`.
pub open spec fn contains_byte(s: Seq<u8>, b: u8) -> bool {
    exists|i: int| 0 <= i < s.len() && s[i] == b
}

/// A byte sequence that can stand as one line: it holds no newline.
pub open spec fn line_free(s: Seq<u8>) -> bool {
    !contains_byte(s, 10)
}

/// Reading one line: the bytes before the first `\n` and the bytes after
/// it.  A final line without a terminating `\n` still counts as a line.
/// `None` only on empty input.
pub open spec fn take_line(s: Seq<u8>) -> Option<(Seq<u8>, Seq<u8>)>
    decreases s.len(),
{
    if s.len() == 0 {
        None
    } else if s[0] == 10 {
        Some((Seq::empty(), s.drop_first()))
    } else {
        match take_line(s.drop_first()) {
            None => Some((s, Seq::empty())),
            Some(p) => Some((seq![s[0]] + p.0, p.1)),
        }
    }
}

/// A taken line holds no newline, the rest is strictly shorter, and the
/// two together reconstruct the input.
pub proof fn lemma_take_line_shape(s: Seq<u8>)
    requires
        take_line(s) is Some,
    ensures
        line_free(take_line(s)->Some_0.0),
        take_line(s)->Some_0.1.len() < s.len(),
        s == take_line(s)->Some_0.0 + seq![10u8] + take_line(s)->Some_0.1
            || (take_line(s)->Some_0.1.len() == 0 && s == take_line(s)->Some_0.0),
    decreases s.len(),
{
    let p = take_line(s)->Some_0;
    if s[0] == 10 {
        assert(s =~= p.0 + seq![10u8] + p.1);
    } else {
        match take_line(s.drop_first()) {
            None => {
                assert(s.drop_first().len() == 0);
                assert(p.0 == s && s.len() == 1);
                assert(p.1.len() == 0);
                assert(line_free(p.0)) by {
                    if contains_byte(p.0, 10) {
                        let i = choose|i: int| 0 <= i < p.0.len() && p.0[i] == 10;
                        assert(i == 0);
                    }
                }
            },
            Some(q) => {
                lemma_take_line_shape(s.drop_first());
                assert(line_free(p.0)) by {
                    if contains_byte(p.0, 10) {
                        let i = choose|i: int| 0 <= i < p.0.len() && p.0[i] == 10;
                        if i > 0 {
                            assert(q.0[i - 1] == 10);
                        }
                    }
                }
                assert(take_line(s) == Some::<(Seq<u8>, Seq<u8>)>((seq![s[0]] + q.0, q.1)));
                if s.drop_first() == q.0 + seq![10u8] + q.1 {
                    assert(s =~= seq![s[0]] + s.drop_first());
                    assert(seq![s[0]] + (q.0 + seq![10u8] + q.1)
                        =~= (seq![s[0]] + q.0) + seq![10u8] + q.1);
                } else {
                    assert(q.1.len() == 0 && s.drop_first() == q.0);
                    assert(s =~= seq![s[0]] + q.0);
                }
            },
        }
    }
}

/// Reading a line does not look past a terminating newline: on input that
/// ends with one, appending more text leaves the first line as it was and
/// appends to the rest.
pub proof fn lemma_take_line_append(a: Seq<u8>, b: Seq<u8>)
    requires
        a.len() > 0,
        a.last() == 10,
    ensures
        take_line(a) is Some,
        take_line(a + b) == Some::<(Seq<u8>, Seq<u8>)>(
            (take_line(a)->Some_0.0, take_line(a)->Some_0.1 + b)),
    decreases a.len(),
{
    if a[0] == 10 {
        assert((a + b)[0] == 10);
        assert((a + b).drop_first() =~= a.drop_first() + b);
    } else {
        assert(a.len() >= 2);
        assert(a.drop_first().last() == a.last());
        lemma_take_line_append(a.drop_first(), b);
        assert((a + b)[0] == a[0]);
        assert((a + b).drop_first() =~= a.drop_first() + b);
        let q = take_line(a.drop_first())->Some_0;
        assert(take_line(a) == Some::<(Seq<u8>, Seq<u8>)>((seq![a[0]] + q.0, q.1)));
        assert(take_line(a + b) == Some::<(Seq<u8>, Seq<u8>)>((seq![a[0]] + q.0, q.1 + b)));
    }
}

/// Reading a line off `l + "\n" + r` gives back exactly `l` and `r`.
pub proof fn lemma_take_line_concat(l: Seq<u8>, r: Seq<u8>)
    requires
        line_free(l),
    ensures
        take_line(l + seq![10u8] + r) == Some::<(Seq<u8>, Seq<u8>)>((l, r)),
    decreases l.len(),
{
    let s = l + seq![10u8] + r;
    if l.len() == 0 {
        assert(s[0] == 10);
        assert(s.drop_first() =~= r);
        assert(l =~= Seq::<u8>::empty());
    } else {
        assert(s[0] == l[0]);
        assert(l[0] != 10) by {
            if l[0] == 10 {
                assert(contains_byte(l, 10));
            }
        }
        assert(line_free(l.drop_first())) by {
            if contains_byte(l.drop_first(), 10) {
                let i = choose|i: int| 0 <= i < l.drop_first().len() && l.drop_first()[i] == 10;
                assert(l[i + 1] == 10);
            }
        }
        lemma_take_line_concat(l.drop_first(), r);
        assert(s.drop_first() =~= l.drop_first() + seq![10u8] + r);
        assert(seq![s[0]] + l.drop_first() =~= l);
    }
}

/// Reading a line off a newline-free, nonempty tail gives the whole tail.
pub proof fn lemma_take_line_unterminated(l: Seq<u8>)
    requires
        line_free(l),
        l.len() > 0,
    ensures
        take_line(l) == Some::<(Seq<u8>, Seq<u8>)>((l, Seq::<u8>::empty())),
    decreases l.len(),
{
    assert(l[0] != 10) by {
        if l[0] == 10 {
            assert(contains_byte(l, 10));
        }
    }
    if l.len() == 1 {
        assert(l.drop_first().len() == 0);
        assert(take_line(l.drop_first()) is None);
        assert(take_line(l) == Some::<(Seq<u8>, Seq<u8>)>((l, Seq::<u8>::empty())));
    } else {
        assert(line_free(l.drop_first())) by {
            if contains_byte(l.drop_first(), 10) {
                let i = choose|i: int| 0 <= i < l.drop_first().len() && l.drop_first()[i] == 10;
                assert(l[i + 1] == 10);
            }
        }
        lemma_take_line_unterminated(l.drop_first());
        assert(seq![l[0]] + l.drop_first() =~= l);
        assert(take_line(l) == Some::<(Seq<u8>, Seq<u8>)>((seq![l[0]] + l.drop_first(),
            Seq::<u8>::empty())));
    }
}

/// Reads the line starting at `pos`, returning its bytes and the position
/// just past it, exactly as [`take_line`] describes on the remaining input.
pub fn read_line(s: &[u8], pos: usize) -> (r: Option<(Vec<u8>, usize)>)
    requires
        pos <= s@.len(),
    ensures
        match r {
            Some(lr) => pos < lr.1 <= s@.len() && take_line(s@.skip(pos as int))
                == Some::<(Seq<u8>, Seq<u8>)>((lr.0@, s@.skip(lr.1 as int))),
            None => pos == s@.len(),
        },
{
    if pos == s.len() {
        return None;
    }
    let mut i: usize = pos;
    while i < s.len() && *slice_index_get(s, i) != 10
        invariant
            pos <= i <= s@.len(),
            forall|j: int| pos <= j < i ==> s@[j] != 10,
        decreases s@.len() - i,
    {
        i = i + 1;
    }
    let ghost tail = s@.skip(pos as int);
    let ghost l = s@.subrange(pos as int, i as int);
    proof {
        assert(line_free(l)) by {
            if contains_byte(l, 10) {
                let k = choose|k: int| 0 <= k < l.len() && l[k] == 10;
                assert(s@[pos + k] == 10);
            }
        }
    }
    let line = slice_to_vec(slice_subrange(s, pos, i));
    if i < s.len() {
        proof {
            lemma_take_line_concat(l, s@.skip(i as int + 1));
            assert(tail =~= l + seq![10u8] + s@.skip(i as int + 1));
        }
        Some((line, i + 1))
    } else {
        proof {
            lemma_take_line_unterminated(l);
            assert(tail =~= l);
            assert(s@.skip(s@.len() as int) =~= Seq::<u8>::empty());
        }
        Some((line, i))
    }
}

/// Prefix stripping: `Some(rest)` exactly when `p` is a prefix of `s`.
pub open spec fn spec_strip_prefix(s: Seq<u8>, p: Seq<u8>) -> Option<Seq<u8>> {
    if p.len() <= s.len() && s.take(p.len() as int) == p {
        Some(s.skip(p.len() as int))
    } else {
        None
    }
}

/// Strips `p` off the front of `s` when it stands there.
pub fn strip_prefix(s: &[u8], p: &[u8]) -> (r: Option<Vec<u8>>)
    ensures
        match r {
            Some(v) => spec_strip_prefix(s@, p@) == Some(v@),
            None => spec_strip_prefix(s@, p@) is None,
        },
{
    if p.len() > s.len() {
        return None;
    }
    let mut i: usize = 0;
    while i < p.len()
        invariant
            0 <= i <= p@.len() <= s@.len(),
            forall|j: int| 0 <= j < i ==> s@[j] == p@[j],
        decreases p@.len() - i,
    {
        if *slice_index_get(s, i) != *slice_index_get(p, i) {
            proof {
                assert(s@.take(p@.len() as int)[i as int] != p@[i as int]);
            }
            return None;
        }
        i = i + 1;
    }
    proof {
        assert(s@.take(p@.len() as int) =~= p@);
    }
    Some(slice_to_vec(slice_subrange(s, p.len(), s.len())))
}

/// Byte-for-byte equality of two slices.
pub fn bytes_eq(a: &[u8], b: &[u8]) -> (r: bool)
    ensures
        r == (a@ == b@),
{
    if a.len() != b.len() {
        return false;
    }
    let mut i: usize = 0;
    while i < a.len()
        invariant
            0 <= i <= a@.len(),
            a@.len() == b@.len(),
            forall|j: int| 0 <= j < i ==> a@[j] == b@[j],
        decreases a@.len() - i,
    {
        if *slice_index_get(a, i) != *slice_index_get(b, i) {
            return false;
        }
        i = i + 1;
    }
    proof {
        assert(a@ =~= b@);
    }
    true
}

/// A blank line: nothing but spaces, tabs and carriage returns.
pub open spec fn spec_is_blank(s: Seq<u8>) -> bool {
    forall|i: int| 0 <= i < s.len() ==> (s[i] == 32 || s[i] == 9 || s[i] == 13)
}

/// Whether a line is blank.
pub fn is_blank(s: &[u8]) -> (r: bool)
    ensures
        r == spec_is_blank(s@),
{
    let mut i: usize = 0;
    while i < s.len()
        invariant
            0 <= i <= s@.len(),
            forall|j: int| 0 <= j < i ==> (s@[j] == 32 || s@[j] == 9 || s@[j] == 13),
        decreases s@.len() - i,
    {
        let c = *slice_index_get(s, i);
        if c != 32 && c != 9 && c != 13 {
            return false;
        }
        i = i + 1;
    }
    true
}

/// Appends a whole slice to a byte vector.
pub fn push_slice(v: &mut Vec<u8>, s: &[u8])
    ensures
        final(v)@ == old(v)@ + s@,
{
    let mut i: usize = 0;
    while i < s.len()
        invariant
            0 <= i <= s@.len(),
            v@ == old(v)@ + s@.take(i as int),
        decreases s@.len() - i,
    {
        v.push(*slice_index_get(s, i));
        proof {
            assert(old(v)@ + s@.take(i as int) + seq![s@[i as int]]
                =~= old(v)@ + s@.take(i as int + 1));
        }
        i = i + 1;
    }
    proof {
        assert(s@.take(s@.len() as int) =~= s@);
    }
}


/// An ASCII whitespace byte: space, tab, carriage return or newline.
pub open spec fn is_ws(b: u8) -> bool {
    b == 32 || b == 9 || b == 13 || b == 10
}

/// `s` with leading whitespace removed.
pub open spec fn trim_front(s: Seq<u8>) -> Seq<u8>
    decreases s.len(),
{
    if s.len() > 0 && is_ws(s[0]) {
        trim_front(s.drop_first())
    } else {
        s
    }
}

/// `s` with trailing whitespace removed.
pub open spec fn trim_back(s: Seq<u8>) -> Seq<u8>
    decreases s.len(),
{
    if s.len() > 0 && is_ws(s.last()) {
        trim_back(s.drop_last())
    } else {
        s
    }
}

/// `s` with whitespace removed at both ends.
pub open spec fn spec_trim(s: Seq<u8>) -> Seq<u8> {
    trim_back(trim_front(s))
}

/// Trimming changes nothing on whitespace-free text.
pub proof fn lemma_trim_ws_free(s: Seq<u8>)
    requires
        forall|i: int| 0 <= i < s.len() ==> !is_ws(s[i]),
    ensures
        spec_trim(s) == s,
{
    if s.len() > 0 {
        assert(!is_ws(s[0]));
        assert(!is_ws(s.last()));
    }
}

/// Skipping a run of leading whitespace is what [`trim_front`] does.
proof fn lemma_trim_front_skip(s: Seq<u8>, a: int)
    requires
        0 <= a <= s.len(),
        forall|j: int| 0 <= j < a ==> is_ws(s[j]),
        a == s.len() || !is_ws(s[a]),
    ensures
        trim_front(s) == s.skip(a),
    decreases a,
{
    if a == 0 {
        assert(s.skip(0) =~= s);
    } else {
        assert(is_ws(s[0]));
        assert(forall|j: int| 0 <= j < a - 1 ==> is_ws(s.drop_first()[j]));
        lemma_trim_front_skip(s.drop_first(), a - 1);
        assert(s.drop_first().skip(a - 1) =~= s.skip(a));
    }
}

/// Taking everything before a run of trailing whitespace is what
/// [`trim_back`] does.
proof fn lemma_trim_back_take(s: Seq<u8>, b: int)
    requires
        0 <= b <= s.len(),
        forall|j: int| b <= j < s.len() ==> is_ws(s[j]),
        b == 0 || !is_ws(s[b - 1]),
    ensures
        trim_back(s) == s.take(b),
    decreases s.len(),
{
    if b == s.len() {
        assert(s.take(b) =~= s);
        if s.len() > 0 {
            assert(!is_ws(s.last()));
        }
    } else {
        assert(is_ws(s.last()));
        assert(forall|j: int| b <= j < s.drop_last().len() ==> is_ws(s.drop_last()[j]));
        if b > 0 {
            assert(s.drop_last()[b - 1] == s[b - 1]);
        }
        lemma_trim_back_take(s.drop_last(), b);
        assert(s.drop_last().take(b) =~= s.take(b));
    }
}

/// Whether a byte is ASCII whitespace.
pub fn is_ws_byte(c: u8) -> (r: bool)
    ensures
        r == is_ws(c),
{
    c == 32 || c == 9 || c == 13 || c == 10
}

/// Removes ASCII whitespace at both ends.
pub fn trim_bytes(s: &[u8]) -> (r: Vec<u8>)
    ensures
        r@ == spec_trim(s@),
{
    let mut a: usize = 0;
    while a < s.len() && is_ws_byte(*slice_index_get(s, a))
        invariant
            0 <= a <= s@.len(),
            forall|j: int| 0 <= j < a ==> is_ws(s@[j]),
        decreases s@.len() - a,
    {
        a = a + 1;
    }
    let mut b: usize = s.len();
    while b > a && is_ws_byte(*slice_index_get(s, b - 1))
        invariant
            a <= b <= s@.len(),
            forall|j: int| 0 <= j < a ==> is_ws(s@[j]),
            a == s@.len() || !is_ws(s@[a as int]),
            forall|j: int| b <= j < s@.len() ==> is_ws(s@[j]),
        decreases b,
    {
        b = b - 1;
    }
    proof {
        lemma_trim_front_skip(s@, a as int);
        let t = s@.skip(a as int);
        assert(forall|j: int| b - a <= j < t.len() ==> is_ws(t[j]));
        if b > a {
            assert(t[b - a - 1] == s@[b as int - 1]);
            assert(!is_ws(t[b - a - 1]));
        }
        lemma_trim_back_take(t, b - a);
        assert(t.take(b - a) =~= s@.subrange(a as int, b as int));
    }
    slice_to_vec(slice_subrange(s, a, b))
}
} // verus!
