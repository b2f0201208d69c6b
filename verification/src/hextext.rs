//! Lowercase hexadecimal text for raw key material: a small injective
//! byte-to-text code whose round trip is proved, used by the canonical
//! content format to put key bytes on one line.

use vstd::prelude::*;
use vstd::slice::slice_index_get;

verus! {

/// The lowercase hex digit of a value below 16.
pub open spec fn hex_digit(n: u8) -> u8 {
    if n < 10 {
        (48 + n) as u8
    } else {
        (87 + n) as u8
    }
}

/// The value of a lowercase hex digit byte, or 255 for any other byte.
pub open spec fn hex_digit_value(b: u8) -> u8 {
    if 48 <= b <= 57 {
        (b - 48) as u8
    } else if 97 <= b <= 102 {
        (b - 87) as u8
    } else {
        255u8
    }
}

/// A lowercase hex digit byte.
pub open spec fn is_hex_digit(b: u8) -> bool {
    (48 <= b <= 57) || (97 <= b <= 102)
}

/// `data` rendered as lowercase hex, two digits per byte.
pub open spec fn hex_render(data: Seq<u8>) -> Seq<u8>
    decreases data.len(),
{
    if data.len() == 0 {
        Seq::empty()
    } else {
        seq![hex_digit(data.first() / 16), hex_digit(data.first() % 16)]
            + hex_render(data.drop_first())
    }
}

/// The bytes a lowercase hex text denotes: `None` unless the text is
/// wholly made of hex digit pairs.
pub open spec fn hex_parse(text: Seq<u8>) -> Option<Seq<u8>>
    decreases text.len(),
{
    if text.len() == 0 {
        Some(Seq::empty())
    } else if text.len() == 1 {
        None
    } else if is_hex_digit(text[0]) && is_hex_digit(text[1]) {
        match hex_parse(text.skip(2)) {
            None => None,
            Some(rest) => Some(
                seq![(hex_digit_value(text[0]) * 16 + hex_digit_value(text[1])) as u8] + rest),
        }
    } else {
        None
    }
}

/// Hex text round-trips: parsing the rendering of any bytes gives them back.
pub proof fn lemma_hex_round_trip(data: Seq<u8>)
    ensures
        hex_render(data).len() == 2 * data.len(),
        hex_parse(hex_render(data)) == Some(data),
    decreases data.len(),
{
    if data.len() == 0 {
        assert(hex_render(data) =~= Seq::<u8>::empty());
    } else {
        lemma_hex_round_trip(data.drop_first());
        let b = data.first();
        let t = hex_render(data);
        assert(b / 16 < 16) by (nonlinear_arith);
        assert(b % 16 < 16) by (nonlinear_arith);
        assert(t[0] == hex_digit(b / 16) && t[1] == hex_digit(b % 16));
        assert(is_hex_digit(t[0]) && is_hex_digit(t[1]));
        assert(hex_digit_value(t[0]) == b / 16 && hex_digit_value(t[1]) == b % 16);
        assert(t.skip(2) =~= hex_render(data.drop_first()));
        assert((b / 16) * 16 + b % 16 == b) by (nonlinear_arith);
        assert(seq![b] + data.drop_first() =~= data);
    }
}

/// Hex text holds no newline (nor anything but digits and `a`..`f`).
pub proof fn lemma_hex_line_free(data: Seq<u8>)
    ensures
        crate::lines::line_free(hex_render(data)),
    decreases data.len(),
{
    if data.len() == 0 {
        assert(!crate::lines::contains_byte(hex_render(data), 10));
    } else {
        lemma_hex_line_free(data.drop_first());
        let t = hex_render(data);
        assert(crate::lines::line_free(t)) by {
            if crate::lines::contains_byte(t, 10) {
                let i = choose|i: int| 0 <= i < t.len() && t[i] == 10;
                if i >= 2 {
                    assert(hex_render(data.drop_first())[i - 2] == 10);
                }
            }
        }
    }
}

/// Appends the lowercase hex text of `data`.
pub fn push_hex(v: &mut Vec<u8>, data: &[u8])
    ensures
        final(v)@ == old(v)@ + hex_render(data@),
{
    let mut i: usize = 0;
    while i < data.len()
        invariant
            0 <= i <= data@.len(),
            v@.len() == old(v)@.len() + 2 * i,
            v@ == old(v)@ + hex_render(data@.take(i as int)),
        decreases data@.len() - i,
    {
        let b = *slice_index_get(data, i);
        let hi = b / 16;
        let lo = b % 16;
        v.push(if hi < 10 { 48 + hi } else { 87 + hi });
        v.push(if lo < 10 { 48 + lo } else { 87 + lo });
        i = i + 1;
        proof {
            lemma_hex_render_snoc(data@.take(i as int));
            assert(data@.take(i as int).drop_last() =~= data@.take(i as int - 1));
            assert(v@ =~= old(v)@ + hex_render(data@.take(i as int)));
        }
    }
    proof {
        assert(data@.take(data@.len() as int) =~= data@);
    }
}

/// Rendering with the last byte split off: hex text grows at the tail.
proof fn lemma_hex_render_snoc(data: Seq<u8>)
    requires
        data.len() > 0,
    ensures
        hex_render(data) == hex_render(data.drop_last())
            + seq![hex_digit(data.last() / 16), hex_digit(data.last() % 16)],
    decreases data.len(),
{
    if data.len() == 1 {
        assert(data.drop_first() =~= Seq::<u8>::empty());
        assert(data.drop_last() =~= Seq::<u8>::empty());
        assert(data.first() == data.last());
        assert(hex_render(data) =~= hex_render(data.drop_last())
            + seq![hex_digit(data.last() / 16), hex_digit(data.last() % 16)]);
    } else {
        lemma_hex_render_snoc(data.drop_first());
        assert(data.drop_first().drop_last() =~= data.drop_last().drop_first());
        assert(data.drop_first().last() == data.last());
        assert(data.drop_last().first() == data.first());
        assert(hex_render(data) =~= hex_render(data.drop_last())
            + seq![hex_digit(data.last() / 16), hex_digit(data.last() % 16)]);
    }
}

/// Parses lowercase hex text into bytes, exactly as [`hex_parse`] says.
pub fn parse_hex(text: &[u8]) -> (r: Option<Vec<u8>>)
    ensures
        match r {
            Some(v) => hex_parse(text@) == Some(v@),
            None => hex_parse(text@) is None,
        },
{
    if text.len() % 2 != 0 {
        proof {
            lemma_hex_parse_odd(text@);
        }
        return None;
    }
    let mut i: usize = 0;
    let mut out: Vec<u8> = Vec::new();
    proof {
        assert(text@.skip(0) =~= text@);
        if hex_parse(text@) is Some {
            assert(out@ + hex_parse(text@)->Some_0 =~= hex_parse(text@)->Some_0);
        }
    }
    while i < text.len()
        invariant
            0 <= i <= text@.len(),
            i % 2 == 0,
            text@.len() % 2 == 0,
            out@.len() * 2 == i,
            hex_parse(text@) == (match hex_parse(text@.skip(i as int)) {
                None => None::<Seq<u8>>,
                Some(rest) => Some(out@ + rest),
            }),
        decreases text@.len() - i,
    {
        let c0 = *slice_index_get(text, i);
        let c1 = *slice_index_get(text, i + 1);
        let v0 = if 48 <= c0 && c0 <= 57 { c0 - 48 } else if 97 <= c0 && c0 <= 102 { c0 - 87 } else { 255 };
        let v1 = if 48 <= c1 && c1 <= 57 { c1 - 48 } else if 97 <= c1 && c1 <= 102 { c1 - 87 } else { 255 };
        if v0 == 255 || v1 == 255 {
            return None;
        }
        out.push(v0 * 16 + v1);
        i = i + 2;
        proof {
            let j = i - 2;
            assert(text@.skip(j)[0] == c0 && text@.skip(j)[1] == c1);
            assert(text@.skip(j).skip(2) =~= text@.skip(i as int));
            assert(hex_digit_value(c0) == v0 && hex_digit_value(c1) == v1);
            match hex_parse(text@.skip(i as int)) {
                None => {
                    assert(hex_parse(text@.skip(j)) is None);
                },
                Some(rest) => {
                    assert(hex_parse(text@.skip(j))
                        == Some(seq![(v0 * 16 + v1) as u8] + rest));
                    assert(out@ + rest =~= out@.drop_last() + (seq![(v0 * 16 + v1) as u8] + rest));
                },
            }
        }
    }
    proof {
        assert(text@.skip(text@.len() as int) =~= Seq::<u8>::empty());
        assert(out@ + Seq::<u8>::empty() =~= out@);
    }
    Some(out)
}

/// Odd-length text is no hex rendering.
proof fn lemma_hex_parse_odd(text: Seq<u8>)
    requires
        text.len() % 2 == 1,
    ensures
        hex_parse(text) is None,
    decreases text.len(),
{
    if text.len() > 1 {
        lemma_hex_parse_odd(text.skip(2));
    }
}

} // verus!
