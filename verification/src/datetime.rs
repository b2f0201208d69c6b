//! Fixed-offset timestamps and their canonical 25-byte text form
//! `YYYY-MM-DDThh:mm:ss+hh:mm`.

use vstd::prelude::*;
use vstd::slice::{slice_index_get, slice_subrange};

use crate::numtext::{all_digits, dec_render, dec_value, lemma_dec_round_trip, lemma_pow10_chain,
    parse_dec, pow10, push_dec};

verus! {

/// A timestamp with a fixed UTC offset.  A plain value carrier: the fields
/// are bounded so the text form is fixed-width, but no calendar is imposed.
#[derive(Clone, Copy, Debug, PartialEq, Eq, Structural)]
pub struct DateTime {
    pub year: u16,
    pub month: u8,
    pub day: u8,
    pub hour: u8,
    pub minute: u8,
    pub second: u8,
    /// Whether the UTC offset is negative.
    pub offset_negative: bool,
    pub offset_hours: u8,
    pub offset_minutes: u8,
}

impl DateTime {
    /// Bounds that keep every field inside its digit width.
    pub open spec fn wf(self) -> bool {
        self.year <= 9999 && self.month <= 99 && self.day <= 99 && self.hour <= 99
            && self.minute <= 99 && self.second <= 99 && self.offset_hours <= 99
            && self.offset_minutes <= 99
    }

    /// Checks the bounds of [`DateTime::wf`].
    pub fn check_wf(&self) -> (r: bool)
        ensures
            r == self.wf(),
    {
        self.year <= 9999 && self.month <= 99 && self.day <= 99 && self.hour <= 99
            && self.minute <= 99 && self.second <= 99 && self.offset_hours <= 99
            && self.offset_minutes <= 99
    }
}

/// The canonical 25-byte text of `d`.
pub open spec fn render_datetime(d: DateTime) -> Seq<u8> {
    dec_render(d.year as nat, 4) + seq![45u8] + dec_render(d.month as nat, 2) + seq![45u8]
        + dec_render(d.day as nat, 2) + seq![84u8] + dec_render(d.hour as nat, 2) + seq![58u8]
        + dec_render(d.minute as nat, 2) + seq![58u8] + dec_render(d.second as nat, 2)
        + seq![if d.offset_negative { 45u8 } else { 43u8 }]
        + dec_render(d.offset_hours as nat, 2) + seq![58u8]
        + dec_render(d.offset_minutes as nat, 2)
}

/// Which timestamp, if any, a 25-byte text denotes.
pub open spec fn spec_parse_datetime(s: Seq<u8>) -> Option<DateTime> {
    if s.len() == 25 && all_digits(s.subrange(0, 4)) && s[4] == 45
        && all_digits(s.subrange(5, 7)) && s[7] == 45 && all_digits(s.subrange(8, 10))
        && s[10] == 84 && all_digits(s.subrange(11, 13)) && s[13] == 58
        && all_digits(s.subrange(14, 16)) && s[16] == 58 && all_digits(s.subrange(17, 19))
        && (s[19] == 43 || s[19] == 45) && all_digits(s.subrange(20, 22)) && s[22] == 58
        && all_digits(s.subrange(23, 25)) {
        Some(DateTime {
            year: dec_value(s.subrange(0, 4)) as u16,
            month: dec_value(s.subrange(5, 7)) as u8,
            day: dec_value(s.subrange(8, 10)) as u8,
            hour: dec_value(s.subrange(11, 13)) as u8,
            minute: dec_value(s.subrange(14, 16)) as u8,
            second: dec_value(s.subrange(17, 19)) as u8,
            offset_negative: s[19] == 45,
            offset_hours: dec_value(s.subrange(20, 22)) as u8,
            offset_minutes: dec_value(s.subrange(23, 25)) as u8,
        })
    } else {
        None
    }
}

/// The canonical text of a well-formed timestamp denotes it again.
pub proof fn lemma_datetime_round_trip(d: DateTime)
    requires
        d.wf(),
    ensures
        render_datetime(d).len() == 25,
        spec_parse_datetime(render_datetime(d)) == Some(d),
{
    lemma_pow10_chain();
    lemma_dec_round_trip(d.year as nat, 4);
    lemma_dec_round_trip(d.month as nat, 2);
    lemma_dec_round_trip(d.day as nat, 2);
    lemma_dec_round_trip(d.hour as nat, 2);
    lemma_dec_round_trip(d.minute as nat, 2);
    lemma_dec_round_trip(d.second as nat, 2);
    lemma_dec_round_trip(d.offset_hours as nat, 2);
    lemma_dec_round_trip(d.offset_minutes as nat, 2);
    let s = render_datetime(d);
    assert(s.subrange(0, 4) =~= dec_render(d.year as nat, 4));
    assert(s.subrange(5, 7) =~= dec_render(d.month as nat, 2));
    assert(s.subrange(8, 10) =~= dec_render(d.day as nat, 2));
    assert(s.subrange(11, 13) =~= dec_render(d.hour as nat, 2));
    assert(s.subrange(14, 16) =~= dec_render(d.minute as nat, 2));
    assert(s.subrange(17, 19) =~= dec_render(d.second as nat, 2));
    assert(s.subrange(20, 22) =~= dec_render(d.offset_hours as nat, 2));
    assert(s.subrange(23, 25) =~= dec_render(d.offset_minutes as nat, 2));
    assert(s[4] == 45 && s[7] == 45 && s[10] == 84 && s[13] == 58 && s[16] == 58
        && s[22] == 58);
    assert(s[19] == (if d.offset_negative { 45u8 } else { 43u8 }));
}

/// Appends the canonical text of `d`.
pub fn push_datetime(v: &mut Vec<u8>, d: &DateTime)
    ensures
        final(v)@ == old(v)@ + render_datetime(*d),
{
    push_dec(v, d.year as u64, 4);
    v.push(45);
    push_dec(v, d.month as u64, 2);
    v.push(45);
    push_dec(v, d.day as u64, 2);
    v.push(84);
    push_dec(v, d.hour as u64, 2);
    v.push(58);
    push_dec(v, d.minute as u64, 2);
    v.push(58);
    push_dec(v, d.second as u64, 2);
    v.push(if d.offset_negative { 45 } else { 43 });
    push_dec(v, d.offset_hours as u64, 2);
    v.push(58);
    push_dec(v, d.offset_minutes as u64, 2);
    proof {
        assert(v@ =~= old(v)@ + render_datetime(*d));
    }
}

/// Reads the digits of `s` from `start` to `start + width` as a number.
fn read_num(s: &[u8], start: usize, width: usize) -> (r: Option<u64>)
    requires
        start + width <= s@.len(),
        1 <= width <= 10,
    ensures
        match r {
            Some(x) => all_digits(s@.subrange(start as int, start as int + width as int))
                && x == dec_value(s@.subrange(start as int, start as int + width as int)),
            None => !all_digits(s@.subrange(start as int, start as int + width as int)),
        },
{
    let n = s.len();
    parse_dec(slice_subrange(s, start, start + width))
}

/// Parses the canonical 25-byte timestamp text.
pub fn parse_datetime(s: &[u8]) -> (r: Option<DateTime>)
    ensures
        r == spec_parse_datetime(s@),
        r is Some ==> r->Some_0.wf(),
{
    if s.len() != 25 {
        return None;
    }
    proof {
        lemma_pow10_chain();
    }
    let sep_ok = *slice_index_get(s, 4) == 45 && *slice_index_get(s, 7) == 45
        && *slice_index_get(s, 10) == 84 && *slice_index_get(s, 13) == 58
        && *slice_index_get(s, 16) == 58 && *slice_index_get(s, 22) == 58;
    let sign = *slice_index_get(s, 19);
    if !sep_ok || (sign != 43 && sign != 45) {
        return None;
    }
    let year = match read_num(s, 0, 4) {
        Some(x) => x,
        None => { return None; },
    };
    let month = match read_num(s, 5, 2) {
        Some(x) => x,
        None => { return None; },
    };
    let day = match read_num(s, 8, 2) {
        Some(x) => x,
        None => { return None; },
    };
    let hour = match read_num(s, 11, 2) {
        Some(x) => x,
        None => { return None; },
    };
    let minute = match read_num(s, 14, 2) {
        Some(x) => x,
        None => { return None; },
    };
    let second = match read_num(s, 17, 2) {
        Some(x) => x,
        None => { return None; },
    };
    let offh = match read_num(s, 20, 2) {
        Some(x) => x,
        None => { return None; },
    };
    let offm = match read_num(s, 23, 2) {
        Some(x) => x,
        None => { return None; },
    };
    proof {
        lemma_bounded_value(s@.subrange(0, 4));
        lemma_bounded_value(s@.subrange(5, 7));
        lemma_bounded_value(s@.subrange(8, 10));
        lemma_bounded_value(s@.subrange(11, 13));
        lemma_bounded_value(s@.subrange(14, 16));
        lemma_bounded_value(s@.subrange(17, 19));
        lemma_bounded_value(s@.subrange(20, 22));
        lemma_bounded_value(s@.subrange(23, 25));
    }
    Some(DateTime {
        year: year as u16,
        month: month as u8,
        day: day as u8,
        hour: hour as u8,
        minute: minute as u8,
        second: second as u8,
        offset_negative: sign == 45,
        offset_hours: offh as u8,
        offset_minutes: offm as u8,
    })
}

/// The canonical timestamp text holds no newline.
pub proof fn lemma_datetime_text_line_free(d: DateTime)
    requires
        d.wf(),
    ensures
        crate::lines::line_free(render_datetime(d)),
{
    lemma_datetime_round_trip(d);
    let x = render_datetime(d);
    assert(crate::lines::line_free(x)) by {
        if crate::lines::contains_byte(x, 10) {
            let i = choose|i: int| 0 <= i < x.len() && x[i] == 10;
            if 0 <= i < 4 {
                assert(x.subrange(0, 4)[i] == x[i]);
            } else if 5 <= i < 7 {
                assert(x.subrange(5, 7)[i - 5] == x[i]);
            } else if 8 <= i < 10 {
                assert(x.subrange(8, 10)[i - 8] == x[i]);
            } else if 11 <= i < 13 {
                assert(x.subrange(11, 13)[i - 11] == x[i]);
            } else if 14 <= i < 16 {
                assert(x.subrange(14, 16)[i - 14] == x[i]);
            } else if 17 <= i < 19 {
                assert(x.subrange(17, 19)[i - 17] == x[i]);
            } else if 20 <= i < 22 {
                assert(x.subrange(20, 22)[i - 20] == x[i]);
            } else if 23 <= i < 25 {
                assert(x.subrange(23, 25)[i - 23] == x[i]);
            }
        }
    }
}

/// A digit string of width `w` denotes a value below `10^w`.
proof fn lemma_bounded_value(s: Seq<u8>)
    requires
        all_digits(s),
        s.len() <= 4,
    ensures
        0 <= dec_value(s) < pow10(s.len() as nat),
    decreases s.len(),
{
    lemma_pow10_chain();
    if s.len() == 0 {
    } else {
        lemma_all_digits_drop_last(s);
        lemma_bounded_value(s.drop_last());
        assert(s.last() - 48 <= 9);
        assert(dec_value(s.drop_last()) * 10 + 9 < pow10(s.len() as nat)) by (nonlinear_arith)
            requires
                dec_value(s.drop_last()) < pow10((s.len() - 1) as nat),
                pow10(s.len() as nat) == 10 * pow10((s.len() - 1) as nat),
        ;
    }
}

/// Dropping the last digit keeps all bytes digits.
proof fn lemma_all_digits_drop_last(s: Seq<u8>)
    requires
        all_digits(s),
        s.len() > 0,
    ensures
        all_digits(s.drop_last()),
{
    assert(forall|i: int| 0 <= i < s.len() - 1 ==> s.drop_last()[i] == s[i]);
}

} // verus!
