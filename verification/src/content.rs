//! The content model: the three proof statements and their canonical,
//! byte-stable text form, with the proved render/parse round trip.

use vstd::prelude::*;
use vstd::slice::slice_to_vec;

use crate::datetime::{DateTime, lemma_datetime_round_trip, lemma_datetime_text_line_free, parse_datetime, push_datetime,
    render_datetime, spec_parse_datetime};
use crate::errors::ParseError;
use crate::hextext::{hex_parse, hex_render, lemma_hex_line_free, lemma_hex_round_trip, parse_hex,
    push_hex};
use crate::id::PubId;
use crate::level::{Level, lemma_level_round_trip, level_word, parse_level, push_level,
    spec_parse_level};
use crate::lines::{contains_byte, line_free, push_slice, read_line, spec_strip_prefix,
    strip_prefix, take_line, lemma_take_line_shape, lemma_take_line_concat};
use crate::proofs::ProofType;

verus! {

/// A trust statement: the author vouches for the listed identities.
#[derive(Clone, Debug)]
pub struct Trust {
    pub date: DateTime,
    pub from: PubId,
    /// The raw public keys of the trusted identities.
    pub ids: Vec<Vec<u8>>,
    pub trust: Level,
    pub distrust: Level,
    pub comment: Vec<u8>,
}

/// A review statement about a project or its code at one revision.
#[derive(Clone, Debug)]
pub struct Review {
    pub date: DateTime,
    pub from: PubId,
    pub project: Vec<u8>,
    pub revision: Vec<u8>,
    pub thoroughness: Level,
    pub understanding: Level,
    pub trust: Level,
    pub comment: Vec<u8>,
}

/// The tagged union of proof contents.
#[derive(Clone, Debug)]
pub enum Content {
    Trust(Trust),
    Code(Review),
    Project(Review),
}

/// The mathematical value of a [`Trust`].
#[verifier::ext_equal]
pub struct TrustV {
    pub date: DateTime,
    pub from_id: Seq<u8>,
    pub from_url: Option<Seq<u8>>,
    pub ids: Seq<Seq<u8>>,
    pub trust: Level,
    pub distrust: Level,
    pub comment: Seq<u8>,
}

/// The mathematical value of a [`Review`].
#[verifier::ext_equal]
pub struct ReviewV {
    pub date: DateTime,
    pub from_id: Seq<u8>,
    pub from_url: Option<Seq<u8>>,
    pub project: Seq<u8>,
    pub revision: Seq<u8>,
    pub thoroughness: Level,
    pub understanding: Level,
    pub trust: Level,
    pub comment: Seq<u8>,
}

/// The mathematical value of a [`Content`].
#[verifier::ext_equal]
pub enum ContentV {
    Trust(TrustV),
    Code(ReviewV),
    Project(ReviewV),
}

impl View for Trust {
    type V = TrustV;

    open spec fn view(&self) -> TrustV {
        TrustV {
            date: self.date,
            from_id: self.from.id@,
            from_url: match self.from.url {
                Some(u) => Some(u@),
                None => None,
            },
            ids: self.ids@.map_values(|x: Vec<u8>| x@),
            trust: self.trust,
            distrust: self.distrust,
            comment: self.comment@,
        }
    }
}

impl View for Review {
    type V = ReviewV;

    open spec fn view(&self) -> ReviewV {
        ReviewV {
            date: self.date,
            from_id: self.from.id@,
            from_url: match self.from.url {
                Some(u) => Some(u@),
                None => None,
            },
            project: self.project@,
            revision: self.revision@,
            thoroughness: self.thoroughness,
            understanding: self.understanding,
            trust: self.trust,
            comment: self.comment@,
        }
    }
}

impl View for Content {
    type V = ContentV;

    open spec fn view(&self) -> ContentV {
        match self {
            Content::Trust(t) => ContentV::Trust(t@),
            Content::Code(r) => ContentV::Code(r@),
            Content::Project(r) => ContentV::Project(r@),
        }
    }
}

impl TrustV {
    /// A trust statement whose text form is unambiguous: a 32-byte author
    /// key, line-clean optional URL, 32-byte trusted ids, line-clean comment.
    pub open spec fn wf(self) -> bool {
        &&& self.date.wf()
        &&& self.from_id.len() == 32
        &&& match self.from_url {
            Some(u) => line_free(u) && u.len() > 0,
            None => true,
        }
        &&& forall|i: int| 0 <= i < self.ids.len() ==> (#[trigger] self.ids[i]).len() == 32
        &&& line_free(self.comment)
    }
}

impl ReviewV {
    /// A review whose text form is unambiguous.
    pub open spec fn wf(self) -> bool {
        &&& self.date.wf()
        &&& self.from_id.len() == 32
        &&& match self.from_url {
            Some(u) => line_free(u) && u.len() > 0,
            None => true,
        }
        &&& line_free(self.project)
        &&& line_free(self.revision)
        &&& line_free(self.comment)
    }
}

impl ContentV {
    /// A content value whose text form is unambiguous.
    pub open spec fn wf(self) -> bool {
        match self {
            ContentV::Trust(t) => t.wf(),
            ContentV::Code(r) => r.wf(),
            ContentV::Project(r) => r.wf(),
        }
    }

    /// The variant the value belongs to.
    pub open spec fn tag(self) -> ProofType {
        match self {
            ContentV::Trust(t) => ProofType::Trust,
            ContentV::Code(r) => ProofType::Code,
            ContentV::Project(r) => ProofType::Project,
        }
    }
}

/// The `date:` field prefix.
pub open spec fn key_date() -> Seq<u8> {
    seq![100u8, 97u8, 116u8, 101u8, 58u8, 32u8]
}

/// The `from-id:` field prefix.
pub open spec fn key_from_id() -> Seq<u8> {
    seq![102u8, 114u8, 111u8, 109u8, 45u8, 105u8, 100u8, 58u8, 32u8]
}

/// The `from-url:` field prefix.
pub open spec fn key_from_url() -> Seq<u8> {
    seq![102u8, 114u8, 111u8, 109u8, 45u8, 117u8, 114u8, 108u8, 58u8, 32u8]
}

/// The `id:` field prefix.
pub open spec fn key_id() -> Seq<u8> {
    seq![105u8, 100u8, 58u8, 32u8]
}

/// The `trust:` field prefix.
pub open spec fn key_trust() -> Seq<u8> {
    seq![116u8, 114u8, 117u8, 115u8, 116u8, 58u8, 32u8]
}

/// The `distrust:` field prefix.
pub open spec fn key_distrust() -> Seq<u8> {
    seq![100u8, 105u8, 115u8, 116u8, 114u8, 117u8, 115u8, 116u8, 58u8, 32u8]
}

/// The `comment:` field prefix.
pub open spec fn key_comment() -> Seq<u8> {
    seq![99u8, 111u8, 109u8, 109u8, 101u8, 110u8, 116u8, 58u8, 32u8]
}

/// The `project:` field prefix.
pub open spec fn key_project() -> Seq<u8> {
    seq![112u8, 114u8, 111u8, 106u8, 101u8, 99u8, 116u8, 58u8, 32u8]
}

/// The `revision:` field prefix.
pub open spec fn key_revision() -> Seq<u8> {
    seq![114u8, 101u8, 118u8, 105u8, 115u8, 105u8, 111u8, 110u8, 58u8, 32u8]
}

/// The `thoroughness:` field prefix.
pub open spec fn key_thoroughness() -> Seq<u8> {
    seq![116u8, 104u8, 111u8, 114u8, 111u8, 117u8, 103u8, 104u8, 110u8, 101u8, 115u8, 115u8, 58u8, 32u8]
}

/// The `understanding:` field prefix.
pub open spec fn key_understanding() -> Seq<u8> {
    seq![117u8, 110u8, 100u8, 101u8, 114u8, 115u8, 116u8, 97u8, 110u8, 100u8, 105u8, 110u8, 103u8, 58u8, 32u8]
}

/// The `date:` field prefix as bytes.
pub fn key_date_v() -> (r: Vec<u8>)
    ensures
        r@ == key_date(),
{
    let mut v: Vec<u8> = Vec::new();
    v.push(100);
    v.push(97);
    v.push(116);
    v.push(101);
    v.push(58);
    v.push(32);
    proof {
        assert(v@ =~= key_date());
    }
    v
}

/// The `from-id:` field prefix as bytes.
pub fn key_from_id_v() -> (r: Vec<u8>)
    ensures
        r@ == key_from_id(),
{
    let mut v: Vec<u8> = Vec::new();
    v.push(102);
    v.push(114);
    v.push(111);
    v.push(109);
    v.push(45);
    v.push(105);
    v.push(100);
    v.push(58);
    v.push(32);
    proof {
        assert(v@ =~= key_from_id());
    }
    v
}

/// The `from-url:` field prefix as bytes.
pub fn key_from_url_v() -> (r: Vec<u8>)
    ensures
        r@ == key_from_url(),
{
    let mut v: Vec<u8> = Vec::new();
    v.push(102);
    v.push(114);
    v.push(111);
    v.push(109);
    v.push(45);
    v.push(117);
    v.push(114);
    v.push(108);
    v.push(58);
    v.push(32);
    proof {
        assert(v@ =~= key_from_url());
    }
    v
}

/// The `id:` field prefix as bytes.
pub fn key_id_v() -> (r: Vec<u8>)
    ensures
        r@ == key_id(),
{
    let mut v: Vec<u8> = Vec::new();
    v.push(105);
    v.push(100);
    v.push(58);
    v.push(32);
    proof {
        assert(v@ =~= key_id());
    }
    v
}

/// The `trust:` field prefix as bytes.
pub fn key_trust_v() -> (r: Vec<u8>)
    ensures
        r@ == key_trust(),
{
    let mut v: Vec<u8> = Vec::new();
    v.push(116);
    v.push(114);
    v.push(117);
    v.push(115);
    v.push(116);
    v.push(58);
    v.push(32);
    proof {
        assert(v@ =~= key_trust());
    }
    v
}

/// The `distrust:` field prefix as bytes.
pub fn key_distrust_v() -> (r: Vec<u8>)
    ensures
        r@ == key_distrust(),
{
    let mut v: Vec<u8> = Vec::new();
    v.push(100);
    v.push(105);
    v.push(115);
    v.push(116);
    v.push(114);
    v.push(117);
    v.push(115);
    v.push(116);
    v.push(58);
    v.push(32);
    proof {
        assert(v@ =~= key_distrust());
    }
    v
}

/// The `comment:` field prefix as bytes.
pub fn key_comment_v() -> (r: Vec<u8>)
    ensures
        r@ == key_comment(),
{
    let mut v: Vec<u8> = Vec::new();
    v.push(99);
    v.push(111);
    v.push(109);
    v.push(109);
    v.push(101);
    v.push(110);
    v.push(116);
    v.push(58);
    v.push(32);
    proof {
        assert(v@ =~= key_comment());
    }
    v
}

/// The `project:` field prefix as bytes.
pub fn key_project_v() -> (r: Vec<u8>)
    ensures
        r@ == key_project(),
{
    let mut v: Vec<u8> = Vec::new();
    v.push(112);
    v.push(114);
    v.push(111);
    v.push(106);
    v.push(101);
    v.push(99);
    v.push(116);
    v.push(58);
    v.push(32);
    proof {
        assert(v@ =~= key_project());
    }
    v
}

/// The `revision:` field prefix as bytes.
pub fn key_revision_v() -> (r: Vec<u8>)
    ensures
        r@ == key_revision(),
{
    let mut v: Vec<u8> = Vec::new();
    v.push(114);
    v.push(101);
    v.push(118);
    v.push(105);
    v.push(115);
    v.push(105);
    v.push(111);
    v.push(110);
    v.push(58);
    v.push(32);
    proof {
        assert(v@ =~= key_revision());
    }
    v
}

/// The `thoroughness:` field prefix as bytes.
pub fn key_thoroughness_v() -> (r: Vec<u8>)
    ensures
        r@ == key_thoroughness(),
{
    let mut v: Vec<u8> = Vec::new();
    v.push(116);
    v.push(104);
    v.push(111);
    v.push(114);
    v.push(111);
    v.push(117);
    v.push(103);
    v.push(104);
    v.push(110);
    v.push(101);
    v.push(115);
    v.push(115);
    v.push(58);
    v.push(32);
    proof {
        assert(v@ =~= key_thoroughness());
    }
    v
}

/// The `understanding:` field prefix as bytes.
pub fn key_understanding_v() -> (r: Vec<u8>)
    ensures
        r@ == key_understanding(),
{
    let mut v: Vec<u8> = Vec::new();
    v.push(117);
    v.push(110);
    v.push(100);
    v.push(101);
    v.push(114);
    v.push(115);
    v.push(116);
    v.push(97);
    v.push(110);
    v.push(100);
    v.push(105);
    v.push(110);
    v.push(103);
    v.push(58);
    v.push(32);
    proof {
        assert(v@ =~= key_understanding());
    }
    v
}

/// Concatenation keeps lines newline-free.
pub proof fn lemma_line_free_concat(a: Seq<u8>, b: Seq<u8>)
    requires
        line_free(a),
        line_free(b),
    ensures
        line_free(a + b),
{
    assert(line_free(a + b)) by {
        if contains_byte(a + b, 10) {
            let i = choose|i: int| 0 <= i < (a + b).len() && (a + b)[i] == 10;
            if i < a.len() {
                assert(a[i] == 10);
            } else {
                assert(b[i - a.len()] == 10);
            }
        }
    }
}

/// None of the field prefixes holds a newline.
pub proof fn lemma_keys_line_free()
    ensures
        line_free(key_date()),
        line_free(key_from_id()),
        line_free(key_from_url()),
        line_free(key_id()),
        line_free(key_trust()),
        line_free(key_distrust()),
        line_free(key_comment()),
        line_free(key_project()),
        line_free(key_revision()),
        line_free(key_thoroughness()),
        line_free(key_understanding()),
{
    assert(forall|i: int| 0 <= i < key_date().len() ==> key_date()[i] != 10);
    assert(forall|i: int| 0 <= i < key_from_id().len() ==> key_from_id()[i] != 10);
    assert(forall|i: int| 0 <= i < key_from_url().len() ==> key_from_url()[i] != 10);
    assert(forall|i: int| 0 <= i < key_id().len() ==> key_id()[i] != 10);
    assert(forall|i: int| 0 <= i < key_trust().len() ==> key_trust()[i] != 10);
    assert(forall|i: int| 0 <= i < key_distrust().len() ==> key_distrust()[i] != 10);
    assert(forall|i: int| 0 <= i < key_comment().len() ==> key_comment()[i] != 10);
    assert(forall|i: int| 0 <= i < key_project().len() ==> key_project()[i] != 10);
    assert(forall|i: int| 0 <= i < key_revision().len() ==> key_revision()[i] != 10);
    assert(forall|i: int| 0 <= i < key_thoroughness().len() ==> key_thoroughness()[i] != 10);
    assert(forall|i: int| 0 <= i < key_understanding().len() ==> key_understanding()[i] != 10);
}

/// No level word holds a newline.
pub proof fn lemma_level_word_line_free(l: Level)
    ensures
        line_free(level_word(l)),
{
    assert(forall|i: int| 0 <= i < level_word(l).len() ==> level_word(l)[i] != 10);
}

/// Reading one `key: value` line: the value and the rest of the input.
pub open spec fn parse_keyed(s: Seq<u8>, key: Seq<u8>) -> Option<(Seq<u8>, Seq<u8>)> {
    match take_line(s) {
        None => None,
        Some(p) => match spec_strip_prefix(p.0, key) {
            None => None,
            Some(v) => Some((v, p.1)),
        },
    }
}

/// A keyed line followed by `rest` parses back to its value and `rest`.
pub proof fn lemma_parse_keyed_render(key: Seq<u8>, val: Seq<u8>, rest: Seq<u8>)
    requires
        line_free(key),
        line_free(val),
    ensures
        parse_keyed(key + val + seq![10u8] + rest, key) == Some::<(Seq<u8>, Seq<u8>)>((val, rest)),
{
    lemma_line_free_concat(key, val);
    lemma_take_line_concat(key + val, rest);
    assert(key + val + seq![10u8] + rest =~= (key + val) + seq![10u8] + rest);
    assert(spec_strip_prefix(key + val, key) == Some(val)) by {
        assert((key + val).take(key.len() as int) =~= key);
        assert((key + val).skip(key.len() as int) =~= val);
    }
}

/// A line that starts with another byte than `key` does is no `key` line.
pub proof fn lemma_parse_keyed_mismatch(s: Seq<u8>, key: Seq<u8>)
    requires
        s.len() > 0,
        key.len() > 0,
        s[0] != key[0],
    ensures
        parse_keyed(s, key) is None,
{
    if s[0] == 10 {
        assert(take_line(s) == Some::<(Seq<u8>, Seq<u8>)>((Seq::empty(), s.drop_first())));
    } else {
        let p = take_line(s)->Some_0;
        match take_line(s.drop_first()) {
            None => {
                assert(p.0 == s);
            },
            Some(q) => {
                assert(p.0 == seq![s[0]] + q.0);
                assert(p.0[0] == s[0]);
            },
        }
        if key.len() <= p.0.len() {
            assert(p.0.take(key.len() as int)[0] == p.0[0]);
        }
    }
}

/// Reads one `key: value` line at `pos`, exactly as [`parse_keyed`] says.
pub fn parse_keyed_line(s: &[u8], pos: usize, key: &[u8]) -> (r: Option<(Vec<u8>, usize)>)
    requires
        pos <= s@.len(),
    ensures
        match r {
            Some(vp) => pos < vp.1 <= s@.len() && parse_keyed(s@.skip(pos as int), key@)
                == Some::<(Seq<u8>, Seq<u8>)>((vp.0@, s@.skip(vp.1 as int))),
            None => parse_keyed(s@.skip(pos as int), key@) is None,
        },
{
    match read_line(s, pos) {
        None => None,
        Some(lp) => {
            let (line, np) = lp;
            match strip_prefix(line.as_slice(), key) {
                None => None,
                Some(v) => Some((v, np)),
            }
        },
    }
}

/// The optional author-URL line.
pub open spec fn parse_opt_url(s: Seq<u8>) -> (Option<Seq<u8>>, Seq<u8>) {
    match parse_keyed(s, key_from_url()) {
        Some(p) => (Some(p.0), p.1),
        None => (None, s),
    }
}

/// The run of `id:` lines carrying 32-byte hex-rendered keys.
pub open spec fn parse_id_list(s: Seq<u8>) -> (Seq<Seq<u8>>, Seq<u8>)
    decreases s.len(),
    via parse_id_list_decreases
{
    match parse_keyed(s, key_id()) {
        None => (Seq::empty(), s),
        Some(p) => match hex_parse(p.0) {
            None => (Seq::empty(), s),
            Some(b) => if b.len() == 32 {
                (seq![b] + parse_id_list(p.1).0, parse_id_list(p.1).1)
            } else {
                (Seq::empty(), s)
            },
        },
    }
}

#[via_fn]
proof fn parse_id_list_decreases(s: Seq<u8>) {
    if take_line(s) is Some {
        lemma_take_line_shape(s);
    }
}

/// The canonical text of the optional URL line.
pub open spec fn render_opt_url(u: Option<Seq<u8>>) -> Seq<u8> {
    match u {
        None => Seq::empty(),
        Some(x) => key_from_url() + x + seq![10u8],
    }
}

/// The canonical text of a run of `id:` lines.
pub open spec fn render_id_list(ids: Seq<Seq<u8>>) -> Seq<u8>
    decreases ids.len(),
{
    if ids.len() == 0 {
        Seq::empty()
    } else {
        key_id() + hex_render(ids[0]) + seq![10u8] + render_id_list(ids.drop_first())
    }
}

/// The canonical text of the shared head of a body.
pub open spec fn render_head(date: DateTime, from_id: Seq<u8>, from_url: Option<Seq<u8>>) -> Seq<u8> {
    key_date() + render_datetime(date) + seq![10u8]
        + key_from_id() + hex_render(from_id) + seq![10u8]
        + render_opt_url(from_url)
}

/// The canonical body text of a trust statement.
pub open spec fn render_trust(t: TrustV) -> Seq<u8> {
    render_head(t.date, t.from_id, t.from_url)
        + render_trust_tail(t.ids, t.trust, t.distrust, t.comment)
}

/// The canonical body text of a review.
pub open spec fn render_review(r: ReviewV) -> Seq<u8> {
    render_head(r.date, r.from_id, r.from_url)
        + render_review_tail(r.project, r.revision, r.thoroughness, r.understanding, r.trust,
            r.comment)
}

/// The canonical body text of any content value.
pub open spec fn render_content(c: ContentV) -> Seq<u8> {
    match c {
        ContentV::Trust(t) => render_trust(t),
        ContentV::Code(r) => render_review(r),
        ContentV::Project(r) => render_review(r),
    }
}

/// The tail of a trust body: the fields a draft also carries.
pub open spec fn render_trust_tail(ids: Seq<Seq<u8>>, tl: Level, dl: Level, comment: Seq<u8>) -> Seq<u8> {
    render_id_list(ids) + key_trust() + level_word(tl) + seq![10u8]
        + key_distrust() + level_word(dl) + seq![10u8]
        + key_comment() + comment + seq![10u8]
}

/// Parses the tail of a trust body; the input must end with it.
pub open spec fn parse_trust_tail(s: Seq<u8>) -> Option<(Seq<Seq<u8>>, Level, Level, Seq<u8>)> {
    let ip = parse_id_list(s);
    match parse_keyed(ip.1, key_trust()) {
        None => None,
        Some(tp) => match spec_parse_level(tp.0) {
            None => None,
            Some(tl) => match parse_keyed(tp.1, key_distrust()) {
                None => None,
                Some(sp) => match spec_parse_level(sp.0) {
                    None => None,
                    Some(dl) => match parse_keyed(sp.1, key_comment()) {
                        None => None,
                        Some(cp) => if cp.1.len() == 0 {
                            Some((ip.0, tl, dl, cp.0))
                        } else {
                            None
                        },
                    },
                },
            },
        },
    }
}

/// The tail of a review body: the fields a draft also carries.
pub open spec fn render_review_tail(project: Seq<u8>, revision: Seq<u8>, hl: Level, ul: Level,
    tl: Level, comment: Seq<u8>) -> Seq<u8> {
    key_project() + project + seq![10u8]
        + key_revision() + revision + seq![10u8]
        + key_thoroughness() + level_word(hl) + seq![10u8]
        + key_understanding() + level_word(ul) + seq![10u8]
        + key_trust() + level_word(tl) + seq![10u8]
        + key_comment() + comment + seq![10u8]
}

/// Parses the tail of a review body; the input must end with it.
pub open spec fn parse_review_tail(s: Seq<u8>) -> Option<(Seq<u8>, Seq<u8>, Level, Level, Level, Seq<u8>)> {
    match parse_keyed(s, key_project()) {
        None => None,
        Some(pp) => match parse_keyed(pp.1, key_revision()) {
            None => None,
            Some(rp) => match parse_keyed(rp.1, key_thoroughness()) {
                None => None,
                Some(hp) => match spec_parse_level(hp.0) {
                    None => None,
                    Some(hl) => match parse_keyed(hp.1, key_understanding()) {
                        None => None,
                        Some(upx) => match spec_parse_level(upx.0) {
                            None => None,
                            Some(ul) => match parse_keyed(upx.1, key_trust()) {
                                None => None,
                                Some(tp) => match spec_parse_level(tp.0) {
                                    None => None,
                                    Some(tl) => match parse_keyed(tp.1, key_comment()) {
                                        None => None,
                                        Some(cp) => if cp.1.len() == 0 {
                                            Some((pp.0, rp.0, hl, ul, tl, cp.0))
                                        } else {
                                            None
                                        },
                                    },
                                },
                            },
                        },
                    },
                },
            },
        },
    }
}

/// The shared head of every body: date, author key, optional author URL.
pub open spec fn parse_head(s: Seq<u8>) -> Option<(DateTime, Seq<u8>, Option<Seq<u8>>, Seq<u8>)> {
    match parse_keyed(s, key_date()) {
        None => None,
        Some(dp) => match spec_parse_datetime(dp.0) {
            None => None,
            Some(date) => match parse_keyed(dp.1, key_from_id()) {
                None => None,
                Some(fp) => match hex_parse(fp.0) {
                    None => None,
                    Some(fid) => if fid.len() != 32 {
                        None
                    } else {
                        let up = parse_opt_url(fp.1);
                        Some((date, fid, up.0, up.1))
                    },
                },
            },
        },
    }
}

/// Which trust statement, if any, a body text denotes.
pub open spec fn parse_trust(s: Seq<u8>) -> Option<TrustV> {
    match parse_head(s) {
        None => None,
        Some(h) => match parse_trust_tail(h.3) {
            None => None,
            Some(q) => Some(TrustV {
                date: h.0,
                from_id: h.1,
                from_url: h.2,
                ids: q.0,
                trust: q.1,
                distrust: q.2,
                comment: q.3,
            }),
        },
    }
}

/// Which review, if any, a body text denotes.
pub open spec fn parse_review(s: Seq<u8>) -> Option<ReviewV> {
    match parse_head(s) {
        None => None,
        Some(h) => match parse_review_tail(h.3) {
            None => None,
            Some(q) => Some(ReviewV {
                date: h.0,
                from_id: h.1,
                from_url: h.2,
                project: q.0,
                revision: q.1,
                thoroughness: q.2,
                understanding: q.3,
                trust: q.4,
                comment: q.5,
            }),
        },
    }
}

/// Which content value, if any, a body text of the given variant denotes.
pub open spec fn parse_content(s: Seq<u8>, t: ProofType) -> Option<ContentV> {
    match t {
        ProofType::Trust => match parse_trust(s) {
            None => None,
            Some(tv) => Some(ContentV::Trust(tv)),
        },
        ProofType::Code => match parse_review(s) {
            None => None,
            Some(rv) => Some(ContentV::Code(rv)),
        },
        ProofType::Project => match parse_review(s) {
            None => None,
            Some(rv) => Some(ContentV::Project(rv)),
        },
    }
}


/// A run of rendered `id:` lines followed by something else parses back
/// to the ids and that something.
pub proof fn lemma_id_list_round_trip(ids: Seq<Seq<u8>>, rest: Seq<u8>)
    requires
        forall|i: int| 0 <= i < ids.len() ==> (#[trigger] ids[i]).len() == 32,
        parse_keyed(rest, key_id()) is None,
    ensures
        parse_id_list(render_id_list(ids) + rest) == (ids, rest),
    decreases ids.len(),
{
    lemma_keys_line_free();
    if ids.len() == 0 {
        assert(render_id_list(ids) + rest =~= rest);
        assert(parse_id_list(rest) == (Seq::<Seq<u8>>::empty(), rest));
        assert(Seq::<Seq<u8>>::empty() =~= ids);
    } else {
        let tail = render_id_list(ids.drop_first()) + rest;
        lemma_hex_line_free(ids[0]);
        lemma_parse_keyed_render(key_id(), hex_render(ids[0]), tail);
        assert(render_id_list(ids) + rest =~= key_id() + hex_render(ids[0]) + seq![10u8] + tail);
        lemma_hex_round_trip(ids[0]);
        assert(forall|i: int| 0 <= i < ids.drop_first().len()
            ==> (#[trigger] ids.drop_first()[i]).len() == 32) by {
            assert(forall|i: int| 0 <= i < ids.drop_first().len()
                ==> ids.drop_first()[i] == ids[i + 1]);
        }
        lemma_id_list_round_trip(ids.drop_first(), rest);
        assert(seq![ids[0]] + ids.drop_first() =~= ids);
    }
}

/// The rendered tail of a trust body parses back to its fields.
#[verifier::rlimit(100)]
pub proof fn lemma_trust_tail_round_trip(ids: Seq<Seq<u8>>, tl: Level, dl: Level, comment: Seq<u8>)
    requires
        forall|i: int| 0 <= i < ids.len() ==> (#[trigger] ids[i]).len() == 32,
        line_free(comment),
    ensures
        parse_trust_tail(render_trust_tail(ids, tl, dl, comment))
            == Some::<(Seq<Seq<u8>>, Level, Level, Seq<u8>)>((ids, tl, dl, comment)),
{
    lemma_keys_line_free();
    lemma_level_word_line_free(tl);
    lemma_level_word_line_free(dl);
    lemma_level_round_trip(tl);
    lemma_level_round_trip(dl);
    let s_c = key_comment() + comment + seq![10u8];
    let s_d = key_distrust() + level_word(dl) + seq![10u8] + s_c;
    let s_t = key_trust() + level_word(tl) + seq![10u8] + s_d;
    assert(render_trust_tail(ids, tl, dl, comment) =~= render_id_list(ids) + s_t);
    assert(s_t[0] == 116);
    lemma_parse_keyed_mismatch(s_t, key_id());
    lemma_id_list_round_trip(ids, s_t);
    lemma_parse_keyed_render(key_trust(), level_word(tl), s_d);
    lemma_parse_keyed_render(key_distrust(), level_word(dl), s_c);
    lemma_parse_keyed_render(key_comment(), comment, Seq::<u8>::empty());
    assert(s_c =~= key_comment() + comment + seq![10u8] + Seq::<u8>::empty());
}

/// The rendered tail of a review body parses back to its fields.
#[verifier::rlimit(60)]
pub proof fn lemma_review_tail_round_trip(project: Seq<u8>, revision: Seq<u8>, hl: Level,
    ul: Level, tl: Level, comment: Seq<u8>)
    requires
        line_free(project),
        line_free(revision),
        line_free(comment),
    ensures
        parse_review_tail(render_review_tail(project, revision, hl, ul, tl, comment))
            == Some::<(Seq<u8>, Seq<u8>, Level, Level, Level, Seq<u8>)>(
                (project, revision, hl, ul, tl, comment)),
{
    lemma_keys_line_free();
    lemma_level_word_line_free(hl);
    lemma_level_word_line_free(ul);
    lemma_level_word_line_free(tl);
    lemma_level_round_trip(hl);
    lemma_level_round_trip(ul);
    lemma_level_round_trip(tl);
    let s_c = key_comment() + comment + seq![10u8];
    let s_t = key_trust() + level_word(tl) + seq![10u8] + s_c;
    let s_u = key_understanding() + level_word(ul) + seq![10u8] + s_t;
    let s_h = key_thoroughness() + level_word(hl) + seq![10u8] + s_u;
    let s_r = key_revision() + revision + seq![10u8] + s_h;
    let s_p = key_project() + project + seq![10u8] + s_r;
    assert(render_review_tail(project, revision, hl, ul, tl, comment) =~= s_p);
    lemma_parse_keyed_render(key_project(), project, s_r);
    lemma_parse_keyed_render(key_revision(), revision, s_h);
    lemma_parse_keyed_render(key_thoroughness(), level_word(hl), s_u);
    lemma_parse_keyed_render(key_understanding(), level_word(ul), s_t);
    lemma_parse_keyed_render(key_trust(), level_word(tl), s_c);
    lemma_parse_keyed_render(key_comment(), comment, Seq::<u8>::empty());
    assert(s_c =~= key_comment() + comment + seq![10u8] + Seq::<u8>::empty());
}

/// The rendered head parses back to its fields, leaving exactly the tail,
/// provided the tail does not itself begin with a URL line.
#[verifier::rlimit(100)]
pub proof fn lemma_head_round_trip(date: DateTime, from_id: Seq<u8>, from_url: Option<Seq<u8>>,
    tail: Seq<u8>)
    requires
        date.wf(),
        from_id.len() == 32,
        match from_url {
            Some(u) => line_free(u),
            None => true,
        },
        tail.len() > 0,
        tail[0] == 105 || tail[0] == 116 || tail[0] == 112,
    ensures
        parse_head(render_head(date, from_id, from_url) + tail)
            == Some::<(DateTime, Seq<u8>, Option<Seq<u8>>, Seq<u8>)>(
                (date, from_id, from_url, tail)),
{
    lemma_keys_line_free();
    lemma_datetime_round_trip(date);
    lemma_datetime_text_line_free(date);
    lemma_hex_line_free(from_id);
    lemma_hex_round_trip(from_id);
    let s_u = render_opt_url(from_url) + tail;
    let s_f = key_from_id() + hex_render(from_id) + seq![10u8] + s_u;
    let s_d = key_date() + render_datetime(date) + seq![10u8] + s_f;
    assert(render_head(date, from_id, from_url) + tail =~= s_d);
    lemma_parse_keyed_render(key_date(), render_datetime(date), s_f);
    lemma_parse_keyed_render(key_from_id(), hex_render(from_id), s_u);
    match from_url {
        Some(u) => {
            assert(s_u =~= key_from_url() + u + seq![10u8] + tail);
            lemma_parse_keyed_render(key_from_url(), u, tail);
        },
        None => {
            assert(s_u =~= tail);
            lemma_parse_keyed_mismatch(tail, key_from_url());
        },
    }
}

/// The first byte of a rendered trust tail: an `id:` or `trust:` line.
pub proof fn lemma_trust_tail_first_byte(ids: Seq<Seq<u8>>, tl: Level, dl: Level, comment: Seq<u8>)
    ensures
        render_trust_tail(ids, tl, dl, comment).len() > 0,
        render_trust_tail(ids, tl, dl, comment)[0] == 105
            || render_trust_tail(ids, tl, dl, comment)[0] == 116,
{
    if ids.len() == 0 {
        assert(render_id_list(ids) =~= Seq::<u8>::empty());
        assert(render_trust_tail(ids, tl, dl, comment)[0] == key_trust()[0]);
    } else {
        assert(render_id_list(ids)[0] == key_id()[0]);
        assert(render_trust_tail(ids, tl, dl, comment)[0] == render_id_list(ids)[0]);
    }
}

/// Any canonically rendered, well-formed trust statement parses back to
/// itself: the round trip of the trust body.
#[verifier::rlimit(100)]
pub proof fn lemma_trust_round_trip(t: TrustV)
    requires
        t.wf(),
    ensures
        parse_trust(render_trust(t)) == Some(t),
{
    let tail = render_trust_tail(t.ids, t.trust, t.distrust, t.comment);
    lemma_trust_tail_first_byte(t.ids, t.trust, t.distrust, t.comment);
    lemma_head_round_trip(t.date, t.from_id, t.from_url, tail);
    lemma_trust_tail_round_trip(t.ids, t.trust, t.distrust, t.comment);
    assert(parse_trust(render_trust(t))->Some_0 =~= t);
}

/// Any canonically rendered, well-formed review parses back to itself:
/// the round trip of the review body.
#[verifier::rlimit(100)]
pub proof fn lemma_review_round_trip(r: ReviewV)
    requires
        r.wf(),
    ensures
        parse_review(render_review(r)) == Some(r),
{
    let tail = render_review_tail(r.project, r.revision, r.thoroughness, r.understanding,
        r.trust, r.comment);
    assert(tail[0] == key_project()[0]);
    lemma_head_round_trip(r.date, r.from_id, r.from_url, tail);
    lemma_review_tail_round_trip(r.project, r.revision, r.thoroughness, r.understanding,
        r.trust, r.comment);
    assert(parse_review(render_review(r))->Some_0 =~= r);
}

/// The content round trip: rendering any well-formed content value and
/// parsing the text under the same variant gives the value back.
pub proof fn lemma_content_round_trip(c: ContentV)
    requires
        c.wf(),
    ensures
        parse_content(render_content(c), c.tag()) == Some(c),
{
    match c {
        ContentV::Trust(t) => lemma_trust_round_trip(t),
        ContentV::Code(r) => lemma_review_round_trip(r),
        ContentV::Project(r) => lemma_review_round_trip(r),
    }
}


/// Rendering with the last id split off: the id lines grow at the tail.
proof fn lemma_render_id_list_snoc(ids: Seq<Seq<u8>>)
    requires
        ids.len() > 0,
    ensures
        render_id_list(ids) == render_id_list(ids.drop_last())
            + (key_id() + hex_render(ids.last()) + seq![10u8]),
    decreases ids.len(),
{
    if ids.len() == 1 {
        assert(ids.drop_first() =~= Seq::<Seq<u8>>::empty());
        assert(ids.drop_last() =~= Seq::<Seq<u8>>::empty());
        assert(render_id_list(ids) =~= render_id_list(ids.drop_last())
            + (key_id() + hex_render(ids.last()) + seq![10u8]));
    } else {
        lemma_render_id_list_snoc(ids.drop_first());
        assert(ids.drop_first().drop_last() =~= ids.drop_last().drop_first());
        assert(ids.drop_first().last() == ids.last());
        assert(ids.drop_last()[0] == ids[0]);
        assert(render_id_list(ids) =~= render_id_list(ids.drop_last())
            + (key_id() + hex_render(ids.last()) + seq![10u8]));
    }
}

/// Appends the canonical head lines.
#[verifier::rlimit(100)]
fn push_head(v: &mut Vec<u8>, date: &DateTime, from: &PubId)
    ensures
        final(v)@ == old(v)@ + render_head(*date, from.id@, match from.url {
            Some(u) => Some(u@),
            None => None::<Seq<u8>>,
        }),
{
    let k = key_date_v();
    push_slice(v, k.as_slice());
    push_datetime(v, date);
    v.push(10);
    let k = key_from_id_v();
    push_slice(v, k.as_slice());
    push_hex(v, from.id.as_slice());
    v.push(10);
    match &from.url {
        Some(u) => {
            let k = key_from_url_v();
            push_slice(v, k.as_slice());
            push_slice(v, u.as_slice());
            v.push(10);
        },
        None => {},
    }
    proof {
        assert(v@ =~= old(v)@ + render_head(*date, from.id@, match from.url {
            Some(u) => Some(u@),
            None => None::<Seq<u8>>,
        }));
    }
}

/// Appends the canonical tail of a trust body.
#[verifier::rlimit(100)]
fn push_trust_tail(v: &mut Vec<u8>, ids: &Vec<Vec<u8>>, tl: &Level, dl: &Level, comment: &Vec<u8>)
    ensures
        final(v)@ == old(v)@ + render_trust_tail(ids@.map_values(|x: Vec<u8>| x@), *tl, *dl,
            comment@),
{
    let ghost idsv = ids@.map_values(|x: Vec<u8>| x@);
    let mut i: usize = 0;
    proof {
        assert(render_id_list(idsv.take(0)) =~= Seq::<u8>::empty());
        assert(v@ =~= old(v)@ + render_id_list(idsv.take(0)));
    }
    while i < ids.len()
        invariant
            0 <= i <= ids@.len(),
            idsv == ids@.map_values(|x: Vec<u8>| x@),
            v@ == old(v)@ + render_id_list(idsv.take(i as int)),
        decreases ids@.len() - i,
    {
        let k = key_id_v();
        push_slice(v, k.as_slice());
        push_hex(v, ids[i].as_slice());
        v.push(10);
        i = i + 1;
        proof {
            lemma_render_id_list_snoc(idsv.take(i as int));
            assert(idsv.take(i as int).drop_last() =~= idsv.take(i as int - 1));
            assert(idsv.take(i as int).last() == idsv[i as int - 1]);
            assert(v@ =~= old(v)@ + render_id_list(idsv.take(i as int)));
        }
    }
    proof {
        assert(idsv.take(idsv.len() as int) =~= idsv);
    }
    let k = key_trust_v();
    push_slice(v, k.as_slice());
    push_level(v, tl);
    v.push(10);
    let k = key_distrust_v();
    push_slice(v, k.as_slice());
    push_level(v, dl);
    v.push(10);
    let k = key_comment_v();
    push_slice(v, k.as_slice());
    push_slice(v, comment.as_slice());
    v.push(10);
    proof {
        assert(v@ =~= old(v)@ + render_trust_tail(idsv, *tl, *dl, comment@));
    }
}

/// Appends the canonical tail of a review body.
#[verifier::rlimit(100)]
fn push_review_tail(v: &mut Vec<u8>, project: &Vec<u8>, revision: &Vec<u8>, hl: &Level,
    ul: &Level, tl: &Level, comment: &Vec<u8>)
    ensures
        final(v)@ == old(v)@ + render_review_tail(project@, revision@, *hl, *ul, *tl, comment@),
{
    let k = key_project_v();
    push_slice(v, k.as_slice());
    push_slice(v, project.as_slice());
    v.push(10);
    let k = key_revision_v();
    push_slice(v, k.as_slice());
    push_slice(v, revision.as_slice());
    v.push(10);
    let k = key_thoroughness_v();
    push_slice(v, k.as_slice());
    push_level(v, hl);
    v.push(10);
    let k = key_understanding_v();
    push_slice(v, k.as_slice());
    push_level(v, ul);
    v.push(10);
    let k = key_trust_v();
    push_slice(v, k.as_slice());
    push_level(v, tl);
    v.push(10);
    let k = key_comment_v();
    push_slice(v, k.as_slice());
    push_slice(v, comment.as_slice());
    v.push(10);
    proof {
        assert(v@ =~= old(v)@ + render_review_tail(project@, revision@, *hl, *ul, *tl, comment@));
    }
}

/// Reads the shared head lines at `pos`.
fn parse_head_exec(s: &[u8], pos: usize) -> (r: Option<(DateTime, Vec<u8>, Option<Vec<u8>>, usize)>)
    requires
        pos <= s@.len(),
    ensures
        match r {
            Some(h) => pos <= h.3 <= s@.len() && parse_head(s@.skip(pos as int))
                == Some::<(DateTime, Seq<u8>, Option<Seq<u8>>, Seq<u8>)>((h.0, h.1@, match h.2 {
                    Some(u) => Some(u@),
                    None => None::<Seq<u8>>,
                }, s@.skip(h.3 as int))),
            None => parse_head(s@.skip(pos as int)) is None,
        },
{
    let kd = key_date_v();
    let (dv, p1) = match parse_keyed_line(s, pos, kd.as_slice()) {
        None => { return None; },
        Some(x) => x,
    };
    let date = match parse_datetime(dv.as_slice()) {
        None => { return None; },
        Some(d) => d,
    };
    let kf = key_from_id_v();
    let (fv, p2) = match parse_keyed_line(s, p1, kf.as_slice()) {
        None => { return None; },
        Some(x) => x,
    };
    let fid = match parse_hex(fv.as_slice()) {
        None => { return None; },
        Some(b) => b,
    };
    if fid.len() != 32 {
        return None;
    }
    let ku = key_from_url_v();
    match parse_keyed_line(s, p2, ku.as_slice()) {
        Some(up) => Some((date, fid, Some(up.0), up.1)),
        None => Some((date, fid, None, p2)),
    }
}

/// Reads the tail of a trust body at `pos`; it must reach the end.
fn parse_trust_tail_exec(s: &[u8], pos: usize) -> (r: Option<(Vec<Vec<u8>>, Level, Level, Vec<u8>)>)
    requires
        pos <= s@.len(),
    ensures
        match r {
            Some(q) => parse_trust_tail(s@.skip(pos as int))
                == Some::<(Seq<Seq<u8>>, Level, Level, Seq<u8>)>(
                    (q.0@.map_values(|x: Vec<u8>| x@), q.1, q.2, q.3@)),
            None => parse_trust_tail(s@.skip(pos as int)) is None,
        },
{
    let ghost s0 = s@.skip(pos as int);
    let mut ids: Vec<Vec<u8>> = Vec::new();
    let mut pos = pos;
    let ki = key_id_v();
    proof {
        assert(ids@.map_values(|x: Vec<u8>| x@) =~= Seq::<Seq<u8>>::empty());
        assert(parse_id_list(s0).0 =~= ids@.map_values(|x: Vec<u8>| x@) + parse_id_list(s0).0);
    }
    loop
        invariant
            pos <= s@.len(),
            parse_id_list(s0).0 == ids@.map_values(|x: Vec<u8>| x@)
                + parse_id_list(s@.skip(pos as int)).0,
            parse_id_list(s0).1 == parse_id_list(s@.skip(pos as int)).1,
            ki@ == key_id(),
        ensures
            pos <= s@.len(),
            parse_id_list(s0).0 == ids@.map_values(|x: Vec<u8>| x@),
            parse_id_list(s0).1 == s@.skip(pos as int),
        decreases s@.len() - pos,
    {
        let ghost cur = s@.skip(pos as int);
        match parse_keyed_line(s, pos, ki.as_slice()) {
            None => {
                proof {
                    assert(parse_id_list(cur) == (Seq::<Seq<u8>>::empty(), cur));
                    assert(ids@.map_values(|x: Vec<u8>| x@) + Seq::<Seq<u8>>::empty()
                        =~= ids@.map_values(|x: Vec<u8>| x@));
                }
                break;
            },
            Some(vp) => {
                let (val, np) = vp;
                match parse_hex(val.as_slice()) {
                    None => {
                        proof {
                            assert(parse_id_list(cur) == (Seq::<Seq<u8>>::empty(), cur));
                            assert(ids@.map_values(|x: Vec<u8>| x@) + Seq::<Seq<u8>>::empty()
                                =~= ids@.map_values(|x: Vec<u8>| x@));
                        }
                        break;
                    },
                    Some(b) => {
                        if b.len() != 32 {
                            proof {
                                assert(parse_id_list(cur) == (Seq::<Seq<u8>>::empty(), cur));
                                assert(ids@.map_values(|x: Vec<u8>| x@) + Seq::<Seq<u8>>::empty()
                                    =~= ids@.map_values(|x: Vec<u8>| x@));
                            }
                            break;
                        }
                        let ghost bv = b@;
                        ids.push(b);
                        pos = np;
                        proof {
                            assert(parse_id_list(cur).0 =~= seq![bv]
                                + parse_id_list(s@.skip(pos as int)).0);
                            assert(ids@.map_values(|x: Vec<u8>| x@)
                                =~= ids@.map_values(|x: Vec<u8>| x@).drop_last().push(bv));
                            assert(ids@.map_values(|x: Vec<u8>| x@).drop_last().push(bv)
                                + parse_id_list(s@.skip(pos as int)).0
                                =~= ids@.map_values(|x: Vec<u8>| x@).drop_last()
                                    + (seq![bv] + parse_id_list(s@.skip(pos as int)).0));
                        }
                    },
                }
            },
        }
    }
    let kt = key_trust_v();
    let (tv, p5) = match parse_keyed_line(s, pos, kt.as_slice()) {
        None => { return None; },
        Some(x) => x,
    };
    let tl = match parse_level(tv.as_slice()) {
        None => { return None; },
        Some(l) => l,
    };
    let ks = key_distrust_v();
    let (sv, p6) = match parse_keyed_line(s, p5, ks.as_slice()) {
        None => { return None; },
        Some(x) => x,
    };
    let dl = match parse_level(sv.as_slice()) {
        None => { return None; },
        Some(l) => l,
    };
    let kc = key_comment_v();
    let (cv, p7) = match parse_keyed_line(s, p6, kc.as_slice()) {
        None => { return None; },
        Some(x) => x,
    };
    if p7 != s.len() {
        proof {
            assert(s@.skip(p7 as int).len() > 0);
        }
        return None;
    }
    proof {
        assert(s@.skip(p7 as int).len() == 0);
    }
    Some((ids, tl, dl, cv))
}

/// Reads the tail of a review body at `pos`; it must reach the end.
fn parse_review_tail_exec(s: &[u8], pos: usize) -> (r: Option<(Vec<u8>, Vec<u8>, Level, Level, Level, Vec<u8>)>)
    requires
        pos <= s@.len(),
    ensures
        match r {
            Some(q) => parse_review_tail(s@.skip(pos as int))
                == Some::<(Seq<u8>, Seq<u8>, Level, Level, Level, Seq<u8>)>(
                    (q.0@, q.1@, q.2, q.3, q.4, q.5@)),
            None => parse_review_tail(s@.skip(pos as int)) is None,
        },
{
    let kp = key_project_v();
    let (pv, p1) = match parse_keyed_line(s, pos, kp.as_slice()) {
        None => { return None; },
        Some(x) => x,
    };
    let kr = key_revision_v();
    let (rv, p2) = match parse_keyed_line(s, p1, kr.as_slice()) {
        None => { return None; },
        Some(x) => x,
    };
    let kh = key_thoroughness_v();
    let (hv, p3) = match parse_keyed_line(s, p2, kh.as_slice()) {
        None => { return None; },
        Some(x) => x,
    };
    let hl = match parse_level(hv.as_slice()) {
        None => { return None; },
        Some(l) => l,
    };
    let ku = key_understanding_v();
    let (uv, p4) = match parse_keyed_line(s, p3, ku.as_slice()) {
        None => { return None; },
        Some(x) => x,
    };
    let ul = match parse_level(uv.as_slice()) {
        None => { return None; },
        Some(l) => l,
    };
    let kt = key_trust_v();
    let (tv, p5) = match parse_keyed_line(s, p4, kt.as_slice()) {
        None => { return None; },
        Some(x) => x,
    };
    let tl = match parse_level(tv.as_slice()) {
        None => { return None; },
        Some(l) => l,
    };
    let kc = key_comment_v();
    let (cv, p6) = match parse_keyed_line(s, p5, kc.as_slice()) {
        None => { return None; },
        Some(x) => x,
    };
    if p6 != s.len() {
        proof {
            assert(s@.skip(p6 as int).len() > 0);
        }
        return None;
    }
    proof {
        assert(s@.skip(p6 as int).len() == 0);
    }
    Some((pv, rv, hl, ul, tl, cv))
}

impl Trust {
    /// The canonical body text.
    pub fn render(&self) -> (r: Vec<u8>)
        ensures
            r@ == render_trust(self@),
    {
        let mut v: Vec<u8> = Vec::new();
        push_head(&mut v, &self.date, &self.from);
        push_trust_tail(&mut v, &self.ids, &self.trust, &self.distrust, &self.comment);
        proof {
            assert(v@ =~= render_trust(self@));
        }
        v
    }
}

impl Review {
    /// The canonical body text.
    pub fn render(&self) -> (r: Vec<u8>)
        ensures
            r@ == render_review(self@),
    {
        let mut v: Vec<u8> = Vec::new();
        push_head(&mut v, &self.date, &self.from);
        push_review_tail(&mut v, &self.project, &self.revision, &self.thoroughness,
            &self.understanding, &self.trust, &self.comment);
        proof {
            assert(v@ =~= render_review(self@));
        }
        v
    }
}

impl Content {
    /// The canonical body text of the content.
    pub fn render(&self) -> (r: Vec<u8>)
        ensures
            r@ == render_content(self@),
    {
        match self {
            Content::Trust(t) => t.render(),
            Content::Code(c) => c.render(),
            Content::Project(p) => p.render(),
        }
    }

    /// The variant the content belongs to.
    pub fn proof_type(&self) -> (r: ProofType)
        ensures
            r == self@.tag(),
    {
        match self {
            Content::Trust(_) => ProofType::Trust,
            Content::Code(_) => ProofType::Code,
            Content::Project(_) => ProofType::Project,
        }
    }

    /// The timestamp every variant carries.
    pub fn date(&self) -> (r: DateTime)
        ensures
            r == match self@ {
                ContentV::Trust(t) => t.date,
                ContentV::Code(c) => c.date,
                ContentV::Project(p) => p.date,
            },
    {
        match self {
            Content::Trust(t) => t.date,
            Content::Code(c) => c.date,
            Content::Project(p) => p.date,
        }
    }

    /// The author's raw public key.
    pub fn author_id(&self) -> (r: Vec<u8>)
        ensures
            r@ == match self@ {
                ContentV::Trust(t) => t.from_id,
                ContentV::Code(c) => c.from_id,
                ContentV::Project(p) => p.from_id,
            },
    {
        match self {
            Content::Trust(t) => slice_to_vec(t.from.id.as_slice()),
            Content::Code(c) => slice_to_vec(c.from.id.as_slice()),
            Content::Project(p) => slice_to_vec(p.from.id.as_slice()),
        }
    }

    /// The author's claimed URL, when one was given.
    pub fn author_url(&self) -> (r: Option<Vec<u8>>)
        ensures
            (match r {
                Some(u) => Some(u@),
                None => None::<Seq<u8>>,
            }) == match self@ {
                ContentV::Trust(t) => t.from_url,
                ContentV::Code(c) => c.from_url,
                ContentV::Project(p) => p.from_url,
            },
    {
        let url = match self {
            Content::Trust(t) => &t.from.url,
            Content::Code(c) => &c.from.url,
            Content::Project(p) => &p.from.url,
        };
        match url {
            Some(u) => Some(slice_to_vec(u.as_slice())),
            None => None,
        }
    }

    /// Parses a body text of the given variant, exactly as
    /// [`parse_content`] says: the error names the variant whose format
    /// the body does not follow.
    pub fn parse(s: &[u8], vtype: ProofType) -> (r: Result<Content, ParseError>)
        ensures
            match r {
                Ok(c) => parse_content(s@, vtype) == Some(c@) && c@.tag() == vtype,
                Err(e) => parse_content(s@, vtype) is None
                    && e == ParseError::MalformedContent(vtype),
            },
    {
        proof {
            assert(s@.skip(0) =~= s@);
        }
        match vtype {
            ProofType::Trust => {
                let h = match parse_head_exec(s, 0) {
                    None => { return Err(ParseError::MalformedContent(vtype)); },
                    Some(h) => h,
                };
                let (date, fid, url, p) = h;
                let q = match parse_trust_tail_exec(s, p) {
                    None => { return Err(ParseError::MalformedContent(vtype)); },
                    Some(q) => q,
                };
                let (ids, tl, dl, comment) = q;
                Ok(Content::Trust(Trust {
                    date,
                    from: PubId { id: fid, url },
                    ids,
                    trust: tl,
                    distrust: dl,
                    comment,
                }))
            },
            ProofType::Code => {
                let h = match parse_head_exec(s, 0) {
                    None => { return Err(ParseError::MalformedContent(vtype)); },
                    Some(h) => h,
                };
                let (date, fid, url, p) = h;
                let q = match parse_review_tail_exec(s, p) {
                    None => { return Err(ParseError::MalformedContent(vtype)); },
                    Some(q) => q,
                };
                Ok(Content::Code(Review {
                    date,
                    from: PubId { id: fid, url },
                    project: q.0,
                    revision: q.1,
                    thoroughness: q.2,
                    understanding: q.3,
                    trust: q.4,
                    comment: q.5,
                }))
            },
            ProofType::Project => {
                let h = match parse_head_exec(s, 0) {
                    None => { return Err(ParseError::MalformedContent(vtype)); },
                    Some(h) => h,
                };
                let (date, fid, url, p) = h;
                let q = match parse_review_tail_exec(s, p) {
                    None => { return Err(ParseError::MalformedContent(vtype)); },
                    Some(q) => q,
                };
                Ok(Content::Project(Review {
                    date,
                    from: PubId { id: fid, url },
                    project: q.0,
                    revision: q.1,
                    thoroughness: q.2,
                    understanding: q.3,
                    trust: q.4,
                    comment: q.5,
                }))
            },
        }
    }
}


impl Trust {
    /// An equal-valued copy.
    pub fn duplicate(&self) -> (r: Trust)
        ensures
            r@ == self@,
    {
        let mut ids: Vec<Vec<u8>> = Vec::new();
        let mut i: usize = 0;
        while i < self.ids.len()
            invariant
                0 <= i <= self.ids@.len(),
                ids@.len() == i,
                forall|j: int| 0 <= j < i ==> (#[trigger] ids@[j])@ == self.ids@[j]@,
            decreases self.ids@.len() - i,
        {
            ids.push(slice_to_vec(self.ids[i].as_slice()));
            i = i + 1;
        }
        let r = Trust {
            date: self.date,
            from: self.from.duplicate(),
            ids,
            trust: self.trust,
            distrust: self.distrust,
            comment: slice_to_vec(self.comment.as_slice()),
        };
        proof {
            assert(r@.ids =~= self@.ids);
            assert(r@ =~= self@);
        }
        r
    }
}

impl Review {
    /// An equal-valued copy.
    pub fn duplicate(&self) -> (r: Review)
        ensures
            r@ == self@,
    {
        let r = Review {
            date: self.date,
            from: self.from.duplicate(),
            project: slice_to_vec(self.project.as_slice()),
            revision: slice_to_vec(self.revision.as_slice()),
            thoroughness: self.thoroughness,
            understanding: self.understanding,
            trust: self.trust,
            comment: slice_to_vec(self.comment.as_slice()),
        };
        proof {
            assert(r@ =~= self@);
        }
        r
    }
}

/// The draft text of a content value: the canonical body without the
/// date and author lines, which signing fills in.
pub open spec fn render_draft(c: ContentV) -> Seq<u8> {
    match c {
        ContentV::Trust(t) => render_trust_tail(t.ids, t.trust, t.distrust, t.comment),
        ContentV::Code(r) => render_review_tail(r.project, r.revision, r.thoroughness,
            r.understanding, r.trust, r.comment),
        ContentV::Project(r) => render_review_tail(r.project, r.revision, r.thoroughness,
            r.understanding, r.trust, r.comment),
    }
}

/// Which content value a draft text of the given variant denotes, once
/// the given date and author complete it.
pub open spec fn parse_draft_content(s: Seq<u8>, vtype: ProofType, date: DateTime,
    from_id: Seq<u8>, from_url: Option<Seq<u8>>) -> Option<ContentV> {
    match vtype {
        ProofType::Trust => match parse_trust_tail(s) {
            None => None,
            Some(q) => Some(ContentV::Trust(TrustV {
                date,
                from_id,
                from_url,
                ids: q.0,
                trust: q.1,
                distrust: q.2,
                comment: q.3,
            })),
        },
        ProofType::Code => match parse_review_tail(s) {
            None => None,
            Some(q) => Some(ContentV::Code(ReviewV {
                date,
                from_id,
                from_url,
                project: q.0,
                revision: q.1,
                thoroughness: q.2,
                understanding: q.3,
                trust: q.4,
                comment: q.5,
            })),
        },
        ProofType::Project => match parse_review_tail(s) {
            None => None,
            Some(q) => Some(ContentV::Project(ReviewV {
                date,
                from_id,
                from_url,
                project: q.0,
                revision: q.1,
                thoroughness: q.2,
                understanding: q.3,
                trust: q.4,
                comment: q.5,
            })),
        },
    }
}

/// The draft round trip: a draft rendered from any well-formed content
/// value, completed with any date and author, is that value with the
/// date and author replaced.
pub proof fn lemma_draft_round_trip(c: ContentV, date: DateTime, from_id: Seq<u8>,
    from_url: Option<Seq<u8>>)
    requires
        c.wf(),
    ensures
        match (c, parse_draft_content(render_draft(c), c.tag(), date, from_id, from_url)) {
            (ContentV::Trust(t), Some(ContentV::Trust(t2))) => t2 == TrustV {
                date, from_id, from_url, ..t },
            (ContentV::Code(r), Some(ContentV::Code(r2))) => r2 == ReviewV {
                date, from_id, from_url, ..r },
            (ContentV::Project(r), Some(ContentV::Project(r2))) => r2 == ReviewV {
                date, from_id, from_url, ..r },
            _ => false,
        },
{
    match c {
        ContentV::Trust(t) => {
            lemma_trust_tail_round_trip(t.ids, t.trust, t.distrust, t.comment);
            assert(parse_draft_content(render_draft(c), c.tag(), date, from_id,
                from_url)->Some_0->Trust_0 =~= TrustV { date, from_id, from_url, ..t });
        },
        ContentV::Code(r) => {
            lemma_review_tail_round_trip(r.project, r.revision, r.thoroughness,
                r.understanding, r.trust, r.comment);
            assert(parse_draft_content(render_draft(c), c.tag(), date, from_id,
                from_url)->Some_0->Code_0 =~= ReviewV { date, from_id, from_url, ..r });
        },
        ContentV::Project(r) => {
            lemma_review_tail_round_trip(r.project, r.revision, r.thoroughness,
                r.understanding, r.trust, r.comment);
            assert(parse_draft_content(render_draft(c), c.tag(), date, from_id,
                from_url)->Some_0->Project_0 =~= ReviewV { date, from_id, from_url, ..r });
        },
    }
}

impl Content {
    /// An equal-valued copy.
    pub fn duplicate(&self) -> (r: Content)
        ensures
            r@ == self@,
    {
        match self {
            Content::Trust(t) => Content::Trust(t.duplicate()),
            Content::Code(c) => Content::Code(c.duplicate()),
            Content::Project(p) => Content::Project(p.duplicate()),
        }
    }

    /// The draft text: the body without the date and author lines,
    /// for interactive composition before signing.
    pub fn to_draft_string(&self) -> (r: Vec<u8>)
        ensures
            r@ == render_draft(self@),
    {
        let mut v: Vec<u8> = Vec::new();
        match self {
            Content::Trust(t) => {
                push_trust_tail(&mut v, &t.ids, &t.trust, &t.distrust, &t.comment);
            },
            Content::Code(c) => {
                push_review_tail(&mut v, &c.project, &c.revision, &c.thoroughness,
                    &c.understanding, &c.trust, &c.comment);
            },
            Content::Project(p) => {
                push_review_tail(&mut v, &p.project, &p.revision, &p.thoroughness,
                    &p.understanding, &p.trust, &p.comment);
            },
        }
        v
    }

    /// Parses a draft text of the given variant and completes it with
    /// the given timestamp and author, exactly as
    /// [`parse_draft_content`] says.
    pub fn parse_draft(s: &[u8], vtype: ProofType, date: DateTime, author: &PubId)
        -> (r: Result<Content, ParseError>)
        ensures
            match r {
                Ok(c) => parse_draft_content(s@, vtype, date, author.id@, match author.url {
                    Some(u) => Some(u@),
                    None => None::<Seq<u8>>,
                }) == Some(c@),
                Err(e) => parse_draft_content(s@, vtype, date, author.id@, match author.url {
                    Some(u) => Some(u@),
                    None => None::<Seq<u8>>,
                }) is None && e == ParseError::MalformedContent(vtype),
            },
    {
        proof {
            assert(s@.skip(0) =~= s@);
        }
        match vtype {
            ProofType::Trust => {
                let q = match parse_trust_tail_exec(s, 0) {
                    None => { return Err(ParseError::MalformedContent(vtype)); },
                    Some(q) => q,
                };
                Ok(Content::Trust(Trust {
                    date,
                    from: author.duplicate(),
                    ids: q.0,
                    trust: q.1,
                    distrust: q.2,
                    comment: q.3,
                }))
            },
            ProofType::Code => {
                let q = match parse_review_tail_exec(s, 0) {
                    None => { return Err(ParseError::MalformedContent(vtype)); },
                    Some(q) => q,
                };
                Ok(Content::Code(Review {
                    date,
                    from: author.duplicate(),
                    project: q.0,
                    revision: q.1,
                    thoroughness: q.2,
                    understanding: q.3,
                    trust: q.4,
                    comment: q.5,
                }))
            },
            ProofType::Project => {
                let q = match parse_review_tail_exec(s, 0) {
                    None => { return Err(ParseError::MalformedContent(vtype)); },
                    Some(q) => q,
                };
                Ok(Content::Project(Review {
                    date,
                    from: author.duplicate(),
                    project: q.0,
                    revision: q.1,
                    thoroughness: q.2,
                    understanding: q.3,
                    trust: q.4,
                    comment: q.5,
                }))
            },
        }
    }
}
} // verus!
