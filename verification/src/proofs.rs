//! The proof wire format: marker-delimited blocks in a line-oriented
//! stream, scanned by a bounded state machine, plus signing and
//! verification of whole proofs.

use vstd::prelude::*;
use vstd::string::StringSliceAdditionalSpecFns;
use vstd::slice::slice_to_vec;

use crate::content::{Content, ContentV, parse_content, render_content};
use crate::crypto::{all_base64_bytes, base64_decode_canonical, base64_encode, base64_of, blake2b256,
    blake2b256_of, ed25519_pub_of, ed25519_sig_of, ed25519_verifies, ed25519_verify};
use crate::errors::{ParseError, VerifyError};
use crate::id::OwnId;
use crate::lines::{bytes_eq, is_blank, read_line, spec_is_blank, spec_trim, take_line,
    trim_bytes, lemma_take_line_append, lemma_take_line_shape, lemma_trim_ws_free};

verus! {

/// The accumulated body of one block may not grow past this many bytes.
pub const MAX_BODY_LEN: usize = 16000;

/// The accumulated signature of one block may not grow past this many bytes.
pub const MAX_SIGNATURE_LEN: usize = 2000;

/// The three proof variants.
#[derive(Clone, Copy, Debug, PartialEq, Eq, Structural)]
pub enum ProofType {
    Code,
    Project,
    Trust,
}

/// The begin-block marker line of each variant.
pub open spec fn begin_block_marker(t: ProofType) -> Seq<u8> {
    match t {
        ProofType::Code => "-----BEGIN CODE REVIEW PROOF-----".spec_bytes(),
        ProofType::Project => "-----BEGIN PROJECT REVIEW PROOF-----".spec_bytes(),
        ProofType::Trust => "-----BEGIN TRUST PROOF-----".spec_bytes(),
    }
}

/// The begin-signature marker line of each variant.
pub open spec fn begin_signature_marker(t: ProofType) -> Seq<u8> {
    match t {
        ProofType::Code => "-----BEGIN CODE REVIEW PROOF SIGNATURE-----".spec_bytes(),
        ProofType::Project => "-----BEGIN PROJECT REVIEW PROOF SIGNATURE-----".spec_bytes(),
        ProofType::Trust => "-----BEGIN TRUST PROOF SIGNATURE-----".spec_bytes(),
    }
}

/// The end-block marker line of each variant.
pub open spec fn end_block_marker(t: ProofType) -> Seq<u8> {
    match t {
        ProofType::Code => "-----END CODE REVIEW PROOF-----".spec_bytes(),
        ProofType::Project => "-----END PROJECT REVIEW PROOF-----".spec_bytes(),
        ProofType::Trust => "-----END TRUST PROOF-----".spec_bytes(),
    }
}

/// The begin-block marker as bytes.
pub fn begin_block_bytes(t: ProofType) -> (r: Vec<u8>)
    ensures
        r@ == begin_block_marker(t),
{
    match t {
        ProofType::Code => slice_to_vec("-----BEGIN CODE REVIEW PROOF-----".as_bytes()),
        ProofType::Project => slice_to_vec("-----BEGIN PROJECT REVIEW PROOF-----".as_bytes()),
        ProofType::Trust => slice_to_vec("-----BEGIN TRUST PROOF-----".as_bytes()),
    }
}

/// The begin-signature marker as bytes.
pub fn begin_signature_bytes(t: ProofType) -> (r: Vec<u8>)
    ensures
        r@ == begin_signature_marker(t),
{
    match t {
        ProofType::Code => slice_to_vec("-----BEGIN CODE REVIEW PROOF SIGNATURE-----".as_bytes()),
        ProofType::Project => slice_to_vec(
            "-----BEGIN PROJECT REVIEW PROOF SIGNATURE-----".as_bytes()),
        ProofType::Trust => slice_to_vec("-----BEGIN TRUST PROOF SIGNATURE-----".as_bytes()),
    }
}

/// The end-block marker as bytes.
pub fn end_block_bytes(t: ProofType) -> (r: Vec<u8>)
    ensures
        r@ == end_block_marker(t),
{
    match t {
        ProofType::Code => slice_to_vec("-----END CODE REVIEW PROOF-----".as_bytes()),
        ProofType::Project => slice_to_vec("-----END PROJECT REVIEW PROOF-----".as_bytes()),
        ProofType::Trust => slice_to_vec("-----END TRUST PROOF-----".as_bytes()),
    }
}

/// One raw record cut out of a stream: body text, signature text, variant.
#[derive(Clone, Debug)]
pub struct Serialized {
    pub body: Vec<u8>,
    pub signature: Vec<u8>,
    pub vtype: ProofType,
}

/// The mathematical value of a [`Serialized`] record.
#[verifier::ext_equal]
pub struct RecordV {
    pub body: Seq<u8>,
    pub signature: Seq<u8>,
    pub vtype: ProofType,
}

impl View for Serialized {
    type V = RecordV;

    open spec fn view(&self) -> RecordV {
        RecordV { body: self.body@, signature: self.signature@, vtype: self.vtype }
    }
}

/// The scanner's position in a stream.
#[derive(Clone, Copy, Debug, PartialEq, Eq, Structural)]
pub enum Stage {
    /// Outside any block.
    Seeking,
    /// Between begin-block and begin-signature.
    InBody,
    /// Between begin-signature and end-block.
    InSignature,
}

/// The whole state of the scanner, as a mathematical value.
#[verifier::ext_equal]
pub struct ScanState {
    pub stage: Stage,
    pub vtype: ProofType,
    pub body: Seq<u8>,
    pub signature: Seq<u8>,
    pub records: Seq<RecordV>,
}

/// The state the scan starts in.  The variant held while `Seeking` is
/// immaterial; `Trust` is as good as any.
pub open spec fn init_scan_state() -> ScanState {
    ScanState {
        stage: Stage::Seeking,
        vtype: ProofType::Trust,
        body: Seq::empty(),
        signature: Seq::empty(),
        records: Seq::empty(),
    }
}

/// One transition of the scanner on one line.
pub open spec fn scan_step(st: ScanState, line: Seq<u8>) -> Result<ScanState, ParseError> {
    match st.stage {
        Stage::Seeking => {
            if spec_is_blank(line) {
                Ok(st)
            } else if line == begin_block_marker(ProofType::Code) {
                Ok(ScanState { stage: Stage::InBody, vtype: ProofType::Code,
                    body: Seq::empty(), signature: Seq::empty(), records: st.records })
            } else if line == begin_block_marker(ProofType::Trust) {
                Ok(ScanState { stage: Stage::InBody, vtype: ProofType::Trust,
                    body: Seq::empty(), signature: Seq::empty(), records: st.records })
            } else if line == begin_block_marker(ProofType::Project) {
                Ok(ScanState { stage: Stage::InBody, vtype: ProofType::Project,
                    body: Seq::empty(), signature: Seq::empty(), records: st.records })
            } else {
                Err(ParseError::UnexpectedLine)
            }
        },
        Stage::InBody => {
            if line == begin_signature_marker(st.vtype) {
                Ok(ScanState { stage: Stage::InSignature, vtype: st.vtype, body: st.body,
                    signature: st.signature, records: st.records })
            } else if st.body.len() + line.len() + 1 > MAX_BODY_LEN {
                Err(ParseError::BodyTooLarge)
            } else {
                Ok(ScanState { stage: st.stage, vtype: st.vtype,
                    body: st.body + line + seq![10u8],
                    signature: st.signature, records: st.records })
            }
        },
        Stage::InSignature => {
            if line == end_block_marker(st.vtype) {
                Ok(ScanState {
                    stage: Stage::Seeking,
                    vtype: st.vtype,
                    body: Seq::empty(),
                    signature: Seq::empty(),
                    records: st.records.push(RecordV {
                        body: st.body,
                        signature: st.signature,
                        vtype: st.vtype,
                    }),
                })
            } else if st.signature.len() + line.len() + 1 > MAX_SIGNATURE_LEN {
                Err(ParseError::SignatureTooLarge)
            } else {
                Ok(ScanState { stage: st.stage, vtype: st.vtype, body: st.body,
                    signature: st.signature + line + seq![10u8], records: st.records })
            }
        },
    }
}

/// Running the scanner over every line of `s`.
pub open spec fn scan_lines(st: ScanState, s: Seq<u8>) -> Result<ScanState, ParseError>
    decreases s.len(),
    via scan_lines_decreases
{
    match take_line(s) {
        None => Ok(st),
        Some(p) => match scan_step(st, p.0) {
            Err(e) => Err(e),
            Ok(st2) => scan_lines(st2, p.1),
        },
    }
}

#[via_fn]
proof fn scan_lines_decreases(st: ScanState, s: Seq<u8>) {
    if take_line(s) is Some {
        lemma_take_line_shape(s);
    }
}

/// What parsing a whole stream yields: the records of its blocks in
/// input order, or the first error.  A stream that ends inside a block
/// is truncated.
pub open spec fn spec_parse_stream(s: Seq<u8>) -> Result<Seq<RecordV>, ParseError> {
    match scan_lines(init_scan_state(), s) {
        Err(e) => Err(e),
        Ok(st) => if st.stage == Stage::Seeking {
            Ok(st.records)
        } else {
            Err(ParseError::UnexpectedEof)
        },
    }
}

/// Scans a whole stream into raw records, exactly as [`spec_parse_stream`]
/// describes: blank lines between blocks are skipped, a non-marker line
/// outside a block fails, bodies and signatures are size-capped, and a
/// stream that ends inside a block fails with `UnexpectedEof`.
///
/// The scan aborts at the first offending line, and no partial results
/// are kept: records cut out before that line are dropped with the error.
pub fn parse_stream(input: &[u8]) -> (r: Result<Vec<Serialized>, ParseError>)
    ensures
        match r {
            Ok(recs) => spec_parse_stream(input@)
                == Ok::<Seq<RecordV>, ParseError>(recs@.map_values(|x: Serialized| x@)),
            Err(e) => spec_parse_stream(input@) == Err::<Seq<RecordV>, ParseError>(e),
        },
{
    let mut pos: usize = 0;
    let mut stage = Stage::Seeking;
    let mut vtype = ProofType::Trust;
    let mut body: Vec<u8> = Vec::new();
    let mut signature: Vec<u8> = Vec::new();
    let mut records: Vec<Serialized> = Vec::new();

    proof {
        assert(input@.skip(0) =~= input@);
        assert(ScanState {
            stage: stage,
            vtype: vtype,
            body: body@,
            signature: signature@,
            records: records@.map_values(|x: Serialized| x@),
        } =~= init_scan_state());
    }
    loop
        invariant
            pos <= input@.len(),
            body@.len() <= MAX_BODY_LEN,
            signature@.len() <= MAX_SIGNATURE_LEN,
            scan_lines(init_scan_state(), input@) == scan_lines(
                ScanState {
                    stage: stage,
                    vtype: vtype,
                    body: body@,
                    signature: signature@,
                    records: records@.map_values(|x: Serialized| x@),
                },
                input@.skip(pos as int),
            ),
        ensures
            pos == input@.len(),
            scan_lines(init_scan_state(), input@) == scan_lines(
                ScanState {
                    stage: stage,
                    vtype: vtype,
                    body: body@,
                    signature: signature@,
                    records: records@.map_values(|x: Serialized| x@),
                },
                input@.skip(pos as int),
            ),
        decreases input@.len() - pos,
    {
        let ghost cur = ScanState {
            stage: stage,
            vtype: vtype,
            body: body@,
            signature: signature@,
            records: records@.map_values(|x: Serialized| x@),
        };
        let (line, next_pos) = match read_line(input, pos) {
            None => { break; },
            Some(lp) => lp,
        };
        let ghost line_v = line@;
        let ghost rest = input@.skip(next_pos as int);
        proof {
            assert(take_line(input@.skip(pos as int)) == Some::<(Seq<u8>, Seq<u8>)>((line_v, rest)));
        }
        match stage {
            Stage::Seeking => {
                if is_blank(line.as_slice()) {
                    // stay Seeking
                } else if bytes_eq(line.as_slice(), begin_block_bytes(ProofType::Code).as_slice()) {
                    stage = Stage::InBody;
                    vtype = ProofType::Code;
                    body = Vec::new();
                    signature = Vec::new();
                } else if bytes_eq(line.as_slice(), begin_block_bytes(ProofType::Trust).as_slice()) {
                    stage = Stage::InBody;
                    vtype = ProofType::Trust;
                    body = Vec::new();
                    signature = Vec::new();
                } else if bytes_eq(line.as_slice(), begin_block_bytes(ProofType::Project).as_slice()) {
                    stage = Stage::InBody;
                    vtype = ProofType::Project;
                    body = Vec::new();
                    signature = Vec::new();
                } else {
                    proof {
                        assert(scan_step(cur, line_v) == Err::<ScanState, ParseError>(
                            ParseError::UnexpectedLine));
                    }
                    return Err(ParseError::UnexpectedLine);
                }
            },
            Stage::InBody => {
                if bytes_eq(line.as_slice(), begin_signature_bytes(vtype).as_slice()) {
                    stage = Stage::InSignature;
                } else if line.len() >= MAX_BODY_LEN - body.len() {
                    proof {
                        assert(scan_step(cur, line_v) == Err::<ScanState, ParseError>(
                            ParseError::BodyTooLarge));
                    }
                    return Err(ParseError::BodyTooLarge);
                } else {
                    crate::lines::push_slice(&mut body, line.as_slice());
                    body.push(10);
                    proof {
                        assert(body@ =~= cur.body + line_v + seq![10u8]);
                    }
                }
            },
            Stage::InSignature => {
                if bytes_eq(line.as_slice(), end_block_bytes(vtype).as_slice()) {
                    stage = Stage::Seeking;
                    let done_body = body;
                    let done_signature = signature;
                    body = Vec::new();
                    signature = Vec::new();
                    records.push(Serialized {
                        body: done_body,
                        signature: done_signature,
                        vtype: vtype,
                    });
                    proof {
                        assert(records@.map_values(|x: Serialized| x@)
                            =~= cur.records.push(RecordV {
                                body: cur.body,
                                signature: cur.signature,
                                vtype: cur.vtype,
                            }));
                    }
                } else if line.len() >= MAX_SIGNATURE_LEN - signature.len() {
                    proof {
                        assert(scan_step(cur, line_v) == Err::<ScanState, ParseError>(
                            ParseError::SignatureTooLarge));
                    }
                    return Err(ParseError::SignatureTooLarge);
                } else {
                    crate::lines::push_slice(&mut signature, line.as_slice());
                    signature.push(10);
                    proof {
                        assert(signature@ =~= cur.signature + line_v + seq![10u8]);
                    }
                }
            },
        }
        pos = next_pos;
        proof {
            let new_cur = ScanState {
                stage: stage,
                vtype: vtype,
                body: body@,
                signature: signature@,
                records: records@.map_values(|x: Serialized| x@),
            };
            assert(scan_step(cur, line_v) is Ok);
            assert(scan_step(cur, line_v)->Ok_0 =~= new_cur);
        }
    }
    proof {
        assert(input@.skip(pos as int) =~= Seq::<u8>::empty());
    }
    if matches!(stage, Stage::Seeking) {
        Ok(records)
    } else {
        Err(ParseError::UnexpectedEof)
    }
}

/// In a body, a non-marker line that would push the accumulated body past
/// the cap fails with `BodyTooLarge`.
pub proof fn lemma_body_cap(st: ScanState, line: Seq<u8>)
    requires
        st.stage == Stage::InBody,
        line != begin_signature_marker(st.vtype),
        st.body.len() + line.len() + 1 > MAX_BODY_LEN,
    ensures
        scan_step(st, line) == Err::<ScanState, ParseError>(ParseError::BodyTooLarge),
{
}

/// In a signature, a non-marker line that would push the accumulated
/// signature past the cap fails with `SignatureTooLarge`.
pub proof fn lemma_signature_cap(st: ScanState, line: Seq<u8>)
    requires
        st.stage == Stage::InSignature,
        line != end_block_marker(st.vtype),
        st.signature.len() + line.len() + 1 > MAX_SIGNATURE_LEN,
    ensures
        scan_step(st, line) == Err::<ScanState, ParseError>(ParseError::SignatureTooLarge),
{
}

/// A stream that ends while inside a block fails with `UnexpectedEof`.
pub proof fn lemma_truncated_stream(s: Seq<u8>)
    requires
        scan_lines(init_scan_state(), s) is Ok,
        scan_lines(init_scan_state(), s)->Ok_0.stage != Stage::Seeking,
    ensures
        spec_parse_stream(s) == Err::<Seq<RecordV>, ParseError>(ParseError::UnexpectedEof),
{
}


/// The author key a content value names.
pub open spec fn content_author_id(c: ContentV) -> Seq<u8> {
    match c {
        ContentV::Trust(t) => t.from_id,
        ContentV::Code(r) => r.from_id,
        ContentV::Project(r) => r.from_id,
    }
}

/// A proof with its content parsed and its advisory digest computed.
#[derive(Debug)]
pub struct Proof {
    /// The exact body bytes the signature speaks of.
    pub body: Vec<u8>,
    /// The signature text: URL-safe base64 when freshly signed, the raw
    /// signature lines when cut out of a stream.
    pub signature: Vec<u8>,
    /// The advisory BLAKE2b digest of the body; content-addressing only,
    /// not re-checked by verification.
    pub digest: Vec<u8>,
    /// The parsed content; trustworthy only after [`Proof::verify`].
    pub content: Content,
}

/// What signing promises: the body is the canonical text of the content,
/// the digest is its hash, and the signature text encodes the signature
/// the signer's public key accepts on the body.
pub open spec fn signed_by(p: Proof, c: ContentV, secret: Seq<u8>) -> bool {
    &&& p.body@ == render_content(c)
    &&& p.signature@ == base64_of(ed25519_sig_of(secret, p.body@))
    &&& all_base64_bytes(p.signature@)
    &&& ed25519_verifies(ed25519_pub_of(secret), p.body@, ed25519_sig_of(secret, p.body@))
    &&& p.digest@ == blake2b256_of(p.body@)
    &&& p.content@ == c
}

/// What verification reports: `Ok` exactly when the trimmed signature
/// text decodes to a signature the author's key accepts on the body.
pub open spec fn verify_post(p: Proof, r: Result<(), VerifyError>) -> bool {
    &&& (r is Ok <==> exists|sig: Seq<u8>| spec_trim(p.signature@) == #[trigger] base64_of(sig)
        && ed25519_verifies(content_author_id(p.content@), p.body@, sig))
    &&& (r == Err::<(), VerifyError>(VerifyError::BadEncoding)
        <==> forall|sig: Seq<u8>| spec_trim(p.signature@) != #[trigger] base64_of(sig))
    &&& (r is Ok || r == Err::<(), VerifyError>(VerifyError::BadEncoding)
        || r == Err::<(), VerifyError>(VerifyError::BadSignature))
}

impl Content {
    /// Signs the content: renders the canonical body, hashes it, signs it
    /// with the identity's key and packages the proof.
    pub fn sign_by(&self, id: &OwnId) -> (p: Proof)
        requires
            id.wf(),
        ensures
            signed_by(p, self@, id.secret@),
    {
        let body = self.render();
        let digest = blake2b256(body.as_slice());
        let sig = id.sign(body.as_slice());
        let signature = base64_encode(sig.as_slice());
        Proof { body, signature, digest, content: self.duplicate() }
    }
}

impl Proof {
    /// The signature text with surrounding whitespace removed, the form
    /// verification decodes.
    pub fn signature(&self) -> (r: Vec<u8>)
        ensures
            r@ == spec_trim(self.signature@),
    {
        trim_bytes(self.signature.as_slice())
    }

    /// Verifies the stored signature text against the stored body bytes
    /// under the author key the content names.
    pub fn verify(&self) -> (r: Result<(), VerifyError>)
        ensures
            verify_post(*self, r),
    {
        let trimmed = trim_bytes(self.signature.as_slice());
        let sig = match base64_decode_canonical(trimmed.as_slice()) {
            None => { return Err(VerifyError::BadEncoding); },
            Some(sig) => sig,
        };
        let author = self.content.author_id();
        if ed25519_verify(author.as_slice(), self.body.as_slice(), sig.as_slice()) {
            Ok(())
        } else {
            proof {
                assert(forall|s2: Seq<u8>| spec_trim(self.signature@) == #[trigger] base64_of(s2)
                    ==> s2 == sig@);
            }
            Err(VerifyError::BadSignature)
        }
    }
}

/// A freshly signed proof verifies, when the content names its signer:
/// the sign/verify round trip.
pub proof fn lemma_signed_proof_verifies(p: Proof, c: ContentV, own: OwnId,
    r: Result<(), VerifyError>)
    requires
        own.wf(),
        content_author_id(c) == own.id.id@,
        signed_by(p, c, own.secret@),
        verify_post(p, r),
    ensures
        r is Ok,
{
    lemma_trim_ws_free(p.signature@);
    let sig = ed25519_sig_of(own.secret@, p.body@);
    assert(spec_trim(p.signature@) == base64_of(sig));
    assert(ed25519_verifies(content_author_id(p.content@), p.body@, sig));
}

impl Serialized {
    /// Parses the record's body into typed content and computes the
    /// advisory digest; the raw body and signature text carry over as
    /// they stand.
    pub fn to_parsed(&self) -> (r: Result<Proof, ParseError>)
        ensures
            match r {
                Ok(p) => parse_content(self.body@, self.vtype) == Some(p.content@)
                    && p.body@ == self.body@
                    && p.signature@ == self.signature@
                    && p.digest@ == blake2b256_of(self.body@),
                Err(e) => parse_content(self.body@, self.vtype) is None
                    && e == ParseError::MalformedContent(self.vtype),
            },
    {
        let content = match Content::parse(self.body.as_slice(), self.vtype) {
            Err(e) => { return Err(e); },
            Ok(c) => c,
        };
        let digest = blake2b256(self.body.as_slice());
        Ok(Proof {
            body: vstd::slice::slice_to_vec(self.body.as_slice()),
            signature: vstd::slice::slice_to_vec(self.signature.as_slice()),
            digest,
            content,
        })
    }

    /// The record rendered back to wire text: begin marker, body,
    /// signature marker, signature, end marker, one line each around the
    /// accumulated body and signature bytes.
    pub fn render(&self) -> (r: Vec<u8>)
        ensures
            r@ == render_block(self.vtype, self.body@, self.signature@),
    {
        let mut v = begin_block_bytes(self.vtype);
        v.push(10);
        crate::lines::push_slice(&mut v, self.body.as_slice());
        let m = begin_signature_bytes(self.vtype);
        crate::lines::push_slice(&mut v, m.as_slice());
        v.push(10);
        crate::lines::push_slice(&mut v, self.signature.as_slice());
        let m = end_block_bytes(self.vtype);
        crate::lines::push_slice(&mut v, m.as_slice());
        v.push(10);
        proof {
            assert(v@ =~= render_block(self.vtype, self.body@, self.signature@));
        }
        v
    }
}

/// The wire text of one proof block.
pub open spec fn render_block(t: ProofType, body: Seq<u8>, signature: Seq<u8>) -> Seq<u8> {
    begin_block_marker(t) + seq![10u8] + body + begin_signature_marker(t) + seq![10u8]
        + signature + end_block_marker(t) + seq![10u8]
}

impl Proof {
    /// The proof rendered to wire text.  A freshly signed proof's
    /// signature has no trailing newline, so one is added; a parsed
    /// proof's signature text keeps the line breaks it came with.
    pub fn render(&self) -> (r: Vec<u8>)
        ensures
            r@ == render_block(self.content@.tag(), self.body@, self.signature@ + seq![10u8]),
    {
        let t = self.content.proof_type();
        let mut v = begin_block_bytes(t);
        v.push(10);
        crate::lines::push_slice(&mut v, self.body.as_slice());
        let m = begin_signature_bytes(t);
        crate::lines::push_slice(&mut v, m.as_slice());
        v.push(10);
        crate::lines::push_slice(&mut v, self.signature.as_slice());
        v.push(10);
        let m = end_block_bytes(t);
        crate::lines::push_slice(&mut v, m.as_slice());
        v.push(10);
        proof {
            assert(v@ =~= render_block(self.content@.tag(), self.body@,
                self.signature@ + seq![10u8]));
        }
        v
    }

    /// Scans a whole stream and parses every record's content: the
    /// typed counterpart of [`parse_stream`].
    pub fn parse(input: &[u8]) -> (r: Result<Vec<Proof>, ParseError>)
        ensures
            match r {
                Ok(ps) => {
                    &&& spec_parse_stream(input@) is Ok
                    &&& ps@.len() == spec_parse_stream(input@)->Ok_0.len()
                    &&& forall|i: int| 0 <= i < ps@.len() ==> {
                        let rec = spec_parse_stream(input@)->Ok_0[i];
                        &&& (#[trigger] ps@[i]).body@ == rec.body
                        &&& ps@[i].signature@ == rec.signature
                        &&& ps@[i].digest@ == blake2b256_of(rec.body)
                        &&& parse_content(rec.body, rec.vtype) == Some(ps@[i].content@)
                    }
                },
                Err(e) => match spec_parse_stream(input@) {
                    Ok(recs) => exists|i: int| 0 <= i < recs.len()
                        && parse_content((#[trigger] recs[i]).body, recs[i].vtype) is None
                        && e == ParseError::MalformedContent(recs[i].vtype),
                    Err(e2) => e == e2,
                },
            },
    {
        let recs = match parse_stream(input) {
            Err(e) => { return Err(e); },
            Ok(recs) => recs,
        };
        let ghost recsv = spec_parse_stream(input@)->Ok_0;
        let mut out: Vec<Proof> = Vec::new();
        let mut i: usize = 0;
        while i < recs.len()
            invariant
                0 <= i <= recs@.len(),
                recs@.map_values(|x: Serialized| x@) == recsv,
                recsv == spec_parse_stream(input@)->Ok_0,
                spec_parse_stream(input@) is Ok,
                out@.len() == i,
                forall|j: int| 0 <= j < i ==> {
                    &&& (#[trigger] out@[j]).body@ == recsv[j].body
                    &&& out@[j].signature@ == recsv[j].signature
                    &&& out@[j].digest@ == blake2b256_of(recsv[j].body)
                    &&& parse_content(recsv[j].body, recsv[j].vtype) == Some(out@[j].content@)
                },
            decreases recs@.len() - i,
        {
            let rec = &recs[i];
            proof {
                assert(recs@.map_values(|x: Serialized| x@)[i as int] == recs@[i as int]@);
            }
            match rec.to_parsed() {
                Err(e) => {
                    proof {
                        assert(parse_content(recsv[i as int].body, recsv[i as int].vtype)
                            is None);
                    }
                    return Err(e);
                },
                Ok(p) => {
                    out.push(p);
                },
            }
            i = i + 1;
        }
        Ok(out)
    }
}

/// The name of the digest algorithm proofs are content-addressed with.
pub open spec fn spec_default_digest_type() -> Seq<u8> {
    seq![98u8, 108u8, 97u8, 107u8, 101u8, 50u8, 98u8]
}

/// The digest algorithm name written into proof records: `blake2b`.
pub fn default_digest_type() -> (r: Vec<u8>)
    ensures
        r@ == spec_default_digest_type(),
{
    let mut v: Vec<u8> = Vec::new();
    v.push(98);
    v.push(108);
    v.push(97);
    v.push(107);
    v.push(101);
    v.push(50);
    v.push(98);
    proof {
        assert(v@ =~= spec_default_digest_type());
    }
    v
}

/// The name of the revision system reviews refer to by default.
pub open spec fn spec_default_revision_type() -> Seq<u8> {
    seq![103u8, 105u8, 116u8]
}

/// The revision-system name reviews carry by default: `git`.
pub fn default_revision_type() -> (r: Vec<u8>)
    ensures
        r@ == spec_default_revision_type(),
{
    let mut v: Vec<u8> = Vec::new();
    v.push(103);
    v.push(105);
    v.push(116);
    proof {
        assert(v@ =~= spec_default_revision_type());
    }
    v
}

/// Scanning cares about the records already emitted only as a prefix:
/// running with extra records in front errs alike and ends with the same
/// state, those records still in front.
proof fn lemma_scan_records_prefix(st: ScanState, pre: Seq<RecordV>, b: Seq<u8>)
    ensures
        scan_lines(ScanState { records: pre + st.records, ..st }, b)
            == (match scan_lines(st, b) {
                Err(e) => Err::<ScanState, ParseError>(e),
                Ok(r) => Ok::<ScanState, ParseError>(ScanState { records: pre + r.records, ..r }),
            }),
    decreases b.len(),
{
    let stp = ScanState { records: pre + st.records, ..st };
    match take_line(b) {
        None => {
            assert(scan_lines(stp, b) == Ok::<ScanState, ParseError>(stp));
        },
        Some(p) => {
            lemma_take_line_shape(b);
            match scan_step(st, p.0) {
                Err(e) => {
                    assert(scan_step(stp, p.0) == Err::<ScanState, ParseError>(e));
                },
                Ok(st2) => {
                    let st2p = ScanState { records: pre + st2.records, ..st2 };
                    assert(scan_step(stp, p.0) is Ok);
                    assert(scan_step(stp, p.0)->Ok_0 =~= st2p) by {
                        if st.stage == Stage::InSignature && p.0 == end_block_marker(st.vtype) {
                            assert((pre + st.records).push(RecordV {
                                body: st.body,
                                signature: st.signature,
                                vtype: st.vtype,
                            }) =~= pre + st.records.push(RecordV {
                                body: st.body,
                                signature: st.signature,
                                vtype: st.vtype,
                            }));
                        }
                    }
                    lemma_scan_records_prefix(st2, pre, p.1);
                },
            }
        },
    }
}

/// From any state that is back between blocks, scanning behaves as from
/// the start: it fails alike, ends in the same stage, and appends the
/// same records after those already emitted.
proof fn lemma_scan_from_seeking(q: ScanState, b: Seq<u8>)
    requires
        q.stage == Stage::Seeking,
    ensures
        match scan_lines(init_scan_state(), b) {
            Err(e) => scan_lines(q, b) == Err::<ScanState, ParseError>(e),
            Ok(st) => scan_lines(q, b) is Ok
                && scan_lines(q, b)->Ok_0.stage == st.stage
                && scan_lines(q, b)->Ok_0.records == q.records + st.records,
        },
    decreases b.len(),
{
    match take_line(b) {
        None => {
            assert(q.records + Seq::<RecordV>::empty() =~= q.records);
        },
        Some(p) => {
            lemma_take_line_shape(b);
            if spec_is_blank(p.0) {
                lemma_scan_from_seeking(q, p.1);
            } else if p.0 == begin_block_marker(ProofType::Code)
                || p.0 == begin_block_marker(ProofType::Trust)
                || p.0 == begin_block_marker(ProofType::Project) {
                let st2 = scan_step(init_scan_state(), p.0)->Ok_0;
                assert(scan_step(q, p.0)->Ok_0 =~= ScanState { records: q.records
                    + st2.records, ..st2 }) by {
                    assert(q.records + Seq::<RecordV>::empty() =~= q.records);
                }
                lemma_scan_records_prefix(st2, q.records, p.1);
            } else {
            }
        },
    }
}

/// Scanning a line-terminated stream followed by more text first runs the
/// whole first stream, then goes on with the rest from the state reached.
proof fn lemma_scan_append(st: ScanState, a: Seq<u8>, b: Seq<u8>)
    requires
        a.len() == 0 || a.last() == 10,
        scan_lines(st, a) is Ok,
    ensures
        scan_lines(st, a + b) == scan_lines(scan_lines(st, a)->Ok_0, b),
    decreases a.len(),
{
    if a.len() == 0 {
        assert(a + b =~= b);
    } else {
        lemma_take_line_append(a, b);
        let p = take_line(a)->Some_0;
        lemma_take_line_shape(a);
        let st2 = scan_step(st, p.0)->Ok_0;
        assert(p.1.len() == 0 || p.1.last() == 10) by {
            if a == p.0 + seq![10u8] + p.1 {
                if p.1.len() > 0 {
                    assert(a.last() == p.1.last());
                }
            }
        }
        lemma_scan_append(st2, p.1, b);
    }
}

/// Multi-document streams compose: parsing a line-terminated, well-formed
/// stream followed by any other stream yields the records of the first
/// and then the outcome of the second, in input order.
pub proof fn lemma_streams_concatenate(a: Seq<u8>, b: Seq<u8>)
    requires
        a.len() == 0 || a.last() == 10,
        spec_parse_stream(a) is Ok,
    ensures
        spec_parse_stream(a + b) == (match spec_parse_stream(b) {
            Ok(recs) => Ok::<Seq<RecordV>, ParseError>(spec_parse_stream(a)->Ok_0 + recs),
            Err(e) => Err::<Seq<RecordV>, ParseError>(e),
        }),
{
    let sta = scan_lines(init_scan_state(), a)->Ok_0;
    lemma_scan_append(init_scan_state(), a, b);
    lemma_scan_from_seeking(sta, b);
}
} // verus!
