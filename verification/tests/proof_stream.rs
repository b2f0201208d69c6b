use crev_core::content::Content;
use crev_core::datetime::DateTime;
use crev_core::errors::ParseError;
use crev_core::id::OwnId;
use crev_core::level::Level;
use crev_core::proofs::{parse_stream, Proof, ProofType};

fn test_date() -> DateTime {
    DateTime {
        year: 2021,
        month: 5,
        day: 6,
        hour: 7,
        minute: 8,
        second: 9,
        offset_negative: false,
        offset_hours: 1,
        offset_minutes: 30,
    }
}

fn test_id(seed_byte: u8) -> OwnId {
    OwnId::new(Some(b"https://example.com/a".to_vec()), vec![seed_byte; 32]).unwrap()
}

fn trust_content(own: &OwnId) -> Content {
    Content::Trust(crev_core::content::Trust {
        date: test_date(),
        from: own.id.duplicate(),
        ids: vec![vec![7u8; 32]],
        trust: Level::Medium,
        distrust: Level::Zero,
        comment: b"a careful maintainer".to_vec(),
    })
}

fn code_content(own: &OwnId) -> Content {
    Content::Code(crev_core::content::Review {
        date: test_date(),
        from: own.id.duplicate(),
        project: b"project-a".to_vec(),
        revision: b"abc123".to_vec(),
        thoroughness: Level::Low,
        understanding: Level::High,
        trust: Level::Medium,
        comment: b"looked at the parser".to_vec(),
    })
}

#[test]
fn two_blocks_of_differing_variants_yield_two_records_in_order() {
    let own = test_id(1);
    let p1 = trust_content(&own).sign_by(&own);
    let p2 = code_content(&own).sign_by(&own);
    let mut stream = p1.render();
    stream.extend_from_slice(&p2.render());
    let proofs = Proof::parse(&stream).unwrap();
    assert_eq!(proofs.len(), 2);
    assert!(matches!(proofs[0].content, Content::Trust(_)));
    assert!(matches!(proofs[1].content, Content::Code(_)));
    assert_eq!(proofs[0].body, p1.body);
    assert_eq!(proofs[1].body, p2.body);
}

#[test]
fn blank_lines_between_blocks_are_skipped() {
    let own = test_id(2);
    let p1 = trust_content(&own).sign_by(&own);
    let mut stream = b"\n  \t\r\n".to_vec();
    stream.extend_from_slice(&p1.render());
    stream.extend_from_slice(b"\n\n");
    let proofs = Proof::parse(&stream).unwrap();
    assert_eq!(proofs.len(), 1);
}

#[test]
fn truncation_mid_body_fails_with_unexpected_eof() {
    let stream = b"-----BEGIN TRUST PROOF-----\nsome body line\n".to_vec();
    assert_eq!(parse_stream(&stream).unwrap_err(), ParseError::UnexpectedEof);
}

#[test]
fn truncation_mid_signature_fails_with_unexpected_eof() {
    let stream = b"-----BEGIN TRUST PROOF-----\nbody\n-----BEGIN TRUST PROOF SIGNATURE-----\nAAAA\n"
        .to_vec();
    assert_eq!(parse_stream(&stream).unwrap_err(), ParseError::UnexpectedEof);
}

#[test]
fn a_non_marker_line_outside_a_block_fails_with_unexpected_line() {
    let stream = b"what is this\n".to_vec();
    assert_eq!(parse_stream(&stream).unwrap_err(), ParseError::UnexpectedLine);
}

#[test]
fn a_body_over_sixteen_thousand_bytes_fails_with_body_too_large() {
    let mut stream = b"-----BEGIN TRUST PROOF-----\n".to_vec();
    for _ in 0..170 {
        stream.extend_from_slice(&[b'x'; 99]);
        stream.push(b'\n');
    }
    assert_eq!(parse_stream(&stream).unwrap_err(), ParseError::BodyTooLarge);
}

#[test]
fn a_body_under_the_cap_passes_the_body_stage() {
    let mut stream = b"-----BEGIN TRUST PROOF-----\n".to_vec();
    for _ in 0..60 {
        stream.extend_from_slice(&[b'x'; 99]);
        stream.push(b'\n');
    }
    // The body stage is fine; the stream just ends inside the block.
    assert_eq!(parse_stream(&stream).unwrap_err(), ParseError::UnexpectedEof);
}

#[test]
fn a_signature_over_two_thousand_bytes_fails_with_signature_too_large() {
    let mut stream =
        b"-----BEGIN TRUST PROOF-----\nbody\n-----BEGIN TRUST PROOF SIGNATURE-----\n".to_vec();
    for _ in 0..30 {
        stream.extend_from_slice(&[b'y'; 99]);
        stream.push(b'\n');
    }
    assert_eq!(parse_stream(&stream).unwrap_err(), ParseError::SignatureTooLarge);
}

#[test]
fn a_record_with_a_malformed_body_reports_its_variant() {
    let stream =
        b"-----BEGIN TRUST PROOF-----\nnot a field\n-----BEGIN TRUST PROOF SIGNATURE-----\nAAAA\n-----END TRUST PROOF-----\n"
            .to_vec();
    assert_eq!(parse_stream(&stream).unwrap().len(), 1);
    assert_eq!(
        Proof::parse(&stream).unwrap_err(),
        ParseError::MalformedContent(ProofType::Trust)
    );
}

#[test]
fn an_error_drops_records_emitted_before_it() {
    let own = test_id(9);
    let good = trust_content(&own).sign_by(&own);
    let mut stream = good.render();
    stream.extend_from_slice(b"garbage after a good block\n");
    // The whole scan fails; the first, well-formed block is not surfaced.
    assert_eq!(parse_stream(&stream).unwrap_err(), ParseError::UnexpectedLine);
}
