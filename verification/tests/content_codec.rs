use crev_core::content::{Content, Review, Trust};
use crev_core::datetime::DateTime;
use crev_core::errors::ParseError;
use crev_core::id::{OwnId, PubId};
use crev_core::level::Level;
use crev_core::proofs::ProofType;

fn test_date() -> DateTime {
    DateTime {
        year: 2021,
        month: 5,
        day: 6,
        hour: 7,
        minute: 8,
        second: 9,
        offset_negative: false,
        offset_hours: 1,
        offset_minutes: 30,
    }
}

fn test_id(seed_byte: u8) -> OwnId {
    OwnId::new(Some(b"https://example.com/a".to_vec()), vec![seed_byte; 32]).unwrap()
}

#[test]
fn trust_render_parse_round_trip() {
    let own = test_id(3);
    let t = Trust {
        date: test_date(),
        from: own.id.duplicate(),
        ids: vec![vec![7u8; 32], vec![9u8; 32]],
        trust: Level::High,
        distrust: Level::Zero,
        comment: b"two friends".to_vec(),
    };
    let body = t.render();
    let back = Content::parse(&body, ProofType::Trust).unwrap();
    match back {
        Content::Trust(t2) => {
            assert_eq!(t2.date, t.date);
            assert_eq!(t2.from.id, t.from.id);
            assert_eq!(t2.from.url, t.from.url);
            assert_eq!(t2.ids, t.ids);
            assert_eq!(t2.trust, t.trust);
            assert_eq!(t2.distrust, t.distrust);
            assert_eq!(t2.comment, t.comment);
        },
        _ => panic!("wrong variant"),
    }
}

#[test]
fn review_render_parse_round_trip_without_url() {
    let mut own = test_id(4);
    own.id.url = None;
    let r = Review {
        date: test_date(),
        from: own.id.duplicate(),
        project: b"project-b".to_vec(),
        revision: b"deadbeef".to_vec(),
        thoroughness: Level::Medium,
        understanding: Level::Low,
        trust: Level::Zero,
        comment: b"".to_vec(),
    };
    let body = r.render();
    let back = Content::parse(&body, ProofType::Project).unwrap();
    match back {
        Content::Project(r2) => {
            assert_eq!(r2.from.url, None);
            assert_eq!(r2.project, r.project);
            assert_eq!(r2.revision, r.revision);
            assert_eq!(r2.comment, r.comment);
        },
        _ => panic!("wrong variant"),
    }
}

#[test]
fn the_rendered_date_line_is_exact() {
    let own = test_id(5);
    let t = Trust {
        date: test_date(),
        from: own.id.duplicate(),
        ids: vec![],
        trust: Level::Low,
        distrust: Level::Zero,
        comment: b"c".to_vec(),
    };
    let body = t.render();
    let text = String::from_utf8(body).unwrap();
    let first = text.lines().next().unwrap();
    assert_eq!(first, "date: 2021-05-06T07:08:09+01:30");
    assert!(text.contains("trust: low\n"));
    assert!(text.contains("distrust: none\n"));
    assert!(text.contains("comment: c\n"));
}

#[test]
fn rendering_is_deterministic_for_equal_contents() {
    let own = test_id(6);
    let make = || Trust {
        date: test_date(),
        from: own.id.duplicate(),
        ids: vec![vec![1u8; 32]],
        trust: Level::Medium,
        distrust: Level::Low,
        comment: b"same".to_vec(),
    };
    assert_eq!(make().render(), make().render());
}

#[test]
fn a_body_missing_a_field_is_malformed() {
    let r = Content::parse(b"date: 2021-05-06T07:08:09+01:30\n", ProofType::Trust);
    assert_eq!(r.unwrap_err(), ParseError::MalformedContent(ProofType::Trust));
}

#[test]
fn draft_round_trip_fills_date_and_author() {
    let own = test_id(7);
    let t = Trust {
        date: test_date(),
        from: own.id.duplicate(),
        ids: vec![vec![8u8; 32]],
        trust: Level::High,
        distrust: Level::Zero,
        comment: b"drafted".to_vec(),
    };
    let content = Content::Trust(t);
    let draft = content.to_draft_string();
    let other = PubId::new(vec![5u8; 32], None);
    let newdate = DateTime {
        year: 2022,
        month: 1,
        day: 2,
        hour: 3,
        minute: 4,
        second: 5,
        offset_negative: true,
        offset_hours: 2,
        offset_minutes: 0,
    };
    let back = Content::parse_draft(&draft, ProofType::Trust, newdate, &other).unwrap();
    match back {
        Content::Trust(t2) => {
            assert_eq!(t2.date, newdate);
            assert_eq!(t2.from.id, vec![5u8; 32]);
            assert_eq!(t2.from.url, None);
            assert_eq!(t2.ids, vec![vec![8u8; 32]]);
            assert_eq!(t2.comment, b"drafted".to_vec());
        },
        _ => panic!("wrong variant"),
    }
}

#[test]
fn content_accessors_are_total_over_variants() {
    let own = test_id(8);
    let t = Content::Trust(Trust {
        date: test_date(),
        from: own.id.duplicate(),
        ids: vec![],
        trust: Level::Zero,
        distrust: Level::Zero,
        comment: b"x".to_vec(),
    });
    assert_eq!(t.date(), test_date());
    assert_eq!(t.author_id(), own.id.id);
    assert_eq!(t.author_url(), Some(b"https://example.com/a".to_vec()));
    assert!(matches!(t.proof_type(), ProofType::Trust));
}

#[test]
fn levels_are_ordered() {
    assert!(Level::Zero.le(&Level::Low));
    assert!(Level::Low.le(&Level::Medium));
    assert!(Level::Medium.le(&Level::High));
    assert!(Level::Medium.le(&Level::Medium));
    assert!(!Level::High.le(&Level::Medium));
    assert!(!Level::Low.le(&Level::Zero));
}
