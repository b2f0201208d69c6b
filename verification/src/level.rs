//! Trust levels: an ordered scale used by trust statements and reviews.

use vstd::prelude::*;

verus! {

/// A level on the ordered scale `Zero < Low < Medium < High`.
/// `Zero` is the absence of the measured quality; it renders as `none`.
#[derive(Clone, Copy, Debug, PartialEq, Eq, Structural)]
pub enum Level {
    Zero,
    Low,
    Medium,
    High,
}

impl Level {
    /// The position of the level on the scale.
    pub open spec fn rank(self) -> int {
        match self {
            Level::Zero => 0,
            Level::Low => 1,
            Level::Medium => 2,
            Level::High => 3,
        }
    }

    /// Whether `self` is at most `other` on the scale.
    pub fn le(&self, other: &Level) -> (r: bool)
        ensures
            r == (self.rank() <= other.rank()),
    {
        self.rank_u8() <= other.rank_u8()
    }

    /// The rank as a machine integer.
    pub fn rank_u8(&self) -> (r: u8)
        ensures
            r as int == self.rank(),
    {
        match self {
            Level::Zero => 0,
            Level::Low => 1,
            Level::Medium => 2,
            Level::High => 3,
        }
    }
}

/// The canonical word of each level.
pub open spec fn level_word(l: Level) -> Seq<u8> {
    match l {
        Level::Zero => seq![110u8, 111u8, 110u8, 101u8],
        Level::Low => seq![108u8, 111u8, 119u8],
        Level::Medium => seq![109u8, 101u8, 100u8, 105u8, 117u8, 109u8],
        Level::High => seq![104u8, 105u8, 103u8, 104u8],
    }
}

/// Which level, if any, a word denotes.
pub open spec fn spec_parse_level(s: Seq<u8>) -> Option<Level> {
    if s == level_word(Level::Zero) {
        Some(Level::Zero)
    } else if s == level_word(Level::Low) {
        Some(Level::Low)
    } else if s == level_word(Level::Medium) {
        Some(Level::Medium)
    } else if s == level_word(Level::High) {
        Some(Level::High)
    } else {
        None
    }
}

/// Each level's word denotes that level again.
pub proof fn lemma_level_round_trip(l: Level)
    ensures
        spec_parse_level(level_word(l)) == Some(l),
{
    match l {
        Level::Zero => {},
        Level::Low => {
            assert(level_word(Level::Low).len() != level_word(Level::Zero).len());
        },
        Level::Medium => {
            assert(level_word(Level::Medium).len() != level_word(Level::Zero).len());
            assert(level_word(Level::Medium).len() != level_word(Level::Low).len());
        },
        Level::High => {
            assert(level_word(Level::High)[0] != level_word(Level::Zero)[0]);
            assert(level_word(Level::High).len() != level_word(Level::Low).len());
            assert(level_word(Level::High).len() != level_word(Level::Medium).len());
        },
    }
}

/// Appends the canonical word of `l`.
pub fn push_level(v: &mut Vec<u8>, l: &Level)
    ensures
        final(v)@ == old(v)@ + level_word(*l),
{
    match l {
        Level::Zero => {
            v.push(110); v.push(111); v.push(110); v.push(101);
            proof { assert(v@ =~= old(v)@ + level_word(Level::Zero)); }
        },
        Level::Low => {
            v.push(108); v.push(111); v.push(119);
            proof { assert(v@ =~= old(v)@ + level_word(Level::Low)); }
        },
        Level::Medium => {
            v.push(109); v.push(101); v.push(100); v.push(105); v.push(117); v.push(109);
            proof { assert(v@ =~= old(v)@ + level_word(Level::Medium)); }
        },
        Level::High => {
            v.push(104); v.push(105); v.push(103); v.push(104);
            proof { assert(v@ =~= old(v)@ + level_word(Level::High)); }
        },
    }
}

/// Parses a level word.
pub fn parse_level(s: &[u8]) -> (r: Option<Level>)
    ensures
        r == spec_parse_level(s@),
{
    let mut w: Vec<u8> = Vec::new();
    push_level(&mut w, &Level::Zero);
    if crate::lines::bytes_eq(s, w.as_slice()) {
        return Some(Level::Zero);
    }
    let mut w: Vec<u8> = Vec::new();
    push_level(&mut w, &Level::Low);
    if crate::lines::bytes_eq(s, w.as_slice()) {
        return Some(Level::Low);
    }
    let mut w: Vec<u8> = Vec::new();
    push_level(&mut w, &Level::Medium);
    if crate::lines::bytes_eq(s, w.as_slice()) {
        return Some(Level::Medium);
    }
    let mut w: Vec<u8> = Vec::new();
    push_level(&mut w, &Level::High);
    if crate::lines::bytes_eq(s, w.as_slice()) {
        return Some(Level::High);
    }
    None
}

} // verus!
