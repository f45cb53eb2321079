//! Sequences of symbols, each drawn from one alphabet.
use vstd::prelude::*;
use crate::alphabet::{Alphabet, AminoAcid, NucleicAcid, NucleicAcidEx};

verus! {

/// Which of the three alphabets a sequence or a file uses.
#[derive(Clone, Copy, Debug, PartialEq, Eq, Structural)]
pub enum SequenceType {
    NucleicAcid,
    NucleicAcidEx,
    AminoAcid,
}

impl SequenceType {
    pub open spec fn spec_width(self) -> nat {
        match self {
            SequenceType::NucleicAcid => NucleicAcid::bit_width(),
            SequenceType::NucleicAcidEx => NucleicAcidEx::bit_width(),
            SequenceType::AminoAcid => AminoAcid::bit_width(),
        }
    }

    /// The two-bit tag of the alphabet in a file header.
    pub open spec fn spec_id(self) -> u8 {
        match self {
            SequenceType::NucleicAcid => 0,
            SequenceType::NucleicAcidEx => 1,
            SequenceType::AminoAcid => 2,
        }
    }

    /// The alphabet whose tag is `id`, if any.
    pub open spec fn of_id(id: u8) -> Option<SequenceType> {
        match id {
            0 => Some(SequenceType::NucleicAcid),
            1 => Some(SequenceType::NucleicAcidEx),
            2 => Some(SequenceType::AminoAcid),
            _ => None,
        }
    }

    /// The number of bits a symbol of this alphabet takes.
    pub fn width(self) -> (r: usize)
        ensures
            r == self.spec_width(),
            1 <= r <= 8,
    {
        match self {
            SequenceType::NucleicAcid => NucleicAcid::width(),
            SequenceType::NucleicAcidEx => NucleicAcidEx::width(),
            SequenceType::AminoAcid => AminoAcid::width(),
        }
    }

    pub fn id(self) -> (r: u8)
        ensures
            r == self.spec_id(),
    {
        match self {
            SequenceType::NucleicAcid => 0,
            SequenceType::NucleicAcidEx => 1,
            SequenceType::AminoAcid => 2,
        }
    }

    /// The alphabet whose tag is `id`, or `id` itself as the error.
    pub fn from_id(id: u8) -> (r: Result<SequenceType, u8>)
        ensures
            r == (match Self::of_id(id) {
                Some(t) => Ok(t),
                None => Err(id),
            }),
    {
        match id {
            0 => Ok(SequenceType::NucleicAcid),
            1 => Ok(SequenceType::NucleicAcidEx),
            2 => Ok(SequenceType::AminoAcid),
            _ => Err(id),
        }
    }
}

/// The symbols of one sequence, tagged with their alphabet.
#[derive(Clone, Debug, PartialEq, Eq)]
pub enum Sequence {
    NucleicAcid(Vec<NucleicAcid>),
    NucleicAcidEx(Vec<NucleicAcidEx>),
    AminoAcid(Vec<AminoAcid>),
}

/// A sequence as a mathematical value.
pub enum SequenceView {
    NucleicAcid(Seq<NucleicAcid>),
    NucleicAcidEx(Seq<NucleicAcidEx>),
    AminoAcid(Seq<AminoAcid>),
}

impl SequenceView {
    pub open spec fn kind(self) -> SequenceType {
        match self {
            SequenceView::NucleicAcid(_) => SequenceType::NucleicAcid,
            SequenceView::NucleicAcidEx(_) => SequenceType::NucleicAcidEx,
            SequenceView::AminoAcid(_) => SequenceType::AminoAcid,
        }
    }

    pub open spec fn len(self) -> nat {
        match self {
            SequenceView::NucleicAcid(s) => s.len(),
            SequenceView::NucleicAcidEx(s) => s.len(),
            SequenceView::AminoAcid(s) => s.len(),
        }
    }
}

impl View for Sequence {
    type V = SequenceView;

    open spec fn view(&self) -> SequenceView {
        match self {
            Sequence::NucleicAcid(v) => SequenceView::NucleicAcid(v@),
            Sequence::NucleicAcidEx(v) => SequenceView::NucleicAcidEx(v@),
            Sequence::AminoAcid(v) => SequenceView::AminoAcid(v@),
        }
    }
}

#[allow(non_snake_case)]
impl Sequence {
    pub fn from_NA(vec: Vec<NucleicAcid>) -> (r: Self)
        ensures
            r@ == SequenceView::NucleicAcid(vec@),
    {
        Sequence::NucleicAcid(vec)
    }

    pub fn from_NX(vec: Vec<NucleicAcidEx>) -> (r: Self)
        ensures
            r@ == SequenceView::NucleicAcidEx(vec@),
    {
        Sequence::NucleicAcidEx(vec)
    }

    pub fn from_AA(vec: Vec<AminoAcid>) -> (r: Self)
        ensures
            r@ == SequenceView::AminoAcid(vec@),
    {
        Sequence::AminoAcid(vec)
    }

    pub fn new_NA() -> (r: Self)
        ensures
            r@ == SequenceView::NucleicAcid(Seq::empty()),
    {
        Sequence::NucleicAcid(Vec::new())
    }

    pub fn new_NX() -> (r: Self)
        ensures
            r@ == SequenceView::NucleicAcidEx(Seq::empty()),
    {
        Sequence::NucleicAcidEx(Vec::new())
    }

    pub fn new_AA() -> (r: Self)
        ensures
            r@ == SequenceView::AminoAcid(Seq::empty()),
    {
        Sequence::AminoAcid(Vec::new())
    }

    /// The alphabet of the symbols.
    pub fn kind(&self) -> (r: SequenceType)
        ensures
            r == self@.kind(),
    {
        match self {
            Sequence::NucleicAcid(_) => SequenceType::NucleicAcid,
            Sequence::NucleicAcidEx(_) => SequenceType::NucleicAcidEx,
            Sequence::AminoAcid(_) => SequenceType::AminoAcid,
        }
    }

    pub fn len(&self) -> (r: usize)
        ensures
            r == self@.len(),
    {
        match self {
            Sequence::NucleicAcid(vec) => vec.len(),
            Sequence::NucleicAcidEx(vec) => vec.len(),
            Sequence::AminoAcid(vec) => vec.len(),
        }
    }
}

} // verus!
