//! The three symbol alphabets and their numeric codes.
//!
//! Every alphabet maps each symbol to a distinct code below `2^width`; codes
//! that no symbol owns are rejected when read back. Characters are matched
//! without regard to case.
use vstd::prelude::*;

verus! {

/// What every alphabet offers: a bit width, a total map from symbols to codes
/// with a partial inverse, and a partial map from characters to symbols.
pub trait Alphabet: Sized + Copy {
    /// The number of bits a code takes.
    spec fn bit_width() -> nat;

    /// The code of a symbol.
    spec fn code(self) -> u8;

    /// The symbol that owns `code`, if any.
    spec fn of_code(code: u8) -> Option<Self>;

    /// The symbol that `c` stands for, if any.
    spec fn of_char(c: char) -> Option<Self>;

    fn width() -> (r: usize)
        ensures
            r == Self::bit_width(),
            1 <= r <= 8,
    ;

    fn to_code(self) -> (r: u8)
        ensures
            r == self.code(),
    ;

    /// The symbol that owns `code`, or `code` itself as the error.
    fn from_code(code: u8) -> (r: Result<Self, u8>)
        ensures
            r == (match Self::of_code(code) {
                Some(s) => Ok(s),
                None => Err(code),
            }),
    ;

    /// The symbol that `c` stands for, or `c` itself as the error.
    fn from_char(c: char) -> (r: Result<Self, char>)
        ensures
            r == (match Self::of_char(c) {
                Some(s) => Ok(s),
                None => Err(c),
            }),
    ;

    /// A symbol's code fits its width and leads back to the symbol.
    proof fn lemma_code_inverse(s: Self)
        ensures
            Self::of_code(s.code()) == Some(s),
            (s.code() as u16) < (1u16 << (Self::bit_width() as u16)),
    ;

    /// A code that is read back as a symbol is that symbol's code.
    proof fn lemma_of_code_sound(code: u8)
        ensures
            Self::of_code(code) matches Some(s) ==> s.code() == code,
    ;
}

/// Reading a symbol's code back gives the symbol.
pub proof fn lemma_code_round_trip<S: Alphabet>(s: S)
    ensures
        S::of_code(s.code()) == Some(s),
{
    S::lemma_code_inverse(s);
}

/// A code is rejected exactly when no symbol of the alphabet has it.
pub proof fn lemma_unassigned_code_rejected<S: Alphabet>(code: u8)
    ensures
        S::of_code(code) is None <==> forall|s: S| #[trigger] s.code() != code,
{
    S::lemma_of_code_sound(code);
    if S::of_code(code) is None {
        assert forall|s: S| #[trigger] s.code() != code by {
            S::lemma_code_inverse(s);
        }
    }
}

/// The four nucleic-acid bases, two bits each.
#[derive(Clone, Copy, Debug, PartialEq, Eq, Structural)]
pub enum NucleicAcid {
    Adenine,
    Cytosine,
    Guanine,
    ThymineUracil,
}

impl Alphabet for NucleicAcid {
    open spec fn bit_width() -> nat {
        2
    }

    open spec fn code(self) -> u8 {
        match self {
            NucleicAcid::Adenine => 0b00,
            NucleicAcid::Cytosine => 0b01,
            NucleicAcid::Guanine => 0b10,
            NucleicAcid::ThymineUracil => 0b11,
        }
    }

    open spec fn of_code(code: u8) -> Option<Self> {
        match code {
            0b00 => Some(NucleicAcid::Adenine),
            0b01 => Some(NucleicAcid::Cytosine),
            0b10 => Some(NucleicAcid::Guanine),
            0b11 => Some(NucleicAcid::ThymineUracil),
            _ => None,
        }
    }

    open spec fn of_char(c: char) -> Option<Self> {
        match c {
            'a' | 'A' => Some(NucleicAcid::Adenine),
            'c' | 'C' => Some(NucleicAcid::Cytosine),
            'g' | 'G' => Some(NucleicAcid::Guanine),
            't' | 'T' | 'u' | 'U' => Some(NucleicAcid::ThymineUracil),
            _ => None,
        }
    }

    fn width() -> (r: usize) {
        2
    }

    fn to_code(self) -> (r: u8) {
        match self {
            NucleicAcid::Adenine => 0b00,
            NucleicAcid::Cytosine => 0b01,
            NucleicAcid::Guanine => 0b10,
            NucleicAcid::ThymineUracil => 0b11,
        }
    }

    fn from_code(code: u8) -> (r: Result<Self, u8>) {
        match code {
            0b00 => Ok(NucleicAcid::Adenine),
            0b01 => Ok(NucleicAcid::Cytosine),
            0b10 => Ok(NucleicAcid::Guanine),
            0b11 => Ok(NucleicAcid::ThymineUracil),
            _ => Err(code),
        }
    }

    fn from_char(c: char) -> (r: Result<Self, char>) {
        match c {
            'a' | 'A' => Ok(NucleicAcid::Adenine),
            'c' | 'C' => Ok(NucleicAcid::Cytosine),
            'g' | 'G' => Ok(NucleicAcid::Guanine),
            't' | 'T' | 'u' | 'U' => Ok(NucleicAcid::ThymineUracil),
            _ => Err(c),
        }
    }

    proof fn lemma_code_inverse(s: Self) {
        assert((1u16 << 2u16) == 4u16) by (bit_vector);
    }

    proof fn lemma_of_code_sound(code: u8) {
    }
}

/// The sixteen IUPAC nucleic-acid codes, ambiguity codes and the gap included, four bits each.
#[derive(Clone, Copy, Debug, PartialEq, Eq, Structural)]
pub enum NucleicAcidEx {
    Adenine,
    Cytosine,
    Guanine,
    ThymineUracil,
    Purine,
    Pyrimidine,
    Ketone,
    AminoGroup,
    StrongInteraction,
    WeakInteraction,
    NotA,
    NotC,
    NotG,
    NotTU,
    AnyBase,
    Gap,
}

impl Alphabet for NucleicAcidEx {
    open spec fn bit_width() -> nat {
        4
    }

    open spec fn code(self) -> u8 {
        match self {
            NucleicAcidEx::Adenine => 0b0001,
            NucleicAcidEx::Cytosine => 0b0010,
            NucleicAcidEx::Guanine => 0b0100,
            NucleicAcidEx::ThymineUracil => 0b1000,
            NucleicAcidEx::Purine => 0b0101,
            NucleicAcidEx::Pyrimidine => 0b1010,
            NucleicAcidEx::Ketone => 0b1100,
            NucleicAcidEx::AminoGroup => 0b0011,
            NucleicAcidEx::StrongInteraction => 0b0110,
            NucleicAcidEx::WeakInteraction => 0b1001,
            NucleicAcidEx::NotA => 0b1110,
            NucleicAcidEx::NotC => 0b1101,
            NucleicAcidEx::NotG => 0b1011,
            NucleicAcidEx::NotTU => 0b0111,
            NucleicAcidEx::AnyBase => 0b1111,
            NucleicAcidEx::Gap => 0b0000,
        }
    }

    open spec fn of_code(code: u8) -> Option<Self> {
        match code {
            0b0001 => Some(NucleicAcidEx::Adenine),
            0b0010 => Some(NucleicAcidEx::Cytosine),
            0b0100 => Some(NucleicAcidEx::Guanine),
            0b1000 => Some(NucleicAcidEx::ThymineUracil),
            0b0101 => Some(NucleicAcidEx::Purine),
            0b1010 => Some(NucleicAcidEx::Pyrimidine),
            0b1100 => Some(NucleicAcidEx::Ketone),
            0b0011 => Some(NucleicAcidEx::AminoGroup),
            0b0110 => Some(NucleicAcidEx::StrongInteraction),
            0b1001 => Some(NucleicAcidEx::WeakInteraction),
            0b1110 => Some(NucleicAcidEx::NotA),
            0b1101 => Some(NucleicAcidEx::NotC),
            0b1011 => Some(NucleicAcidEx::NotG),
            0b0111 => Some(NucleicAcidEx::NotTU),
            0b1111 => Some(NucleicAcidEx::AnyBase),
            0b0000 => Some(NucleicAcidEx::Gap),
            _ => None,
        }
    }

    open spec fn of_char(c: char) -> Option<Self> {
        match c {
            'a' | 'A' => Some(NucleicAcidEx::Adenine),
            'c' | 'C' => Some(NucleicAcidEx::Cytosine),
            'g' | 'G' => Some(NucleicAcidEx::Guanine),
            't' | 'T' | 'u' | 'U' => Some(NucleicAcidEx::ThymineUracil),
            'r' | 'R' => Some(NucleicAcidEx::Purine),
            'y' | 'Y' => Some(NucleicAcidEx::Pyrimidine),
            'k' | 'K' => Some(NucleicAcidEx::Ketone),
            'm' | 'M' => Some(NucleicAcidEx::AminoGroup),
            's' | 'S' => Some(NucleicAcidEx::StrongInteraction),
            'w' | 'W' => Some(NucleicAcidEx::WeakInteraction),
            'b' | 'B' => Some(NucleicAcidEx::NotA),
            'd' | 'D' => Some(NucleicAcidEx::NotC),
            'h' | 'H' => Some(NucleicAcidEx::NotG),
            'v' | 'V' => Some(NucleicAcidEx::NotTU),
            'n' | 'N' => Some(NucleicAcidEx::AnyBase),
            '-' => Some(NucleicAcidEx::Gap),
            _ => None,
        }
    }

    fn width() -> (r: usize) {
        4
    }

    fn to_code(self) -> (r: u8) {
        match self {
            NucleicAcidEx::Adenine => 0b0001,
            NucleicAcidEx::Cytosine => 0b0010,
            NucleicAcidEx::Guanine => 0b0100,
            NucleicAcidEx::ThymineUracil => 0b1000,
            NucleicAcidEx::Purine => 0b0101,
            NucleicAcidEx::Pyrimidine => 0b1010,
            NucleicAcidEx::Ketone => 0b1100,
            NucleicAcidEx::AminoGroup => 0b0011,
            NucleicAcidEx::StrongInteraction => 0b0110,
            NucleicAcidEx::WeakInteraction => 0b1001,
            NucleicAcidEx::NotA => 0b1110,
            NucleicAcidEx::NotC => 0b1101,
            NucleicAcidEx::NotG => 0b1011,
            NucleicAcidEx::NotTU => 0b0111,
            NucleicAcidEx::AnyBase => 0b1111,
            NucleicAcidEx::Gap => 0b0000,
        }
    }

    fn from_code(code: u8) -> (r: Result<Self, u8>) {
        match code {
            0b0001 => Ok(NucleicAcidEx::Adenine),
            0b0010 => Ok(NucleicAcidEx::Cytosine),
            0b0100 => Ok(NucleicAcidEx::Guanine),
            0b1000 => Ok(NucleicAcidEx::ThymineUracil),
            0b0101 => Ok(NucleicAcidEx::Purine),
            0b1010 => Ok(NucleicAcidEx::Pyrimidine),
            0b1100 => Ok(NucleicAcidEx::Ketone),
            0b0011 => Ok(NucleicAcidEx::AminoGroup),
            0b0110 => Ok(NucleicAcidEx::StrongInteraction),
            0b1001 => Ok(NucleicAcidEx::WeakInteraction),
            0b1110 => Ok(NucleicAcidEx::NotA),
            0b1101 => Ok(NucleicAcidEx::NotC),
            0b1011 => Ok(NucleicAcidEx::NotG),
            0b0111 => Ok(NucleicAcidEx::NotTU),
            0b1111 => Ok(NucleicAcidEx::AnyBase),
            0b0000 => Ok(NucleicAcidEx::Gap),
            _ => Err(code),
        }
    }

    fn from_char(c: char) -> (r: Result<Self, char>) {
        match c {
            'a' | 'A' => Ok(NucleicAcidEx::Adenine),
            'c' | 'C' => Ok(NucleicAcidEx::Cytosine),
            'g' | 'G' => Ok(NucleicAcidEx::Guanine),
            't' | 'T' | 'u' | 'U' => Ok(NucleicAcidEx::ThymineUracil),
            'r' | 'R' => Ok(NucleicAcidEx::Purine),
            'y' | 'Y' => Ok(NucleicAcidEx::Pyrimidine),
            'k' | 'K' => Ok(NucleicAcidEx::Ketone),
            'm' | 'M' => Ok(NucleicAcidEx::AminoGroup),
            's' | 'S' => Ok(NucleicAcidEx::StrongInteraction),
            'w' | 'W' => Ok(NucleicAcidEx::WeakInteraction),
            'b' | 'B' => Ok(NucleicAcidEx::NotA),
            'd' | 'D' => Ok(NucleicAcidEx::NotC),
            'h' | 'H' => Ok(NucleicAcidEx::NotG),
            'v' | 'V' => Ok(NucleicAcidEx::NotTU),
            'n' | 'N' => Ok(NucleicAcidEx::AnyBase),
            '-' => Ok(NucleicAcidEx::Gap),
            _ => Err(c),
        }
    }

    proof fn lemma_code_inverse(s: Self) {
        assert((1u16 << 4u16) == 16u16) by (bit_vector);
    }

    proof fn lemma_of_code_sound(code: u8) {
    }
}

/// The amino-acid codes: twenty residues, the rarer ones, ambiguity codes, any, stop and gap; five bits each.
#[derive(Clone, Copy, Debug, PartialEq, Eq, Structural)]
pub enum AminoAcid {
    Alanine,
    AsxOrAsn,
    Cysteine,
    AsparticAcid,
    GlutamicAcid,
    Phenylalanine,
    Glycine,
    Histidine,
    Isoleucine,
    IleOrLeu,
    Lysine,
    Leucine,
    Methionine,
    Asparagine,
    Pyrrolysine,
    Proline,
    Glutamine,
    Arginine,
    Serine,
    Threonine,
    Selenocysteine,
    Valine,
    Tryptophan,
    Tyrosine,
    GluOrGln,
    Any,
    Stop,
    Gap,
}

impl Alphabet for AminoAcid {
    open spec fn bit_width() -> nat {
        5
    }

    open spec fn code(self) -> u8 {
        match self {
            AminoAcid::Alanine => 0b00000,
            AminoAcid::AsxOrAsn => 0b00001,
            AminoAcid::Cysteine => 0b00010,
            AminoAcid::AsparticAcid => 0b00011,
            AminoAcid::GlutamicAcid => 0b00100,
            AminoAcid::Phenylalanine => 0b00101,
            AminoAcid::Glycine => 0b00110,
            AminoAcid::Histidine => 0b00111,
            AminoAcid::Isoleucine => 0b01000,
            AminoAcid::IleOrLeu => 0b01001,
            AminoAcid::Lysine => 0b01010,
            AminoAcid::Leucine => 0b01011,
            AminoAcid::Methionine => 0b01100,
            AminoAcid::Asparagine => 0b01101,
            AminoAcid::Pyrrolysine => 0b01110,
            AminoAcid::Proline => 0b01111,
            AminoAcid::Glutamine => 0b10000,
            AminoAcid::Arginine => 0b10001,
            AminoAcid::Serine => 0b10010,
            AminoAcid::Threonine => 0b10011,
            AminoAcid::Selenocysteine => 0b10100,
            AminoAcid::Valine => 0b10101,
            AminoAcid::Tryptophan => 0b10110,
            AminoAcid::Tyrosine => 0b10111,
            AminoAcid::GluOrGln => 0b11000,
            AminoAcid::Any => 0b11001,
            AminoAcid::Stop => 0b11010,
            AminoAcid::Gap => 0b11011,
        }
    }

    open spec fn of_code(code: u8) -> Option<Self> {
        match code {
            0b00000 => Some(AminoAcid::Alanine),
            0b00001 => Some(AminoAcid::AsxOrAsn),
            0b00010 => Some(AminoAcid::Cysteine),
            0b00011 => Some(AminoAcid::AsparticAcid),
            0b00100 => Some(AminoAcid::GlutamicAcid),
            0b00101 => Some(AminoAcid::Phenylalanine),
            0b00110 => Some(AminoAcid::Glycine),
            0b00111 => Some(AminoAcid::Histidine),
            0b01000 => Some(AminoAcid::Isoleucine),
            0b01001 => Some(AminoAcid::IleOrLeu),
            0b01010 => Some(AminoAcid::Lysine),
            0b01011 => Some(AminoAcid::Leucine),
            0b01100 => Some(AminoAcid::Methionine),
            0b01101 => Some(AminoAcid::Asparagine),
            0b01110 => Some(AminoAcid::Pyrrolysine),
            0b01111 => Some(AminoAcid::Proline),
            0b10000 => Some(AminoAcid::Glutamine),
            0b10001 => Some(AminoAcid::Arginine),
            0b10010 => Some(AminoAcid::Serine),
            0b10011 => Some(AminoAcid::Threonine),
            0b10100 => Some(AminoAcid::Selenocysteine),
            0b10101 => Some(AminoAcid::Valine),
            0b10110 => Some(AminoAcid::Tryptophan),
            0b10111 => Some(AminoAcid::Tyrosine),
            0b11000 => Some(AminoAcid::GluOrGln),
            0b11001 => Some(AminoAcid::Any),
            0b11010 => Some(AminoAcid::Stop),
            0b11011 => Some(AminoAcid::Gap),
            _ => None,
        }
    }

    open spec fn of_char(c: char) -> Option<Self> {
        match c {
            'a' | 'A' => Some(AminoAcid::Alanine),
            'b' | 'B' => Some(AminoAcid::AsxOrAsn),
            'c' | 'C' => Some(AminoAcid::Cysteine),
            'd' | 'D' => Some(AminoAcid::AsparticAcid),
            'e' | 'E' => Some(AminoAcid::GlutamicAcid),
            'f' | 'F' => Some(AminoAcid::Phenylalanine),
            'g' | 'G' => Some(AminoAcid::Glycine),
            'h' | 'H' => Some(AminoAcid::Histidine),
            'i' | 'I' => Some(AminoAcid::Isoleucine),
            'j' | 'J' => Some(AminoAcid::IleOrLeu),
            'k' | 'K' => Some(AminoAcid::Lysine),
            'l' | 'L' => Some(AminoAcid::Leucine),
            'm' | 'M' => Some(AminoAcid::Methionine),
            'n' | 'N' => Some(AminoAcid::Asparagine),
            'o' | 'O' => Some(AminoAcid::Pyrrolysine),
            'p' | 'P' => Some(AminoAcid::Proline),
            'q' | 'Q' => Some(AminoAcid::Glutamine),
            'r' | 'R' => Some(AminoAcid::Arginine),
            's' | 'S' => Some(AminoAcid::Serine),
            't' | 'T' => Some(AminoAcid::Threonine),
            'u' | 'U' => Some(AminoAcid::Selenocysteine),
            'v' | 'V' | '^' => Some(AminoAcid::Valine),
            'w' | 'W' => Some(AminoAcid::Tryptophan),
            'y' | 'Y' => Some(AminoAcid::Tyrosine),
            'z' | 'Z' => Some(AminoAcid::GluOrGln),
            'x' | 'X' => Some(AminoAcid::Any),
            '*' => Some(AminoAcid::Stop),
            '-' => Some(AminoAcid::Gap),
            _ => None,
        }
    }

    fn width() -> (r: usize) {
        5
    }

    fn to_code(self) -> (r: u8) {
        match self {
            AminoAcid::Alanine => 0b00000,
            AminoAcid::AsxOrAsn => 0b00001,
            AminoAcid::Cysteine => 0b00010,
            AminoAcid::AsparticAcid => 0b00011,
            AminoAcid::GlutamicAcid => 0b00100,
            AminoAcid::Phenylalanine => 0b00101,
            AminoAcid::Glycine => 0b00110,
            AminoAcid::Histidine => 0b00111,
            AminoAcid::Isoleucine => 0b01000,
            AminoAcid::IleOrLeu => 0b01001,
            AminoAcid::Lysine => 0b01010,
            AminoAcid::Leucine => 0b01011,
            AminoAcid::Methionine => 0b01100,
            AminoAcid::Asparagine => 0b01101,
            AminoAcid::Pyrrolysine => 0b01110,
            AminoAcid::Proline => 0b01111,
            AminoAcid::Glutamine => 0b10000,
            AminoAcid::Arginine => 0b10001,
            AminoAcid::Serine => 0b10010,
            AminoAcid::Threonine => 0b10011,
            AminoAcid::Selenocysteine => 0b10100,
            AminoAcid::Valine => 0b10101,
            AminoAcid::Tryptophan => 0b10110,
            AminoAcid::Tyrosine => 0b10111,
            AminoAcid::GluOrGln => 0b11000,
            AminoAcid::Any => 0b11001,
            AminoAcid::Stop => 0b11010,
            AminoAcid::Gap => 0b11011,
        }
    }

    fn from_code(code: u8) -> (r: Result<Self, u8>) {
        match code {
            0b00000 => Ok(AminoAcid::Alanine),
            0b00001 => Ok(AminoAcid::AsxOrAsn),
            0b00010 => Ok(AminoAcid::Cysteine),
            0b00011 => Ok(AminoAcid::AsparticAcid),
            0b00100 => Ok(AminoAcid::GlutamicAcid),
            0b00101 => Ok(AminoAcid::Phenylalanine),
            0b00110 => Ok(AminoAcid::Glycine),
            0b00111 => Ok(AminoAcid::Histidine),
            0b01000 => Ok(AminoAcid::Isoleucine),
            0b01001 => Ok(AminoAcid::IleOrLeu),
            0b01010 => Ok(AminoAcid::Lysine),
            0b01011 => Ok(AminoAcid::Leucine),
            0b01100 => Ok(AminoAcid::Methionine),
            0b01101 => Ok(AminoAcid::Asparagine),
            0b01110 => Ok(AminoAcid::Pyrrolysine),
            0b01111 => Ok(AminoAcid::Proline),
            0b10000 => Ok(AminoAcid::Glutamine),
            0b10001 => Ok(AminoAcid::Arginine),
            0b10010 => Ok(AminoAcid::Serine),
            0b10011 => Ok(AminoAcid::Threonine),
            0b10100 => Ok(AminoAcid::Selenocysteine),
            0b10101 => Ok(AminoAcid::Valine),
            0b10110 => Ok(AminoAcid::Tryptophan),
            0b10111 => Ok(AminoAcid::Tyrosine),
            0b11000 => Ok(AminoAcid::GluOrGln),
            0b11001 => Ok(AminoAcid::Any),
            0b11010 => Ok(AminoAcid::Stop),
            0b11011 => Ok(AminoAcid::Gap),
            _ => Err(code),
        }
    }

    fn from_char(c: char) -> (r: Result<Self, char>) {
        match c {
            'a' | 'A' => Ok(AminoAcid::Alanine),
            'b' | 'B' => Ok(AminoAcid::AsxOrAsn),
            'c' | 'C' => Ok(AminoAcid::Cysteine),
            'd' | 'D' => Ok(AminoAcid::AsparticAcid),
            'e' | 'E' => Ok(AminoAcid::GlutamicAcid),
            'f' | 'F' => Ok(AminoAcid::Phenylalanine),
            'g' | 'G' => Ok(AminoAcid::Glycine),
            'h' | 'H' => Ok(AminoAcid::Histidine),
            'i' | 'I' => Ok(AminoAcid::Isoleucine),
            'j' | 'J' => Ok(AminoAcid::IleOrLeu),
            'k' | 'K' => Ok(AminoAcid::Lysine),
            'l' | 'L' => Ok(AminoAcid::Leucine),
            'm' | 'M' => Ok(AminoAcid::Methionine),
            'n' | 'N' => Ok(AminoAcid::Asparagine),
            'o' | 'O' => Ok(AminoAcid::Pyrrolysine),
            'p' | 'P' => Ok(AminoAcid::Proline),
            'q' | 'Q' => Ok(AminoAcid::Glutamine),
            'r' | 'R' => Ok(AminoAcid::Arginine),
            's' | 'S' => Ok(AminoAcid::Serine),
            't' | 'T' => Ok(AminoAcid::Threonine),
            'u' | 'U' => Ok(AminoAcid::Selenocysteine),
            'v' | 'V' | '^' => Ok(AminoAcid::Valine),
            'w' | 'W' => Ok(AminoAcid::Tryptophan),
            'y' | 'Y' => Ok(AminoAcid::Tyrosine),
            'z' | 'Z' => Ok(AminoAcid::GluOrGln),
            'x' | 'X' => Ok(AminoAcid::Any),
            '*' => Ok(AminoAcid::Stop),
            '-' => Ok(AminoAcid::Gap),
            _ => Err(c),
        }
    }

    proof fn lemma_code_inverse(s: Self) {
        assert((1u16 << 5u16) == 32u16) by (bit_vector);
    }

    proof fn lemma_of_code_sound(code: u8) {
    }
}

} // verus!
