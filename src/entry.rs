//! One record: a description and a sequence, and its length-prefixed binary
//! form.
use vstd::prelude::*;
use vstd::slice::slice_to_vec;
use vstd::utf8::{decode_utf8, encode_utf8, valid_utf8, encode_utf8_decode_utf8, encode_utf8_valid_utf8};
use crate::alphabet::{AminoAcid, NucleicAcid, NucleicAcidEx};
use crate::bits::clear_from;
use crate::error::RecordError;
use crate::packing::{packed_len, packs, unpacked, lemma_unpack_packed, pack_symbols, unpack_symbols};
use crate::sequences::{Sequence, SequenceType, SequenceView};

verus! {

/// A record: a description and the symbols of one alphabet.
#[derive(Clone, Debug, PartialEq, Eq)]
pub struct Entry {
    pub desc: String,
    pub seq: Sequence,
}

/// A record as a mathematical value.
pub struct EntryView {
    pub desc: Seq<char>,
    pub seq: SequenceView,
}

impl View for Entry {
    type V = EntryView;

    open spec fn view(&self) -> EntryView {
        EntryView { desc: self.desc@, seq: self.seq@ }
    }
}

/// A record in binary form: the two lengths, the description's UTF-8 bytes
/// and the packed symbol codes.
#[derive(Clone, Debug, PartialEq, Eq)]
pub struct BinaryEntry {
    pub desc_len: u16,
    pub seq_len: u32,
    pub desc: Vec<u8>,
    pub seq: Vec<u8>,
}

/// A binary record as a mathematical value.
pub struct BinaryEntryView {
    pub desc_len: u16,
    pub seq_len: u32,
    pub desc: Seq<u8>,
    pub seq: Seq<u8>,
}

impl View for BinaryEntry {
    type V = BinaryEntryView;

    open spec fn view(&self) -> BinaryEntryView {
        BinaryEntryView {
            desc_len: self.desc_len,
            seq_len: self.seq_len,
            desc: self.desc@,
            seq: self.seq@,
        }
    }
}

/// The big-endian bytes of a 16-bit length.
pub open spec fn be16(x: u16) -> Seq<u8> {
    seq![(x >> 8u16) as u8, (x & 0xff) as u8]
}

/// The big-endian bytes of a 32-bit length.
pub open spec fn be32(x: u32) -> Seq<u8> {
    seq![(x >> 24u32) as u8, ((x >> 16u32) & 0xff) as u8, ((x >> 8u32) & 0xff) as u8, (x & 0xff) as u8]
}

/// The 16-bit number whose big-endian bytes are `b0, b1`.
pub open spec fn from_be16(b0: u8, b1: u8) -> u16 {
    ((b0 as u16) << 8u16) | (b1 as u16)
}

/// The 32-bit number whose big-endian bytes are `b0, b1, b2, b3`.
pub open spec fn from_be32(b0: u8, b1: u8, b2: u8, b3: u8) -> u32 {
    ((b0 as u32) << 24u32) | ((b1 as u32) << 16u32) | ((b2 as u32) << 8u32) | (b3 as u32)
}

/// Reading big-endian bytes back gives the number.
pub proof fn lemma_be_round_trip(x: u16, y: u32)
    ensures
        from_be16(be16(x)[0], be16(x)[1]) == x,
        from_be32(be32(y)[0], be32(y)[1], be32(y)[2], be32(y)[3]) == y,
{
    assert((((x >> 8u16) as u8) as u16) << 8u16 | (((x & 0xff) as u8) as u16) == x)
        by (bit_vector);
    assert(((((y >> 24u32) as u8) as u32) << 24u32) | (((((y >> 16u32) & 0xff) as u8) as u32)
        << 16u32) | (((((y >> 8u32) & 0xff) as u8) as u32) << 8u32) | (((y & 0xff) as u8) as u32)
        == y) by (bit_vector);
}

impl BinaryEntryView {
    /// Both payloads have the lengths that the prefixes give, for symbols
    /// of the alphabet `kind`.
    pub open spec fn wf(self, kind: SequenceType) -> bool {
        &&& self.desc.len() == self.desc_len
        &&& self.seq.len() == packed_len(self.seq_len as nat, kind.spec_width())
    }

    /// The record's bytes in a file.
    pub open spec fn frame(self) -> Seq<u8> {
        be16(self.desc_len) + be32(self.seq_len) + self.desc + self.seq
    }
}

/// `bytes` holds the packed codes of the sequence `s`.
pub open spec fn packs_sequence(bytes: Seq<u8>, s: SequenceView) -> bool {
    match s {
        SequenceView::NucleicAcid(v) => packs(bytes, v),
        SequenceView::NucleicAcidEx(v) => packs(bytes, v),
        SequenceView::AminoAcid(v) => packs(bytes, v),
    }
}

/// Why the record `e` cannot be encoded, if it cannot.
pub open spec fn encode_error(e: EntryView) -> Option<RecordError> {
    if encode_utf8(e.desc).len() > u16::MAX {
        Some(RecordError::DescriptionTooLong)
    } else if e.seq.len() > u32::MAX {
        Some(RecordError::SequenceTooLong)
    } else {
        None
    }
}

/// `b` is the binary form of the record `e`.
pub open spec fn encodes(e: EntryView, b: BinaryEntryView) -> bool {
    &&& b.desc == encode_utf8(e.desc)
    &&& b.desc_len == b.desc.len()
    &&& b.seq_len == e.seq.len()
    &&& packs_sequence(b.seq, e.seq)
}

/// The record that the binary record `b` holds, read with the alphabet
/// `kind`, or why it cannot be read.
pub open spec fn decode_entry(b: BinaryEntryView, kind: SequenceType) -> Result<
    EntryView,
    RecordError,
> {
    if !valid_utf8(b.desc) {
        Err(RecordError::InvalidUtf8)
    } else {
        let desc = decode_utf8(b.desc);
        let n = b.seq_len as nat;
        match kind {
            SequenceType::NucleicAcid => match unpacked::<NucleicAcid>(b.seq, n) {
                Ok(s) => Ok(EntryView { desc, seq: SequenceView::NucleicAcid(s) }),
                Err(c) => Err(RecordError::InvalidCode(c)),
            },
            SequenceType::NucleicAcidEx => match unpacked::<NucleicAcidEx>(b.seq, n) {
                Ok(s) => Ok(EntryView { desc, seq: SequenceView::NucleicAcidEx(s) }),
                Err(c) => Err(RecordError::InvalidCode(c)),
            },
            SequenceType::AminoAcid => match unpacked::<AminoAcid>(b.seq, n) {
                Ok(s) => Ok(EntryView { desc, seq: SequenceView::AminoAcid(s) }),
                Err(c) => Err(RecordError::InvalidCode(c)),
            },
        }
    }
}

/// Relies on `String::from_utf8`: it succeeds exactly on valid UTF-8, and
/// the string then holds the characters that the bytes encode.
#[verifier::external_body]
fn string_from_utf8(bytes: &[u8]) -> (r: Option<String>)
    ensures
        r is Some <==> valid_utf8(bytes@),
        r matches Some(s) ==> s@ == decode_utf8(bytes@),
{
    String::from_utf8(bytes.to_vec()).ok()
}

impl Entry {
    pub fn new(desc: String, seq: Sequence) -> (r: Self)
        ensures
            r@ == (EntryView { desc: desc@, seq: seq@ }),
    {
        Entry { desc, seq }
    }

    /// The binary form of this record: fails when the description's UTF-8
    /// form needs more than 16 bits of length, or the sequence more than 32.
    pub fn to_binary(&self) -> (r: Result<BinaryEntry, RecordError>)
        ensures
            match encode_error(self@) {
                Some(e) => r == Err::<BinaryEntry, RecordError>(e),
                None => r matches Ok(b) && encodes(self@, b@),
            },
    {
        let desc = slice_to_vec(self.desc.as_str().as_bytes());
        if desc.len() > 65535 {
            return Err(RecordError::DescriptionTooLong);
        }
        let n = self.seq.len();
        if n > 4294967295 {
            return Err(RecordError::SequenceTooLong);
        }
        let seq = match &self.seq {
            Sequence::NucleicAcid(v) => pack_symbols(v),
            Sequence::NucleicAcidEx(v) => pack_symbols(v),
            Sequence::AminoAcid(v) => pack_symbols(v),
        };
        Ok(BinaryEntry { desc_len: desc.len() as u16, seq_len: n as u32, desc, seq })
    }
}

impl BinaryEntry {
    /// The record's bytes: both lengths big-endian, then the description,
    /// then the packed symbols.
    pub fn into_bytes(self) -> (r: Vec<u8>)
        ensures
            r@ == self@.frame(),
    {
        let BinaryEntry { desc_len, seq_len, mut desc, mut seq } = self;
        let mut result: Vec<u8> = Vec::with_capacity(6);
        result.push((desc_len >> 8u16) as u8);
        result.push((desc_len & 0xff) as u8);
        result.push((seq_len >> 24u32) as u8);
        result.push(((seq_len >> 16u32) & 0xff) as u8);
        result.push(((seq_len >> 8u32) & 0xff) as u8);
        result.push((seq_len & 0xff) as u8);
        result.append(&mut desc);
        result.append(&mut seq);
        assert(result@ =~= self@.frame());
        result
    }

    /// Whether both payloads have the lengths that the prefixes give.
    pub fn is_wf(&self, kind: SequenceType) -> (r: bool)
        ensures
            r == self@.wf(kind),
    {
        let width = kind.width() as u64;
        proof {
            assert(self.seq_len * width <= 8 * 4294967295) by (nonlinear_arith)
                requires
                    self.seq_len <= 4294967295,
                    width <= 8,
            ;
        }
        let packed: u64 = ((self.seq_len as u64) * width + 7) / 8;
        self.desc.len() == self.desc_len as usize && self.seq.len() as u64 == packed
    }

    /// Reads the record back with the alphabet `kind`.
    pub fn into_entry(&self, kind: SequenceType) -> (r: Result<Entry, RecordError>)
        requires
            self@.wf(kind),
        ensures
            match decode_entry(self@, kind) {
                Ok(e) => r matches Ok(x) && x@ == e,
                Err(e) => r matches Err(x) && x == e,
            },
    {
        let desc = match string_from_utf8(self.desc.as_slice()) {
            Some(s) => s,
            None => {
                return Err(RecordError::InvalidUtf8);
            },
        };
        let n = self.seq_len as usize;
        match kind {
            SequenceType::NucleicAcid => match unpack_symbols::<NucleicAcid>(self.seq.as_slice(), n) {
                Ok(v) => Ok(Entry { desc, seq: Sequence::from_NA(v) }),
                Err(c) => Err(RecordError::InvalidCode(c)),
            },
            SequenceType::NucleicAcidEx => match unpack_symbols::<NucleicAcidEx>(
                self.seq.as_slice(),
                n,
            ) {
                Ok(v) => Ok(Entry { desc, seq: Sequence::from_NX(v) }),
                Err(c) => Err(RecordError::InvalidCode(c)),
            },
            SequenceType::AminoAcid => match unpack_symbols::<AminoAcid>(self.seq.as_slice(), n) {
                Ok(v) => Ok(Entry { desc, seq: Sequence::from_AA(v) }),
                Err(c) => Err(RecordError::InvalidCode(c)),
            },
        }
    }
}

/// A record's binary form is well formed for the record's alphabet.
pub proof fn lemma_encoded_wf(e: EntryView, b: BinaryEntryView)
    requires
        encodes(e, b),
    ensures
        b.wf(e.seq.kind()),
{
}

/// The packed symbols of a record take `ceil(n * w / 8)` bytes for `n`
/// symbols of width `w`, and every bit after the last code is clear.
pub proof fn lemma_packed_size(e: EntryView, b: BinaryEntryView)
    requires
        encodes(e, b),
    ensures
        b.seq.len() == packed_len(e.seq.len(), e.seq.kind().spec_width()),
        clear_from(b.seq, (e.seq.len() * e.seq.kind().spec_width()) as int),
{
}

/// Decoding the binary form of a record gives the record back.
pub proof fn lemma_entry_round_trip(e: EntryView, b: BinaryEntryView)
    requires
        encodes(e, b),
    ensures
        decode_entry(b, e.seq.kind()) == Ok::<EntryView, RecordError>(e),
{
    encode_utf8_valid_utf8(e.desc);
    encode_utf8_decode_utf8(e.desc);
    match e.seq {
        SequenceView::NucleicAcid(v) => {
            lemma_unpack_packed(b.seq, v, v.len());
            assert(v.take(v.len() as int) =~= v);
        },
        SequenceView::NucleicAcidEx(v) => {
            lemma_unpack_packed(b.seq, v, v.len());
            assert(v.take(v.len() as int) =~= v);
        },
        SequenceView::AminoAcid(v) => {
            lemma_unpack_packed(b.seq, v, v.len());
            assert(v.take(v.len() as int) =~= v);
        },
    }
}

} // verus!
