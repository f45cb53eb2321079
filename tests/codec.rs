use fastb::alphabet::{Alphabet, AminoAcid, NucleicAcid, NucleicAcidEx};
use fastb::entry::{BinaryEntry, Entry};
use fastb::error::{FileError, RecordError};
use fastb::file::{File, FileHeader};
use fastb::packing::{pack_symbols, unpack_symbols};
use fastb::sequences::{Sequence, SequenceType};

fn na(s: &str) -> Vec<NucleicAcid> {
    s.chars().map(|c| NucleicAcid::from_char(c).unwrap()).collect()
}

fn aa(s: &str) -> Vec<AminoAcid> {
    s.chars().map(|c| AminoAcid::from_char(c).unwrap()).collect()
}

fn nx(s: &str) -> Vec<NucleicAcidEx> {
    s.chars().map(|c| NucleicAcidEx::from_char(c).unwrap()).collect()
}

#[test]
fn example_document_bytes() {
    let entry = Entry::new(
        "seq1".to_string(),
        Sequence::from_NA(vec![
            NucleicAcid::Adenine,
            NucleicAcid::Cytosine,
            NucleicAcid::Guanine,
            NucleicAcid::ThymineUracil,
        ]),
    );
    let file = File { header: SequenceType::NucleicAcid, contents: vec![entry] };
    let bytes = file.to_fastb().unwrap();
    assert_eq!(
        bytes,
        vec![0b00101010, 0x00, 0x04, 0x00, 0x00, 0x00, 0x04, b's', b'e', b'q', b'1', 0b00011011]
    );
}

#[test]
fn record_round_trip_each_alphabet() {
    let entries = vec![
        (Entry::new("dna".to_string(), Sequence::from_NA(na("ACGTTGCAu"))), SequenceType::NucleicAcid),
        (Entry::new("iupac".to_string(), Sequence::from_NX(nx("ACGTRYKMSWBDHVN-"))), SequenceType::NucleicAcidEx),
        (Entry::new("protein".to_string(), Sequence::from_AA(aa("ABCDEFGHIJKLMNOPQRSTUVWYZX*-"))), SequenceType::AminoAcid),
        (Entry::new(String::new(), Sequence::new_AA()), SequenceType::AminoAcid),
    ];
    for (entry, kind) in entries {
        let binary = entry.to_binary().unwrap();
        let back = binary.into_entry(kind).unwrap();
        assert_eq!(back, entry);
    }
}

#[test]
fn record_round_trip_non_ascii_description() {
    let entry = Entry::new("héllo wörld – ß".to_string(), Sequence::from_NA(na("GATTACA")));
    let binary = entry.to_binary().unwrap();
    assert_eq!(binary.desc_len as usize, "héllo wörld – ß".len());
    assert_eq!(binary.desc, "héllo wörld – ß".as_bytes().to_vec());
    let back = binary.into_entry(SequenceType::NucleicAcid).unwrap();
    assert_eq!(back.desc, "héllo wörld – ß");
    assert_eq!(back, entry);
}

#[test]
fn file_round_trip_keeps_order() {
    let file = File {
        header: SequenceType::AminoAcid,
        contents: vec![
            Entry::new("first".to_string(), Sequence::from_AA(aa("MKV"))),
            Entry::new("second".to_string(), Sequence::from_AA(aa(""))),
            Entry::new("third".to_string(), Sequence::from_AA(aa("WWWWWWWWWWWWWWWWWWWWWY*"))),
        ],
    };
    let bytes = file.to_fastb().unwrap();
    let back = File::new_from_fastb(&bytes).unwrap();
    assert_eq!(back, file);
}

#[test]
fn empty_document_round_trip() {
    let file = File::new(SequenceType::NucleicAcidEx);
    let bytes = file.to_fastb().unwrap();
    assert_eq!(bytes, vec![0b01101010]);
    assert_eq!(File::new_from_fastb(&bytes).unwrap(), file);
}

#[test]
fn packing_size_and_zero_padding() {
    let three = pack_symbols(&na("TTT"));
    assert_eq!(three, vec![0b11111100]);
    let five = pack_symbols(&aa("*****"));
    assert_eq!(five.len(), 4);
    assert_eq!(five[3] & 0b0111_1111, 0);
    assert_eq!(five, vec![0b11010110, 0b10110101, 0b10101101, 0b00000000]);
    let none = pack_symbols::<NucleicAcidEx>(&Vec::new());
    assert!(none.is_empty());
    let eight = pack_symbols(&nx("NNNNNNNN"));
    assert_eq!(eight, vec![0xff; 4]);
}

#[test]
fn unpack_reads_packed_codes() {
    let bytes = vec![0b00011011, 0b11000000];
    let syms: Vec<NucleicAcid> = unpack_symbols(&bytes, 5).unwrap();
    assert_eq!(syms, na("ACGTT"));
    let bad: Result<Vec<AminoAcid>, u8> = unpack_symbols(&[0b11111000], 1);
    assert_eq!(bad, Err(0b11111));
}

#[test]
fn every_code_round_trips() {
    for c in 0..4u8 {
        let s = NucleicAcid::from_code(c).unwrap();
        assert_eq!(s.to_code(), c);
        assert_eq!(NucleicAcid::from_code(s.to_code()), Ok(s));
    }
    for c in 0..16u8 {
        let s = NucleicAcidEx::from_code(c).unwrap();
        assert_eq!(NucleicAcidEx::from_code(s.to_code()), Ok(s));
    }
    for c in 0..28u8 {
        let s = AminoAcid::from_code(c).unwrap();
        assert_eq!(AminoAcid::from_code(s.to_code()), Ok(s));
    }
}

#[test]
fn unassigned_codes_are_rejected() {
    for c in 28..=255u8 {
        assert_eq!(AminoAcid::from_code(c), Err(c));
    }
    for c in 16..=255u8 {
        assert_eq!(NucleicAcidEx::from_code(c), Err(c));
    }
    for c in 4..=255u8 {
        assert_eq!(NucleicAcid::from_code(c), Err(c));
    }
}

#[test]
fn characters_ignore_case() {
    assert_eq!(NucleicAcid::from_char('u'), Ok(NucleicAcid::ThymineUracil));
    assert_eq!(NucleicAcid::from_char('T'), Ok(NucleicAcid::ThymineUracil));
    assert_eq!(NucleicAcidEx::from_char('n'), Ok(NucleicAcidEx::AnyBase));
    assert_eq!(AminoAcid::from_char('^'), Ok(AminoAcid::Valine));
    assert_eq!(AminoAcid::from_char('x'), Ok(AminoAcid::Any));
    assert_eq!(NucleicAcid::from_char('x'), Err('x'));
    assert_eq!(AminoAcid::from_char('1'), Err('1'));
}

#[test]
fn header_checks() {
    assert_eq!(File::new_from_fastb(&[]), Err(FileError::MissingHeader));
    assert_eq!(File::new_from_fastb(&[0b00101011]), Err(FileError::BadChecksum(0b101011)));
    assert_eq!(File::new_from_fastb(&[0b11101010]), Err(FileError::UnknownAlphabet(0b11)));
    assert_eq!(File::parse_header(&[0b10101010]), Ok(SequenceType::AminoAcid));
    assert_eq!(FileHeader { seq_type: SequenceType::AminoAcid }.to_u8(), 0b10101010);
    assert_eq!(FileHeader { seq_type: SequenceType::NucleicAcidEx }.to_u8(), 0b01101010);
}

#[test]
fn job_scan_finds_record_boundaries() {
    let entries = vec![
        Entry::new("a".to_string(), Sequence::from_NX(nx("ACGT"))),
        Entry::new("longer description".to_string(), Sequence::from_NX(nx("NNNNNNNNN-"))),
        Entry::new(String::new(), Sequence::from_NX(nx("R"))),
    ];
    let file = File { header: SequenceType::NucleicAcidEx, contents: entries.clone() };
    let bytes = file.to_fastb().unwrap();
    let jobs = File::extract_jobs(&bytes, SequenceType::NucleicAcidEx).unwrap();
    assert_eq!(jobs.len(), 3);
    let mut pos = 1;
    for (job, entry) in jobs.iter().zip(entries.iter()) {
        let frame = entry.to_binary().unwrap();
        assert_eq!(job, &frame);
        let len = frame.clone().into_bytes().len();
        assert_eq!(job.clone().into_bytes(), bytes[pos..pos + len].to_vec());
        pos += len;
    }
    assert_eq!(pos, bytes.len());
    assert_eq!(jobs[0].seq, vec![0b00010010, 0b01001000]);
    assert_eq!(jobs[2].seq, vec![0b01010000]);
}

#[test]
fn truncated_file_is_rejected() {
    let file = File {
        header: SequenceType::NucleicAcid,
        contents: vec![Entry::new("x".to_string(), Sequence::from_NA(na("ACGTA")))],
    };
    let bytes = file.to_fastb().unwrap();
    assert_eq!(bytes.len(), 1 + 6 + 1 + 2);
    for cut in 2..bytes.len() {
        assert_eq!(File::new_from_fastb(&bytes[..cut]), Err(FileError::Truncated));
    }
}

#[test]
fn bad_record_contents_are_reported() {
    let short = BinaryEntry { desc_len: 3, seq_len: 9, desc: vec![1, 2, 3], seq: vec![0, 0] };
    assert!(!short.is_wf(SequenceType::NucleicAcid));
    assert!(short.is_wf(SequenceType::NucleicAcidEx) == false);
    let ok = BinaryEntry { desc_len: 3, seq_len: 9, desc: vec![1, 2, 3], seq: vec![0, 0, 0] };
    assert!(ok.is_wf(SequenceType::NucleicAcid));
    let bad_utf8 = BinaryEntry { desc_len: 2, seq_len: 0, desc: vec![0xc3, 0x28], seq: vec![] };
    assert_eq!(bad_utf8.into_entry(SequenceType::NucleicAcid), Err(RecordError::InvalidUtf8));
    let bad_code = BinaryEntry { desc_len: 0, seq_len: 2, desc: vec![], seq: vec![0b00000111, 0b11000000] };
    assert_eq!(bad_code.into_entry(SequenceType::AminoAcid), Err(RecordError::InvalidCode(0b11111)));
    let file_bytes = vec![0b10101010, 0, 0, 0, 0, 0, 0, 0, 0, 0, 0, 0, 1, 0b11101000];
    assert_eq!(
        File::new_from_fastb(&file_bytes),
        Err(FileError::Record { index: 1, error: RecordError::InvalidCode(0b11101) })
    );
}

#[test]
fn overlong_description_is_rejected() {
    let long = "a".repeat(65536);
    let entry = Entry::new(long, Sequence::new_NA());
    assert_eq!(entry.to_binary(), Err(RecordError::DescriptionTooLong));
    let ok = Entry::new("ok".to_string(), Sequence::new_NA());
    let file = File { header: SequenceType::NucleicAcid, contents: vec![ok, entry] };
    assert_eq!(
        file.to_fastb(),
        Err(FileError::Record { index: 1, error: RecordError::DescriptionTooLong })
    );
    let fits = Entry::new("é".repeat(32767) + "a", Sequence::new_NA());
    assert_eq!(fits.to_binary().unwrap().desc_len, 65535);
}

#[test]
fn binary_entry_bytes_are_big_endian() {
    let entry = BinaryEntry { desc_len: 0x0102, seq_len: 0x0a0b0c0d, desc: vec![7], seq: vec![9, 8] };
    assert_eq!(entry.into_bytes(), vec![0x01, 0x02, 0x0a, 0x0b, 0x0c, 0x0d, 7, 9, 8]);
}

#[test]
fn sequence_helpers() {
    assert_eq!(Sequence::new_NX().len(), 0);
    assert_eq!(Sequence::from_AA(aa("MKV")).len(), 3);
    assert_eq!(Sequence::from_NA(na("AC")).kind(), SequenceType::NucleicAcid);
    assert_eq!(Sequence::new_AA(), Sequence::from_AA(Vec::new()));
    assert_eq!(SequenceType::AminoAcid.width(), 5);
    assert_eq!(SequenceType::from_id(3), Err(3));
}
