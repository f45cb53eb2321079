//! A whole document and its file form: one header byte, then the binary
//! records one after another.
use vstd::prelude::*;
use crate::bits::BitReader;
use crate::entry::{
    BinaryEntry, BinaryEntryView, Entry, EntryView, be16, be32, decode_entry, encode_error, encodes,
    from_be16, from_be32, lemma_be_round_trip, lemma_encoded_wf, lemma_entry_round_trip,
};
use crate::error::FileError;
use crate::packing::packed_len;
use crate::sequences::SequenceType;

verus! {

/// The low six bits of every header byte.
pub const CHECKSUM: u8 = 0b101010;

/// The header byte of a file of the alphabet `kind`: its tag in the top two
/// bits, the fixed marker below.
pub open spec fn header_byte(kind: SequenceType) -> u8 {
    (kind.spec_id() * 64 + CHECKSUM) as u8
}

/// The alphabet that a file's first byte announces, or why it announces none.
pub open spec fn read_header(bytes: Seq<u8>) -> Result<SequenceType, FileError> {
    if bytes.len() == 0 {
        Err(FileError::MissingHeader)
    } else if bytes[0] % 64 != CHECKSUM {
        Err(FileError::BadChecksum(bytes[0] % 64))
    } else {
        match SequenceType::of_id(bytes[0] / 64) {
            Some(kind) => Ok(kind),
            None => Err(FileError::UnknownAlphabet(bytes[0] / 64)),
        }
    }
}

/// The binary records that `bytes` holds one after another, read with the
/// alphabet `kind`; `None` when the last one runs past the end.
#[verifier::opaque]
pub open spec fn scan(bytes: Seq<u8>, kind: SequenceType) -> Option<Seq<BinaryEntryView>>
    decreases bytes.len(),
{
    if bytes.len() == 0 {
        Some(Seq::empty())
    } else if bytes.len() < 6 {
        None
    } else {
        let desc_len = from_be16(bytes[0], bytes[1]);
        let seq_len = from_be32(bytes[2], bytes[3], bytes[4], bytes[5]);
        let desc_end = 6 + desc_len;
        let end = desc_end + packed_len(seq_len as nat, kind.spec_width());
        if end > bytes.len() {
            None
        } else {
            let job = BinaryEntryView {
                desc_len,
                seq_len,
                desc: bytes.subrange(6, desc_end),
                seq: bytes.subrange(desc_end, end as int),
            };
            match scan(bytes.subrange(end as int, bytes.len() as int), kind) {
                Some(rest) => Some(seq![job] + rest),
                None => None,
            }
        }
    }
}

/// The bytes of the binary records `bs`, one after another.
pub open spec fn frames(bs: Seq<BinaryEntryView>) -> Seq<u8>
    decreases bs.len(),
{
    if bs.len() == 0 {
        Seq::empty()
    } else {
        bs[0].frame() + frames(bs.drop_first())
    }
}

/// The records that the binary records `jobs` hold, or the first one that
/// cannot be read, with its position and the reason.
pub open spec fn decode_all(jobs: Seq<BinaryEntryView>, kind: SequenceType) -> Result<
    Seq<EntryView>,
    FileError,
>
    decreases jobs.len(),
{
    if jobs.len() == 0 {
        Ok(Seq::empty())
    } else {
        match decode_all(jobs.drop_last(), kind) {
            Err(e) => Err(e),
            Ok(done) => match decode_entry(jobs.last(), kind) {
                Ok(e) => Ok(done.push(e)),
                Err(e) => Err(FileError::Record { index: (jobs.len() - 1) as usize, error: e }),
            },
        }
    }
}

/// The first of the records `es` that cannot be encoded, with its position
/// and the reason, if any.
pub open spec fn first_encode_error(es: Seq<EntryView>) -> Option<FileError>
    decreases es.len(),
{
    if es.len() == 0 {
        None
    } else {
        match first_encode_error(es.drop_last()) {
            Some(e) => Some(e),
            None => match encode_error(es.last()) {
                Some(e) => Some(FileError::Record { index: (es.len() - 1) as usize, error: e }),
                None => None,
            },
        }
    }
}

/// A document: the alphabet of all its records, and the records in order.
#[derive(Clone, Debug, PartialEq, Eq)]
pub struct File {
    pub header: SequenceType,
    pub contents: Vec<Entry>,
}

/// A document as a mathematical value.
pub struct FileView {
    pub header: SequenceType,
    pub contents: Seq<EntryView>,
}

impl View for File {
    type V = FileView;

    open spec fn view(&self) -> FileView {
        FileView { header: self.header, contents: self.contents@.map_values(|e: Entry| e@) }
    }
}

impl FileView {
    /// Every record uses the document's alphabet.
    pub open spec fn wf(self) -> bool {
        forall|i: int| 0 <= i < self.contents.len() ==> (#[trigger] self.contents[i]).seq.kind()
            == self.header
    }
}

/// `bytes` is the file form of the document `f`.
pub open spec fn encodes_file(f: FileView, bytes: Seq<u8>) -> bool {
    exists|bs: Seq<BinaryEntryView>|
        {
            &&& bs.len() == f.contents.len()
            &&& forall|i: int| 0 <= i < bs.len() ==> encodes(f.contents[i], #[trigger] bs[i])
            &&& bytes == seq![header_byte(f.header)] + frames(bs)
        }
}

/// The document that `bytes` holds, or why it holds none.
pub open spec fn decode_file(bytes: Seq<u8>) -> Result<FileView, FileError> {
    match read_header(bytes) {
        Err(e) => Err(e),
        Ok(kind) => match scan(bytes.drop_first(), kind) {
            None => Err(FileError::Truncated),
            Some(jobs) => match decode_all(jobs, kind) {
                Ok(contents) => Ok(FileView { header: kind, contents }),
                Err(e) => Err(e),
            },
        },
    }
}

/// The one-byte file header.
pub struct FileHeader {
    pub seq_type: SequenceType,
}

impl FileHeader {
    pub fn to_u8(&self) -> (r: u8)
        ensures
            r == header_byte(self.seq_type),
    {
        self.seq_type.id() * 64 + CHECKSUM
    }
}

/// `done` followed by what `rest` holds, if it holds anything.
pub open spec fn prepend<V>(done: Seq<V>, rest: Option<Seq<V>>) -> Option<Seq<V>> {
    match rest {
        Some(r) => Some(done + r),
        None => None,
    }
}

pub open spec fn job_views(jobs: Seq<BinaryEntry>) -> Seq<BinaryEntryView> {
    jobs.map_values(|b: BinaryEntry| b@)
}

pub open spec fn entry_views(es: Seq<Entry>) -> Seq<EntryView> {
    es.map_values(|e: Entry| e@)
}

proof fn lemma_decode_all_err_stays(jobs: Seq<BinaryEntryView>, kind: SequenceType, k: nat, n: nat)
    requires
        k <= n <= jobs.len(),
        decode_all(jobs.take(k as int), kind) is Err,
    ensures
        decode_all(jobs.take(n as int), kind) == decode_all(jobs.take(k as int), kind),
    decreases n,
{
    if n > k {
        lemma_decode_all_err_stays(jobs, kind, k, (n - 1) as nat);
        assert(jobs.take(n as int).drop_last() =~= jobs.take(n - 1));
    }
}

proof fn lemma_first_encode_error_stays(es: Seq<EntryView>, k: nat, n: nat)
    requires
        k <= n <= es.len(),
        first_encode_error(es.take(k as int)) is Some,
    ensures
        first_encode_error(es.take(n as int)) == first_encode_error(es.take(k as int)),
    decreases n,
{
    if n > k {
        lemma_first_encode_error_stays(es, k, (n - 1) as nat);
        assert(es.take(n as int).drop_last() =~= es.take(n - 1));
    }
}

proof fn lemma_frames_push(bs: Seq<BinaryEntryView>, b: BinaryEntryView)
    ensures
        frames(bs.push(b)) == frames(bs) + b.frame(),
    decreases bs.len(),
{
    if bs.len() == 0 {
        assert(bs.push(b).drop_first() =~= Seq::<BinaryEntryView>::empty());
        assert(bs.push(b)[0] == b);
        assert(frames(Seq::<BinaryEntryView>::empty()) == Seq::<u8>::empty());
        assert(frames(bs.push(b)) =~= b.frame() + Seq::<u8>::empty());
        assert(frames(bs) == Seq::<u8>::empty());
        assert(frames(bs.push(b)) =~= frames(bs) + b.frame());
    } else {
        lemma_frames_push(bs.drop_first(), b);
        assert(bs.push(b).drop_first() =~= bs.drop_first().push(b));
        assert(frames(bs.push(b)) =~= frames(bs) + b.frame());
    }
}

impl File {
    /// An empty document of the alphabet `header`.
    pub fn new(header: SequenceType) -> (r: Self)
        ensures
            r@.header == header,
            r@.contents.len() == 0,
    {
        File { header, contents: Vec::new() }
    }

    /// The alphabet that the header byte announces, after checking its
    /// fixed marker.
    pub fn parse_header(file: &[u8]) -> (r: Result<SequenceType, FileError>)
        ensures
            r == read_header(file@),
    {
        if file.len() == 0 {
            return Err(FileError::MissingHeader);
        }
        let byte = file[0];
        if byte % 64 != CHECKSUM {
            return Err(FileError::BadChecksum(byte % 64));
        }
        match SequenceType::from_id(byte / 64) {
            Ok(kind) => Ok(kind),
            Err(id) => Err(FileError::UnknownAlphabet(id)),
        }
    }

    /// Splits what follows the header byte into binary records, one per
    /// record, with the alphabet `kind` giving the packed lengths.
    pub fn extract_jobs(file: &[u8], kind: SequenceType) -> (r: Result<
        Vec<BinaryEntry>,
        FileError,
    >)
        requires
            1 <= file@.len() <= u64::MAX / 8,
        ensures
            match scan(file@.drop_first(), kind) {
                Some(jobs) => r matches Ok(v) && job_views(v@) == jobs,
                None => r == Err::<Vec<BinaryEntry>, FileError>(FileError::Truncated),
            },
            r matches Ok(v) ==> forall|i: int| 0 <= i < v@.len() ==> (#[trigger] v@[i])@.wf(kind),
    {
        let ghost all = file@.drop_first();
        proof {
            reveal(scan);
        }
        let width = kind.width();
        let mut reader = BitReader::new(file);
        let _ = reader.read_bytes(1);
        let mut jobs: Vec<BinaryEntry> = Vec::new();
        proof {
            assert(file@.subrange(1, file@.len() as int) =~= all);
            if let Some(js) = scan(all, kind) {
                assert(Seq::<BinaryEntryView>::empty() + js =~= js);
            }
            assert(job_views(jobs@) =~= Seq::<BinaryEntryView>::empty());
        }
        while !reader.at_end()
            invariant
                reader.wf(),
                reader.bytes() == file@,
                reader.pos() % 8 == 0,
                1 <= reader.pos() / 8 <= file@.len(),
                file@.len() <= u64::MAX / 8,
                all == file@.drop_first(),
                width == kind.spec_width(),
                1 <= width <= 8,
                scan(all, kind) == prepend(
                    job_views(jobs@),
                    scan(file@.subrange((reader.pos() / 8) as int, file@.len() as int), kind),
                ),
                forall|i: int| 0 <= i < jobs@.len() ==> (#[trigger] jobs@[i])@.wf(kind),
            decreases file@.len() - reader.pos() / 8,
        {
            proof {
                reveal(scan);
            }
            let ghost start = (reader.pos() / 8) as int;
            let ghost rest = file@.subrange(start, file@.len() as int);
            if reader.remaining() < 6 {
                return Err(FileError::Truncated);
            }
            let d = reader.read_bytes(2);
            let desc_len: u16 = ((d[0] as u16) << 8u16) | (d[1] as u16);
            let s = reader.read_bytes(4);
            let seq_len: u32 = ((s[0] as u32) << 24u32) | ((s[1] as u32) << 16u32) | ((
            s[2] as u32) << 8u32) | (s[3] as u32);
            proof {
                assert(seq_len * width <= 8 * 4294967295) by (nonlinear_arith)
                    requires
                        seq_len <= 4294967295,
                        width <= 8,
                ;
            }
            let packed: u64 = ((seq_len as u64) * (width as u64) + 7) / 8;
            let left = reader.remaining();
            if (desc_len as u64) + packed > left as u64 {
                return Err(FileError::Truncated);
            }
            let desc = reader.read_bytes(desc_len as usize);
            let seq = reader.read_bytes(packed as usize);
            let job = BinaryEntry { desc_len, seq_len, desc, seq };
            proof {
                let end = 6 + desc_len + packed;
                assert(rest[0] == d@[0] && rest[1] == d@[1]);
                assert(rest[2] == s@[0] && rest[3] == s@[1] && rest[4] == s@[2] && rest[5] == s@[3]);
                assert(job@.desc =~= rest.subrange(6, 6 + desc_len));
                assert(job@.seq =~= rest.subrange(6 + desc_len, end as int));
                assert(rest.subrange(end as int, rest.len() as int) =~= file@.subrange(
                    (reader.pos() / 8) as int,
                    file@.len() as int,
                ));
                let old_views = job_views(jobs@);
                assert(job_views(jobs@.push(job)) =~= old_views.push(job@));
                match scan(file@.subrange((reader.pos() / 8) as int, file@.len() as int), kind) {
                    Some(tail) => {
                        assert(old_views + (seq![job@] + tail) =~= old_views.push(job@) + tail);
                    },
                    None => {},
                }
            }
            jobs.push(job);
        }
        proof {
            assert(file@.subrange((reader.pos() / 8) as int, file@.len() as int)
                =~= Seq::<u8>::empty());
            assert(job_views(jobs@) + Seq::<BinaryEntryView>::empty() =~= job_views(jobs@));
        }
        Ok(jobs)
    }

    /// Reads every binary record with the alphabet `kind`, in order, stopping
    /// at the first that cannot be read.
    pub fn process_jobs(jobs: &Vec<BinaryEntry>, kind: SequenceType) -> (r: Result<
        Vec<Entry>,
        FileError,
    >)
        requires
            forall|i: int| 0 <= i < jobs@.len() ==> (#[trigger] jobs@[i])@.wf(kind),
        ensures
            match decode_all(job_views(jobs@), kind) {
                Ok(es) => r matches Ok(v) && entry_views(v@) == es,
                Err(e) => r == Err::<Vec<Entry>, FileError>(e),
            },
    {
        let ghost views = job_views(jobs@);
        let mut out: Vec<Entry> = Vec::new();
        let mut i: usize = 0;
        proof {
            assert(views.take(0) =~= Seq::<BinaryEntryView>::empty());
            assert(entry_views(out@) =~= Seq::<EntryView>::empty());
        }
        while i < jobs.len()
            invariant
                i <= jobs@.len(),
                views == job_views(jobs@),
                forall|i: int| 0 <= i < jobs@.len() ==> (#[trigger] jobs@[i])@.wf(kind),
                decode_all(views.take(i as int), kind) == Ok::<Seq<EntryView>, FileError>(
                    entry_views(out@),
                ),
            decreases jobs@.len() - i,
        {
            let r = jobs[i].into_entry(kind);
            proof {
                assert(views.take(i + 1).drop_last() =~= views.take(i as int));
                assert(views.take(i + 1).last() == jobs@[i as int]@);
            }
            match r {
                Ok(e) => {
                    proof {
                        assert(entry_views(out@.push(e)) =~= entry_views(out@).push(e@));
                    }
                    out.push(e);
                },
                Err(x) => {
                    proof {
                        lemma_decode_all_err_stays(views, kind, (i + 1) as nat, jobs@.len());
                        assert(views.take(jobs@.len() as int) =~= views);
                    }
                    return Err(FileError::Record { index: i, error: x });
                },
            }
            i = i + 1;
        }
        proof {
            assert(views.take(jobs@.len() as int) =~= views);
        }
        Ok(out)
    }

    /// Decodes a whole file: checks the header, splits the records and reads
    /// each with the header's alphabet.
    pub fn new_from_fastb(file: &[u8]) -> (r: Result<Self, FileError>)
        requires
            file@.len() <= u64::MAX / 8,
        ensures
            match decode_file(file@) {
                Ok(f) => r matches Ok(x) && x@ == f,
                Err(e) => r matches Err(x) && x == e,
            },
    {
        let kind = match Self::parse_header(file) {
            Ok(kind) => kind,
            Err(e) => {
                return Err(e);
            },
        };
        let jobs = match Self::extract_jobs(file, kind) {
            Ok(jobs) => jobs,
            Err(e) => {
                return Err(e);
            },
        };
        match Self::process_jobs(&jobs, kind) {
            Ok(contents) => Ok(File { header: kind, contents }),
            Err(e) => Err(e),
        }
    }

    /// Encodes the document: the header byte, then each record's binary form
    /// in order. Fails on the first record that cannot be encoded.
    pub fn to_fastb(&self) -> (r: Result<Vec<u8>, FileError>)
        ensures
            match first_encode_error(self@.contents) {
                Some(e) => r == Err::<Vec<u8>, FileError>(e),
                None => r matches Ok(b) && encodes_file(self@, b@),
            },
    {
        let header = FileHeader { seq_type: self.header };
        let mut result: Vec<u8> = Vec::new();
        result.push(header.to_u8());
        let ghost es = self@.contents;
        let ghost mut bs: Seq<BinaryEntryView> = Seq::empty();
        let n = self.contents.len();
        let mut i: usize = 0;
        proof {
            assert(es.take(0) =~= Seq::<EntryView>::empty());
            assert(result@ =~= seq![header_byte(self.header)] + frames(bs));
        }
        while i < n
            invariant
                n == self.contents@.len(),
                es == self@.contents,
                i <= n,
                first_encode_error(es.take(i as int)) is None,
                bs.len() == i,
                forall|j: int| 0 <= j < i ==> encodes(es[j], #[trigger] bs[j]),
                result@ == seq![header_byte(self.header)] + frames(bs),
            decreases n - i,
        {
            let r = self.contents[i].to_binary();
            proof {
                assert(es.take(i + 1).drop_last() =~= es.take(i as int));
                assert(es.take(i + 1).last() == es[i as int]);
            }
            match r {
                Ok(b) => {
                    proof {
                        lemma_frames_push(bs, b@);
                        bs = bs.push(b@);
                    }
                    let mut bytes = b.into_bytes();
                    result.append(&mut bytes);
                    proof {
                        assert(result@ =~= seq![header_byte(self.header)] + frames(bs));
                    }
                },
                Err(e) => {
                    proof {
                        lemma_first_encode_error_stays(es, (i + 1) as nat, n as nat);
                        assert(es.take(n as int) =~= es);
                    }
                    return Err(FileError::Record { index: i, error: e });
                },
            }
            i = i + 1;
        }
        proof {
            assert(es.take(n as int) =~= es);
        }
        Ok(result)
    }
}

/// A well-formed binary record's frame is scanned as that record.
#[verifier::rlimit(30)]
proof fn lemma_scan_one(b: BinaryEntryView, tail: Seq<u8>, kind: SequenceType)
    requires
        b.wf(kind),
    ensures
        scan(b.frame() + tail, kind) == prepend(seq![b], scan(tail, kind)),
{
    reveal(scan);
    lemma_be_round_trip(b.desc_len, b.seq_len);
    let f = b.frame();
    let bytes = f + tail;
    let desc_end = 6 + b.desc_len;
    let end = desc_end + packed_len(b.seq_len as nat, kind.spec_width());
    assert(f.len() == end);
    assert(bytes[0] == be16(b.desc_len)[0] && bytes[1] == be16(b.desc_len)[1]);
    assert(bytes[2] == be32(b.seq_len)[0] && bytes[3] == be32(b.seq_len)[1]);
    assert(bytes[4] == be32(b.seq_len)[2] && bytes[5] == be32(b.seq_len)[3]);
    assert(bytes.subrange(6, desc_end) =~= b.desc);
    assert(bytes.subrange(desc_end, end as int) =~= b.seq);
    assert(bytes.subrange(end as int, bytes.len() as int) =~= tail);
}

/// Scanning the frames of well-formed binary records finds exactly those
/// records, each with its own byte ranges.
pub proof fn lemma_scan_frames(bs: Seq<BinaryEntryView>, kind: SequenceType)
    requires
        forall|i: int| 0 <= i < bs.len() ==> (#[trigger] bs[i]).wf(kind),
    ensures
        scan(frames(bs), kind) == Some(bs),
    decreases bs.len(),
{
    if bs.len() == 0 {
        assert(frames(bs) =~= Seq::<u8>::empty());
        reveal(scan);
    } else {
        let rest = bs.drop_first();
        assert forall|i: int| 0 <= i < rest.len() implies (#[trigger] rest[i]).wf(kind) by {
            assert(rest[i] == bs[i + 1]);
        }
        lemma_scan_frames(rest, kind);
        assert(frames(bs) == bs[0].frame() + frames(rest));
        lemma_scan_one(bs[0], frames(rest), kind);
        assert(seq![bs[0]] + rest =~= bs);
        assert(scan(frames(bs), kind) == prepend(seq![bs[0]], Some(rest)));
    }
}

/// Reading back the binary forms of records of one alphabet gives the
/// records, in order.
pub proof fn lemma_decode_all_round_trip(
    es: Seq<EntryView>,
    bs: Seq<BinaryEntryView>,
    kind: SequenceType,
)
    requires
        bs.len() == es.len(),
        forall|i: int| 0 <= i < bs.len() ==> encodes(es[i], #[trigger] bs[i]),
        forall|i: int| 0 <= i < es.len() ==> (#[trigger] es[i]).seq.kind() == kind,
    ensures
        decode_all(bs, kind) == Ok::<Seq<EntryView>, FileError>(es),
    decreases bs.len(),
{
    if bs.len() == 0 {
        assert(es =~= Seq::<EntryView>::empty());
    } else {
        let k = (bs.len() - 1) as int;
        let es0 = es.drop_last();
        let bs0 = bs.drop_last();
        assert forall|i: int| 0 <= i < bs0.len() implies encodes(es0[i], #[trigger] bs0[i]) by {
            assert(es0[i] == es[i] && bs0[i] == bs[i]);
        }
        assert forall|i: int| 0 <= i < es0.len() implies (#[trigger] es0[i]).seq.kind() == kind by {
            assert(es0[i] == es[i]);
        }
        lemma_decode_all_round_trip(es0, bs0, kind);
        assert(encodes(es[k], bs[k]));
        lemma_entry_round_trip(es[k], bs[k]);
        assert(es0.push(es[k]) =~= es);
    }
}

/// Decoding the file form of a document gives the document back, with its
/// records in their order.
pub proof fn lemma_file_round_trip(f: FileView, bytes: Seq<u8>)
    requires
        f.wf(),
        encodes_file(f, bytes),
    ensures
        decode_file(bytes) == Ok::<FileView, FileError>(f),
{
    let bs = choose|bs: Seq<BinaryEntryView>|
        {
            &&& bs.len() == f.contents.len()
            &&& forall|i: int| 0 <= i < bs.len() ==> encodes(f.contents[i], #[trigger] bs[i])
            &&& bytes == seq![header_byte(f.header)] + frames(bs)
        };
    let kind = f.header;
    assert(bytes[0] == header_byte(kind));
    assert(bytes[0] % 64 == CHECKSUM && SequenceType::of_id(bytes[0] / 64) == Some(kind));
    assert(read_header(bytes) == Ok::<SequenceType, FileError>(kind));
    assert(bytes.drop_first() =~= frames(bs));
    assert forall|i: int| 0 <= i < bs.len() implies (#[trigger] bs[i]).wf(kind) by {
        assert(encodes(f.contents[i], bs[i]));
        assert(f.contents[i].seq.kind() == kind);
        lemma_encoded_wf(f.contents[i], bs[i]);
    }
    lemma_scan_frames(bs, kind);
    lemma_decode_all_round_trip(f.contents, bs, kind);
}

} // verus!
