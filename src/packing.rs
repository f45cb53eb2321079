//! Packing symbol codes into bytes, `width` bits per symbol, and back.
use vstd::prelude::*;
use crate::alphabet::Alphabet;
use crate::bits::{BitReader, BitWriter, bits_value, clear_from, lemma_bits_value_frame};

verus! {

/// The number of bytes that hold `n` codes of `w` bits.
pub open spec fn packed_len(n: nat, w: nat) -> nat {
    (n * w + 7) / 8
}

/// The code stored in slot `i` of a packed buffer.
pub open spec fn code_at(bytes: Seq<u8>, i: int, w: nat) -> u8 {
    bits_value(bytes, i * w, w) as u8
}

/// `bytes` holds the codes of `syms` in order, each in its alphabet's width,
/// and every bit after the last code is clear.
pub open spec fn packs<S: Alphabet>(bytes: Seq<u8>, syms: Seq<S>) -> bool {
    let w = S::bit_width();
    &&& bytes.len() == packed_len(syms.len(), w)
    &&& forall|i: int|
        0 <= i < syms.len() ==> bits_value(bytes, i * w, w) == (#[trigger] syms[i]).code() as nat
    &&& clear_from(bytes, (syms.len() * w) as int)
}

/// The first `n` slots of `bytes` read back as symbols, or the first code
/// that no symbol owns.
pub open spec fn unpacked<S: Alphabet>(bytes: Seq<u8>, n: nat) -> Result<Seq<S>, u8>
    decreases n,
{
    if n == 0 {
        Ok(Seq::empty())
    } else {
        match unpacked::<S>(bytes, (n - 1) as nat) {
            Err(c) => Err(c),
            Ok(prefix) => match S::of_code(code_at(bytes, n - 1, S::bit_width())) {
                Some(s) => Ok(prefix.push(s)),
                None => Err(code_at(bytes, n - 1, S::bit_width())),
            },
        }
    }
}

/// Unpacking what was packed gives the symbols back.
pub proof fn lemma_unpack_packed<S: Alphabet>(bytes: Seq<u8>, syms: Seq<S>, k: nat)
    requires
        packs(bytes, syms),
        k <= syms.len(),
    ensures
        unpacked::<S>(bytes, k) == Ok::<Seq<S>, u8>(syms.take(k as int)),
    decreases k,
{
    if k == 0 {
        assert(syms.take(0) =~= Seq::<S>::empty());
    } else {
        lemma_unpack_packed(bytes, syms, (k - 1) as nat);
        let s = syms[k - 1];
        S::lemma_code_inverse(s);
        assert(bits_value(bytes, (k - 1) * S::bit_width(), S::bit_width()) == s.code() as nat);
        assert(syms.take(k - 1).push(s) =~= syms.take(k as int));
    }
}

/// Once a code is rejected, reading further slots reports that same code.
proof fn lemma_unpacked_err_stays<S: Alphabet>(bytes: Seq<u8>, i: nat, n: nat)
    requires
        i <= n,
        unpacked::<S>(bytes, i) is Err,
    ensures
        unpacked::<S>(bytes, n) == unpacked::<S>(bytes, i),
    decreases n,
{
    if n > i {
        lemma_unpacked_err_stays::<S>(bytes, i, (n - 1) as nat);
    }
}

/// Packs the codes of `syms` into a fresh buffer.
pub fn pack_symbols<S: Alphabet>(syms: &Vec<S>) -> (r: Vec<u8>)
    requires
        syms@.len() <= u32::MAX,
    ensures
        packs(r@, syms@),
{
    let width = S::width();
    let n = syms.len();
    proof {
        assert(n * width <= 8 * 4294967295) by (nonlinear_arith)
            requires
                n <= 4294967295,
                width <= 8,
        ;
    }
    let total_bits: u64 = (n as u64) * (width as u64);
    let size: usize = ((total_bits + 7) / 8) as usize;
    let mut writer = BitWriter::new(size);
    let mut i: usize = 0;
    while i < n
        invariant
            writer.wf(),
            n == syms@.len(),
            n <= u32::MAX,
            1 <= width <= 8,
            width == S::bit_width(),
            i <= n,
            total_bits == n * width,
            size == packed_len(n as nat, width as nat),
            total_bits <= 8 * size,
            writer.bytes().len() == size,
            writer.pos() == i * width,
            forall|j: int|
                0 <= j < i ==> bits_value(writer.bytes(), j * width, width as nat) == (
                #[trigger] syms@[j]).code() as nat,
        decreases n - i,
    {
        let s = syms[i];
        let code = s.to_code();
        proof {
            S::lemma_code_inverse(s);
            assert((i + 1) * width <= n * width) by (nonlinear_arith)
                requires
                    i < n,
            ;
            assert((i + 1) * width == i * width + width) by (nonlinear_arith);
        }
        let ghost before = writer.bytes();
        writer.write(code, width);
        proof {
            assert forall|j: int| 0 <= j < i + 1 implies bits_value(
                writer.bytes(),
                j * width,
                width as nat,
            ) == (#[trigger] syms@[j]).code() as nat by {
                if j < i {
                    assert(j * width + width <= i * width) by (nonlinear_arith)
                        requires
                            j < i,
                    ;
                    lemma_bits_value_frame(writer.bytes(), before, j * width, width as nat);
                }
            }
            assert((i + 1) * width == i * width + width) by (nonlinear_arith);
        }
        i = i + 1;
    }
    writer.into_bytes()
}

/// Reads `count` symbols from `bytes`, stopping at the first code that no
/// symbol owns.
pub fn unpack_symbols<S: Alphabet>(bytes: &[u8], count: usize) -> (r: Result<Vec<S>, u8>)
    requires
        bytes@.len() == packed_len(count as nat, S::bit_width()),
        count <= u32::MAX,
    ensures
        match unpacked::<S>(bytes@, count as nat) {
            Ok(syms) => r matches Ok(v) && v@ == syms,
            Err(c) => r == Err::<Vec<S>, u8>(c),
        },
{
    let width = S::width();
    proof {
        assert(count * width <= 8 * bytes@.len() && bytes@.len() <= 4294967295) by (
        nonlinear_arith)
            requires
                bytes@.len() == (count * width + 7) / 8,
                count <= 4294967295,
                width <= 8,
        ;
    }
    let mut reader = BitReader::new(bytes);
    let mut out: Vec<S> = Vec::new();
    let mut i: usize = 0;
    while i < count
        invariant
            reader.wf(),
            reader.bytes() == bytes@,
            1 <= width <= 8,
            width == S::bit_width(),
            i <= count,
            count * width <= 8 * bytes@.len(),
            reader.pos() == i * width,
            unpacked::<S>(bytes@, i as nat) == Ok::<Seq<S>, u8>(out@),
        decreases count - i,
    {
        proof {
            assert((i + 1) * width <= count * width) by (nonlinear_arith)
                requires
                    i < count,
            ;
            assert((i + 1) * width == i * width + width) by (nonlinear_arith);
        }
        match reader.read_symbol::<S>() {
            Ok(s) => {
                out.push(s);
            },
            Err(c) => {
                proof {
                    lemma_unpacked_err_stays::<S>(bytes@, (i + 1) as nat, count as nat);
                }
                return Err(c);
            },
        }
        i = i + 1;
    }
    Ok(out)
}

} // verus!
