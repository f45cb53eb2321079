//! Reading and writing a few bits at a time over a byte buffer.
//!
//! Bits are addressed by an absolute offset: bit `p` is bit `7 - p % 8`
//! (counting from the least significant) of byte `p / 8`, so that a value is
//! laid out most significant bit first.
use vstd::prelude::*;
use crate::alphabet::Alphabet;
use vstd::arithmetic::power2::{pow2, lemma_pow2_unfold, lemma2_to64, lemma_pow2_strictly_increases};

verus! {

/// The bit at absolute offset `p`.
pub open spec fn bit_at(bytes: Seq<u8>, p: int) -> bool {
    (bytes[p / 8] >> ((7 - p % 8) as u8)) & 1 == 1
}

/// The number whose binary digits, most significant first, are the `n` bits
/// starting at offset `start`.
pub open spec fn bits_value(bytes: Seq<u8>, start: int, n: nat) -> nat
    decreases n,
{
    if n == 0 {
        0
    } else {
        2 * bits_value(bytes, start, (n - 1) as nat) + (if bit_at(bytes, start + n - 1) {
            1nat
        } else {
            0nat
        })
    }
}

/// Every bit from offset `from` to the end of the buffer is clear.
pub open spec fn clear_from(bytes: Seq<u8>, from: int) -> bool {
    forall|p: int| from <= p < 8 * bytes.len() ==> !#[trigger] bit_at(bytes, p)
}

/// The value of `n` bits depends on those bits alone.
pub proof fn lemma_bits_value_frame(a: Seq<u8>, b: Seq<u8>, start: int, n: nat)
    requires
        forall|p: int| start <= p < start + n ==> bit_at(a, p) == bit_at(b, p),
    ensures
        bits_value(a, start, n) == bits_value(b, start, n),
    decreases n,
{
    if n > 0 {
        lemma_bits_value_frame(a, b, start, (n - 1) as nat);
    }
}

/// `n` bits hold a value below `2^n`.
pub proof fn lemma_bits_value_bound(bytes: Seq<u8>, start: int, n: nat)
    ensures
        bits_value(bytes, start, n) < pow2(n),
    decreases n,
{
    if n > 0 {
        lemma_bits_value_bound(bytes, start, (n - 1) as nat);
        lemma_pow2_unfold(n);
    } else {
        lemma2_to64();
    }
}

proof fn lemma_set_bit(x: u8, k: u8, j: u8, b: u8) by (bit_vector)
    requires
        k < 8,
        j < 8,
        b <= 1,
        (x >> (7 - k) as u8) & 1 != 1,
    ensures
        ((x | (b << (7 - k) as u8)) >> (7 - j) as u8) & 1 == if j == k {
            b
        } else {
            (x >> (7 - j) as u8) & 1
        },
{
}

proof fn lemma_shift_step(v: u16, k: u16)
    requires
        k < 8,
        v < 256,
    ensures
        (v >> (k + 1) as u16) as nat * 2 + ((v >> k) & 1) as nat == (v >> k) as nat,
        (v >> k) & 1 == ((v as u8) >> (k as u8)) & 1,
{
    assert((v >> (k + 1) as u16) * 2 + ((v >> k) & 1) == v >> k
        && (v >> (k + 1) as u16) <= 127
        && (v >> k) & 1 == ((v as u8) >> (k as u8)) & 1) by (bit_vector)
        requires
            k < 8,
            v < 256,
    ;
}

proof fn lemma_shift_out(v: u16, n: u16)
    requires
        n <= 8,
        v < (1u16 << n),
    ensures
        v >> n == 0,
        v >> 0u16 == v,
{
    assert(v >> n == 0 && v >> 0u16 == v) by (bit_vector)
        requires
            n <= 8,
            v < (1u16 << n),
    ;
}

/// Writes bits into a zeroed buffer that it owns, from offset 0 on.
pub struct BitWriter {
    buffer: Vec<u8>,
    cursor: u64,
}

impl BitWriter {
    /// The buffer's contents.
    pub closed spec fn bytes(&self) -> Seq<u8> {
        self.buffer@
    }

    /// The offset of the next bit to write.
    pub closed spec fn pos(&self) -> nat {
        self.cursor as nat
    }

    /// The cursor lies within the buffer and no bit from it on is set yet.
    pub closed spec fn wf(&self) -> bool {
        &&& self.cursor <= 8 * self.buffer@.len()
        &&& 8 * self.buffer@.len() <= u64::MAX
        &&& clear_from(self.buffer@, self.cursor as int)
    }

    /// A writer over `len` zero bytes.
    pub fn new(len: usize) -> (w: Self)
        requires
            len <= u64::MAX / 8,
        ensures
            w.wf(),
            w.pos() == 0,
            w.bytes() == Seq::new(len as nat, |i: int| 0u8),
    {
        let buffer: Vec<u8> = vec![0u8; len];
        let w = BitWriter { buffer, cursor: 0 };
        assert forall|p: int| 0 <= p < 8 * w.buffer@.len() implies !#[trigger] bit_at(
            w.buffer@,
            p,
        ) by {
            assert(w.buffer@[p / 8] == 0u8);
            let s: u8 = (7 - p % 8) as u8;
            assert(((0u8 >> s) & 1) == 0) by (bit_vector);
        }
        w
    }

    /// Writes the `num_bits` bits of `value`, most significant first.
    pub fn write(&mut self, value: u8, num_bits: usize)
        requires
            old(self).wf(),
            num_bits <= 8,
            (value as u16) < (1u16 << num_bits as u16),
            old(self).pos() + num_bits <= 8 * old(self).bytes().len(),
        ensures
            final(self).wf(),
            final(self).pos() == old(self).pos() + num_bits,
            final(self).bytes().len() == old(self).bytes().len(),
            forall|p: int|
                0 <= p < old(self).pos() ==> bit_at(final(self).bytes(), p) == bit_at(
                    old(self).bytes(),
                    p,
                ),
            bits_value(final(self).bytes(), old(self).pos() as int, num_bits as nat)
                == value as nat,
    {
        let ghost start = self.cursor as int;
        let ghost orig = self.buffer@;
        let ghost wide = value as u16;
        proof {
            lemma_shift_out(wide, num_bits as u16);
        }
        let mut i: usize = 0;
        while i < num_bits
            invariant
                self.wf(),
                num_bits <= 8,
                i <= num_bits,
                wide == value as u16,
                0 <= start,
                self.cursor == start + i,
                start + num_bits <= 8 * self.buffer@.len(),
                self.buffer@.len() == orig.len(),
                forall|p: int| 0 <= p < start ==> bit_at(self.buffer@, p) == bit_at(orig, p),
                bits_value(self.buffer@, start, i as nat) == (wide >> (num_bits - i) as u16) as nat,
                wide >> 0u16 == wide,
            decreases num_bits - i,
        {
            let k: u8 = (num_bits - 1 - i) as u8;
            let bit: u8 = (value >> k) & 1;
            let len = self.buffer.len();
            assert(self.cursor / 8 < len);
            let byte_idx = (self.cursor / 8) as usize;
            let bit_idx: u8 = (self.cursor % 8) as u8;
            let ghost before = self.buffer@;
            let old_byte = self.buffer[byte_idx];
            proof {
                assert(!bit_at(before, self.cursor as int));
                assert((bit as u8) <= 1) by (bit_vector)
                    requires
                        bit == (value >> k) & 1,
                ;
            }
            self.buffer.set(byte_idx, old_byte | (bit << (7 - bit_idx)));
            self.cursor = self.cursor + 1;
            proof {
                let after = self.buffer@;
                let c = start + i;
                assert forall|p: int| 0 <= p < 8 * after.len() && p != c implies bit_at(after, p)
                    == bit_at(before, p) by {
                    if p / 8 == byte_idx {
                        lemma_set_bit(old_byte, bit_idx, (p % 8) as u8, bit);
                    }
                }
                assert(bit_at(after, c) == (bit == 1)) by {
                    lemma_set_bit(old_byte, bit_idx, bit_idx, bit);
                }
                assert forall|p: int| start <= p < start + i implies bit_at(after, p) == bit_at(
                    before,
                    p,
                ) by {
                    assert(0 <= p < 8 * after.len() && p != c);
                }
                lemma_bits_value_frame(after, before, start, i as nat);
                lemma_shift_step(wide, k as u16);
            }
            i = i + 1;
        }
    }

    /// Hands back the buffer.
    pub fn into_bytes(self) -> (r: Vec<u8>)
        requires
            self.wf(),
        ensures
            r@ == self.bytes(),
            clear_from(r@, self.pos() as int),
    {
        self.buffer
    }
}

/// Reads bits from a borrowed buffer, from offset 0 on.
pub struct BitReader<'a> {
    buffer: &'a [u8],
    cursor: u64,
}

impl<'a> BitReader<'a> {
    /// The buffer's contents.
    pub closed spec fn bytes(&self) -> Seq<u8> {
        self.buffer@
    }

    /// The offset of the next bit to read.
    pub closed spec fn pos(&self) -> nat {
        self.cursor as nat
    }

    /// The cursor lies within the buffer, and every offset fits in 64 bits.
    pub closed spec fn wf(&self) -> bool {
        &&& self.cursor <= 8 * self.buffer@.len()
        &&& 8 * self.buffer@.len() <= u64::MAX
    }

    /// A reader at the start of `buffer`.
    pub fn new(buffer: &'a [u8]) -> (r: Self)
        requires
            buffer@.len() <= u64::MAX / 8,
        ensures
            r.wf(),
            r.pos() == 0,
            r.bytes() == buffer@,
    {
        BitReader { buffer, cursor: 0 }
    }

    /// Reads `num_bits` bits as a number, most significant bit first.
    pub fn read(&mut self, num_bits: usize) -> (r: u8)
        requires
            old(self).wf(),
            num_bits <= 8,
            old(self).pos() + num_bits <= 8 * old(self).bytes().len(),
        ensures
            final(self).wf(),
            final(self).bytes() == old(self).bytes(),
            final(self).pos() == old(self).pos() + num_bits,
            r as nat == bits_value(old(self).bytes(), old(self).pos() as int, num_bits as nat),
    {
        let ghost start = self.cursor as int;
        let ghost orig = self.buffer@;
        let mut result: u8 = 0;
        let mut i: usize = 0;
        while i < num_bits
            invariant
                self.wf(),
                num_bits <= 8,
                i <= num_bits,
                0 <= start,
                self.cursor == start + i,
                start + num_bits <= 8 * self.buffer@.len(),
                self.buffer@ == orig,
                result as nat == bits_value(self.buffer@, start, i as nat),
            decreases num_bits - i,
        {
            let len = self.buffer.len();
            assert(self.cursor / 8 < len);
            let byte_idx = (self.cursor / 8) as usize;
            let bit_idx: u8 = (self.cursor % 8) as u8;
            let byte = self.buffer[byte_idx];
            let bit: u8 = (byte >> (7 - bit_idx)) & 1;
            proof {
                assert(bit <= 1) by (bit_vector)
                    requires
                        bit == (byte >> (7 - bit_idx) as u8) & 1,
                ;
                lemma_bits_value_bound(self.buffer@, start, i as nat);
                lemma2_to64();
                if i < 7 {
                    lemma_pow2_strictly_increases(i as nat, 7);
                }
            }
            result = result * 2 + bit;
            self.cursor = self.cursor + 1;
            i = i + 1;
        }
        result
    }

    /// Reads one code of the alphabet `S` and looks up its symbol; the code
    /// itself is the error when no symbol owns it.
    pub fn read_symbol<S: Alphabet>(&mut self) -> (r: Result<S, u8>)
        requires
            old(self).wf(),
            old(self).pos() + S::bit_width() <= 8 * old(self).bytes().len(),
        ensures
            final(self).wf(),
            final(self).bytes() == old(self).bytes(),
            final(self).pos() == old(self).pos() + S::bit_width(),
            ({
                let code = bits_value(old(self).bytes(), old(self).pos() as int, S::bit_width())
                    as u8;
                r == match S::of_code(code) {
                    Some(s) => Ok::<S, u8>(s),
                    None => Err(code),
                }
            }),
    {
        let width = S::width();
        let code = self.read(width);
        S::from_code(code)
    }

    /// Reads `num_bytes` whole bytes; the cursor must sit on a byte boundary.
    pub fn read_bytes(&mut self, num_bytes: usize) -> (r: Vec<u8>)
        requires
            old(self).wf(),
            old(self).pos() % 8 == 0,
            old(self).pos() / 8 + num_bytes <= old(self).bytes().len(),
        ensures
            final(self).wf(),
            final(self).bytes() == old(self).bytes(),
            final(self).pos() == old(self).pos() + 8 * num_bytes,
            r@ == old(self).bytes().subrange(
                (old(self).pos() / 8) as int,
                old(self).pos() / 8 + num_bytes,
            ),
    {
        let len = self.buffer.len();
        assert(self.cursor / 8 <= len);
        let first = (self.cursor / 8) as usize;
        let ghost orig = self.buffer@;
        let mut result: Vec<u8> = Vec::with_capacity(num_bytes);
        let mut i: usize = 0;
        while i < num_bytes
            invariant
                self.wf(),
                i <= num_bytes,
                first + num_bytes <= self.buffer@.len(),
                self.buffer@.len() == len,
                self.cursor == 8 * (first + i),
                self.buffer@ == orig,
                result@ == self.buffer@.subrange(first as int, first + i),
            decreases num_bytes - i,
        {
            result.push(self.buffer[first + i]);
            self.cursor = self.cursor + 8;
            i = i + 1;
            assert(result@ =~= self.buffer@.subrange(first as int, first + i));
        }
        result
    }

    /// The number of whole bytes from the cursor's byte to the end.
    pub fn remaining(&self) -> (r: usize)
        requires
            self.wf(),
        ensures
            r == self.bytes().len() - self.pos() / 8,
    {
        let len = self.buffer.len();
        assert(self.cursor / 8 <= len);
        len - (self.cursor / 8) as usize
    }

    /// Whether no byte is left at the cursor; a record that ends on the
    /// buffer's last byte is thus read whole before the scan stops.
    pub fn at_end(&self) -> (r: bool)
        requires
            self.wf(),
        ensures
            r == (self.pos() / 8 >= self.bytes().len()),
    {
        self.cursor / 8 >= self.buffer.len() as u64
    }
}

} // verus!
