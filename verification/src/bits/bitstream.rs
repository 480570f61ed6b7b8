//! A cursor over a byte buffer that hands out bits, most significant first.

use crate::error::Error;
use vstd::arithmetic::power2::{lemma2_to64, lemma_pow2_strictly_increases, lemma_pow2_unfold, pow2};
use vstd::bits::lemma_u64_shl_is_mul;
use vstd::prelude::*;

verus! {

/// Bit `i` of `bytes`, counted from the most significant bit of the first byte.
#[verifier::opaque]
pub open spec fn bit_at(bytes: Seq<u8>, i: int) -> nat {
    (bytes[i / 8] as nat / pow2((7 - i % 8) as nat)) % 2
}

/// The unsigned number written by the `n` bits that start at bit `pos`,
/// most significant bit first.
#[verifier::opaque]
pub open spec fn bits_value(bytes: Seq<u8>, pos: int, n: nat) -> nat
    decreases n,
{
    if n == 0 {
        0
    } else {
        2 * bits_value(bytes, pos, (n - 1) as nat) + bit_at(bytes, pos + n - 1)
    }
}

/// The `n`-bit number at `pos`, as a header field holds it.
pub open spec fn field(bytes: Seq<u8>, pos: int, n: nat) -> u64 {
    bits_value(bytes, pos, n) as u64
}

/// Whether the bit at `pos` is set.
pub open spec fn flag(bytes: Seq<u8>, pos: int) -> bool {
    bit_at(bytes, pos) == 1
}

/// `n` if `present`, else nothing: the width of a field that is read only
/// under a condition.
pub open spec fn width_if(present: bool, n: nat) -> nat {
    if present {
        n
    } else {
        0
    }
}

/// An `n`-bit number is below `2^n`.
pub proof fn lemma_bits_value_bound(bytes: Seq<u8>, pos: int, n: nat)
    ensures
        bits_value(bytes, pos, n) < pow2(n),
    decreases n,
{
    reveal(bits_value);
    reveal(bit_at);
    if n == 0 {
        lemma2_to64();
    } else {
        lemma_bits_value_bound(bytes, pos, (n - 1) as nat);
        lemma_pow2_unfold(n);
    }
}

/// The `i`-th group of eight bits after bit `pos`.
pub open spec fn group_at(bytes: Seq<u8>, pos: int, i: nat) -> nat {
    bits_value(bytes, pos + 8 * i, 8)
}

/// The number of groups that the LEB128 value at `pos` takes, counted from
/// its group `i` on as if the groups before it all asked for more: it ends
/// with the first group whose top bit is clear, and with its eighth group
/// at the latest.
pub open spec fn leb128_len_from(bytes: Seq<u8>, pos: int, i: nat) -> nat
    decreases 8 - i,
{
    if i >= 7 || group_at(bytes, pos, i) < 128 {
        i + 1
    } else {
        leb128_len_from(bytes, pos, i + 1)
    }
}

/// The number that the groups of a LEB128 value write from group `i` on:
/// the low seven bits of each group, the first group the least significant.
pub open spec fn leb128_value_from(bytes: Seq<u8>, pos: int, i: nat) -> nat
    decreases 8 - i,
{
    let low = group_at(bytes, pos, i) % 128;
    if i >= 7 || group_at(bytes, pos, i) < 128 {
        low
    } else {
        low + 128 * leb128_value_from(bytes, pos, i + 1)
    }
}

/// The number of bytes of the LEB128 value at bit `pos`: 1 to 8.
pub open spec fn leb128_len(bytes: Seq<u8>, pos: int) -> nat {
    leb128_len_from(bytes, pos, 0)
}

/// The LEB128 value at bit `pos`.
pub open spec fn leb128_value(bytes: Seq<u8>, pos: int) -> nat {
    leb128_value_from(bytes, pos, 0)
}

/// Whether the last byte of the LEB128 value at bit `pos` has its top bit
/// clear. It has not where eight bytes were not enough.
pub open spec fn leb128_terminated(bytes: Seq<u8>, pos: int) -> bool {
    group_at(bytes, pos, (leb128_len(bytes, pos) - 1) as nat) < 128
}

/// A LEB128 value takes at least one byte more than the groups before it,
/// and at most eight.
pub proof fn lemma_leb128_len_from(bytes: Seq<u8>, pos: int, i: nat)
    requires
        i < 8,
    ensures
        i < leb128_len_from(bytes, pos, i) <= 8,
    decreases 8 - i,
{
    if !(i >= 7 || group_at(bytes, pos, i) < 128) {
        lemma_leb128_len_from(bytes, pos, i + 1);
    }
}

/// The number of 0 bits from bit `pos` up to the next 1 bit or the end of
/// the buffer.
pub open spec fn leading_zeros(bytes: Seq<u8>, pos: int) -> nat
    decreases 8 * bytes.len() - pos,
{
    if pos < 0 || pos >= 8 * bytes.len() || bit_at(bytes, pos) == 1 {
        0
    } else {
        1 + leading_zeros(bytes, pos + 1)
    }
}

/// Where the universal variable length code at bit `pos` ends: after its
/// leading zeros, the 1 bit that ends them, and as many more bits as there
/// were zeros, if these were fewer than 32. Where the zeros run to the end
/// of the buffer, the 1 bit that would end them lies past that end.
pub open spec fn uvlc_end(bytes: Seq<u8>, pos: int) -> int {
    let zeros = leading_zeros(bytes, pos);
    pos + zeros + 1 + width_if(zeros < 32 && pos + zeros < 8 * bytes.len(), zeros)
}

/// The value of the universal variable length code at bit `pos`: with `k`
/// leading zeros, `2^k - 1` plus the number in the `k` bits after the 1
/// bit; `0xFFFF_FFFF` where `k` is 32 or more.
pub open spec fn uvlc_value(bytes: Seq<u8>, pos: int) -> u64 {
    let zeros = leading_zeros(bytes, pos);
    if zeros >= 32 {
        0xFFFF_FFFF
    } else {
        (pow2(zeros) - 1 + bits_value(bytes, pos + zeros + 1, zeros)) as u64
    }
}

/// Shifting a byte right by `shift` and keeping the lowest bit divides by
/// `2^shift` and takes the remainder modulo two.
proof fn lemma_shifted_bit(byte: u8, shift: u8)
    requires
        shift < 8,
    ensures
        ((byte >> shift) & 1) as nat == (byte as nat / pow2(shift as nat)) % 2,
{
    let bit = (byte >> shift) & 1;
    let b = byte as nat;
    lemma2_to64();
    assert(bit == if shift == 0 {
        byte % 2
    } else if shift == 1 {
        (byte / 2) % 2
    } else if shift == 2 {
        (byte / 4) % 2
    } else if shift == 3 {
        (byte / 8) % 2
    } else if shift == 4 {
        (byte / 16) % 2
    } else if shift == 5 {
        (byte / 32) % 2
    } else if shift == 6 {
        (byte / 64) % 2
    } else {
        (byte / 128) % 2
    }) by (bit_vector)
        requires
            shift < 8,
            bit == (byte >> shift) & 1,
    ;
    if shift == 0 {
        assert(b / pow2(0) == b / 1);
    } else if shift == 1 {
        assert(b / pow2(1) == b / 2);
    } else if shift == 2 {
        assert(b / pow2(2) == b / 4);
    } else if shift == 3 {
        assert(b / pow2(3) == b / 8);
    } else if shift == 4 {
        assert(b / pow2(4) == b / 16);
    } else if shift == 5 {
        assert(b / pow2(5) == b / 32);
    } else if shift == 6 {
        assert(b / pow2(6) == b / 64);
    } else {
        assert(b / pow2(7) == b / 128);
    }
}

/// What a stream remembers of the LEB128 value it read last.
pub struct Leb128Record {
    /// The number of bytes that the value took.
    pub bytes: nat,
    /// Whether the value ended within its eight bytes.
    pub terminated: bool,
}

/// A byte buffer with a cursor that counts bits from the most significant
/// bit of the first byte. The cursor only moves forward, and never past the
/// end of the buffer.
pub struct BitStream {
    bits: Vec<u8>,
    position: usize,
    leb_128_bytes: u64,
    leb_128_terminated: bool,
}

impl View for BitStream {
    type V = Seq<u8>;

    closed spec fn view(&self) -> Seq<u8> {
        self.bits@
    }
}

impl BitStream {
    /// What holds of every bit stream: the cursor is within the buffer or at
    /// its end.
    #[verifier::type_invariant]
    pub closed spec fn in_bounds(&self) -> bool {
        self.position <= 8 * self.bits@.len() <= usize::MAX
    }

    /// The cursor: the index of the next bit to be read.
    pub closed spec fn pos(&self) -> int {
        self.position as int
    }

    /// What the stream remembers of the LEB128 value it read last; before
    /// the first such value, no bytes and an orderly end.
    pub closed spec fn record(&self) -> Leb128Record {
        Leb128Record { bytes: self.leb_128_bytes as nat, terminated: self.leb_128_terminated }
    }

    /// The number of bytes that the most recent LEB128 value took.
    pub open spec fn leb128_bytes(&self) -> nat {
        self.record().bytes
    }

    /// Whether the most recent LEB128 value ended within its eight bytes.
    pub open spec fn leb128_terminated(&self) -> bool {
        self.record().terminated
    }

    /// What `self` remembers of the most recent LEB128 value is what
    /// `before` remembers.
    pub open spec fn same_leb128(&self, before: &BitStream) -> bool {
        self.record() == before.record()
    }

    /// What a decoder owes whose layout puts `value` in the bits from the
    /// cursor of `before` up to bit `end`: that value and the cursor at `end`
    /// if the buffer reaches that far, and `EndOfStream` if it does not. The
    /// buffer is never changed and the cursor never moves backwards.
    pub open spec fn decoded<T>(&self, before: &BitStream, r: Result<T, Error>, value: T, end: int) -> bool {
        &&& self@ == before@
        &&& self.same_leb128(before)
        &&& 0 <= before.pos() <= self.pos() <= 8 * before@.len()
        &&& match r {
            Ok(v) => v == value && self.pos() == end,
            Err(e) => e == Error::EndOfStream && end > 8 * before@.len(),
        }
    }

    /// The cursor is within the buffer or at its end.
    pub proof fn lemma_in_bounds(&self)
        requires
            self.in_bounds(),
        ensures
            0 <= self.pos() <= 8 * self@.len(),
    {
    }

    /// A stream over `bits`, with the cursor at its first bit.
    pub fn new(bits: Vec<u8>) -> (s: BitStream)
        requires
            bits.len() <= usize::MAX / 8,
        ensures
            s@ == bits@,
            s.pos() == 0,
            s.leb128_bytes() == 0,
            s.leb128_terminated(),
    {
        BitStream { bits, position: 0, leb_128_bytes: 0, leb_128_terminated: true }
    }

    /// The cursor: the index of the next bit to be read.
    pub fn position(&self) -> (p: usize)
        ensures
            p == self.pos(),
            p <= 8 * self@.len() <= usize::MAX,
    {
        proof {
            use_type_invariant(self);
        }
        self.position
    }

    /// The number of bits in the buffer.
    pub fn bit_len(&self) -> (n: u64)
        ensures
            n == 8 * self@.len(),
    {
        proof {
            use_type_invariant(self);
        }
        (8 * self.bits.len()) as u64
    }

    /// Whether any bit is left to be read.
    pub fn more_data_in_bitstream(&self) -> (more: bool)
        ensures
            more == (self.pos() < 8 * self@.len()),
    {
        proof {
            use_type_invariant(self);
        }
        self.position < 8 * self.bits.len()
    }

    /// The number of bytes that the most recent LEB128 value took.
    pub fn leb_128_bytes(&self) -> (n: u64)
        ensures
            n == self.leb128_bytes(),
    {
        self.leb_128_bytes
    }

    /// Whether the most recent LEB128 value ended within its eight bytes.
    pub fn leb_128_terminated(&self) -> (t: bool)
        ensures
            t == self.leb128_terminated(),
    {
        self.leb_128_terminated
    }

    /// Moves the cursor `n` bits ahead.
    pub fn skip(&mut self, n: u64) -> (r: Result<(), Error>)
        ensures
            final(self).decoded(old(self), r, (), old(self).pos() + n),
            r is Err ==> final(self).pos() == old(self).pos(),
    {
        proof {
            use_type_invariant(&*self);
        }
        if n > (8 * self.bits.len() - self.position) as u64 {
            return Err(Error::EndOfStream);
        }
        self.position += n as usize;
        Ok(())
    }

    /// Reads one bit.
    pub fn read_bit(&mut self) -> (r: Result<u8, Error>)
        ensures
            final(self)@ == old(self)@,
            final(self).same_leb128(old(self)),
            0 <= final(self).pos() <= 8 * old(self)@.len(),
            match r {
                Ok(bit) => {
                    &&& old(self).pos() < 8 * old(self)@.len()
                    &&& bit <= 1
                    &&& bit == bit_at(old(self)@, old(self).pos())
                    &&& final(self).pos() == old(self).pos() + 1
                },
                Err(e) => {
                    &&& e == Error::EndOfStream
                    &&& old(self).pos() >= 8 * old(self)@.len()
                    &&& final(self).pos() == old(self).pos()
                },
            },
    {
        proof {
            use_type_invariant(&*self);
        }
        if self.position / 8 >= self.bits.len() {
            return Err(Error::EndOfStream);
        }
        let byte: u8 = self.bits[self.position / 8];
        let shift: u8 = 7 - (self.position % 8) as u8;
        let bit: u8 = (byte >> shift) & 1;
        proof {
            reveal(bit_at);
            lemma_shifted_bit(byte, shift);
        }
        self.position += 1;
        Ok(bit)
    }

    /// Reads one bit as a flag.
    pub fn flag(&mut self) -> (r: Result<bool, Error>)
        ensures
            final(self).decoded(old(self), r, flag(old(self)@, old(self).pos()), old(self).pos() + 1),
            r is Err ==> final(self).pos() == old(self).pos(),
    {
        Ok(self.read_bit()? != 0)
    }

    /// Reads `n` bits as an unsigned number, most significant bit first.
    pub fn f(&mut self, n: u64) -> (r: Result<u64, Error>)
        requires
            n <= 64,
        ensures
            final(self).decoded(
                old(self),
                r,
                field(old(self)@, old(self).pos(), n as nat),
                old(self).pos() + n,
            ),
            r is Ok ==> r->Ok_0 == bits_value(old(self)@, old(self).pos(), n as nat),
            r is Ok ==> r->Ok_0 < pow2(n as nat),
            r is Err ==> final(self).pos() == old(self).pos(),
    {
        proof {
            use_type_invariant(&*self);
        }
        if n > (8 * self.bits.len() - self.position) as u64 {
            return Err(Error::EndOfStream);
        }
        let ghost start = self.pos();
        let ghost bytes = self@;
        proof {
            reveal(bits_value);
        }
        let mut x: u64 = 0;
        let mut i: u64 = 0;
        while i < n
            invariant
                i <= n <= 64,
                self@ == bytes,
                self.pos() == start + i,
                self.same_leb128(old(self)),
                start + n <= 8 * bytes.len(),
                x == bits_value(bytes, start, i as nat),
            decreases n - i,
        {
            proof {
                reveal(bits_value);
                lemma_bits_value_bound(bytes, start, i as nat);
                lemma2_to64();
                lemma_pow2_unfold((i + 1) as nat);
                if i < 63 {
                    lemma_pow2_strictly_increases((i + 1) as nat, 64);
                }
            }
            match self.read_bit() {
                Ok(bit) => {
                    x = 2 * x + bit as u64;
                },
                Err(e) => {
                    return Err(e);
                },
            }
            i += 1;
        }
        proof {
            lemma_bits_value_bound(bytes, start, n as nat);
        }
        Ok(x)
    }

    /// Reads a LEB128 value: up to eight bytes, each giving its low seven
    /// bits, the first byte the least significant, up to and including the
    /// first byte whose top bit is clear. The stream remembers how many
    /// bytes the value took and whether the eighth still asked for more.
    pub fn leb128(&mut self) -> (r: Result<u64, Error>)
        ensures
            final(self)@ == old(self)@,
            0 <= old(self).pos() <= final(self).pos() <= 8 * old(self)@.len(),
            match r {
                Ok(value) => {
                    &&& value == leb128_value(old(self)@, old(self).pos())
                    &&& final(self).pos() == old(self).pos() + 8 * leb128_len(
                        old(self)@,
                        old(self).pos(),
                    )
                    &&& final(self).leb128_bytes() == leb128_len(old(self)@, old(self).pos())
                    &&& 1 <= leb128_len(old(self)@, old(self).pos()) <= 8
                    &&& final(self).leb128_terminated() == leb128_terminated(
                        old(self)@,
                        old(self).pos(),
                    )
                    &&& value < 0x100_0000_0000_0000
                },
                Err(e) => {
                    &&& e == Error::EndOfStream
                    &&& old(self).pos() + 8 * leb128_len(old(self)@, old(self).pos()) > 8 * old(
                        self,
                    )@.len()
                    &&& final(self).same_leb128(old(self))
                    &&& final(self).pos() == old(self).pos()
                },
            },
    {
        proof {
            use_type_invariant(&*self);
        }
        let ghost bytes = self@;
        let ghost start = self.pos();
        let origin = self.position;
        let mut value: u64 = 0;
        let mut scale: u64 = 1;
        let mut count: u64 = 0;
        let mut more = true;
        while more && count < 8
            invariant
                self@ == bytes,
                bytes == old(self)@,
                start == old(self).pos(),
                start == origin,
                self.same_leb128(old(self)),
                0 <= start,
                self.pos() == start + 8 * count <= 8 * bytes.len() <= usize::MAX,
                count <= 8,
                scale == scale_of(count as nat),
                value < scale,
                more && count < 8 ==> leb128_value(bytes, start) == value + scale * leb128_value_from(
                    bytes,
                    start,
                    count as nat,
                ) && leb128_len(bytes, start) == leb128_len_from(bytes, start, count as nat),
                !more || count == 8 ==> leb128_value(bytes, start) == value && leb128_len(
                    bytes,
                    start,
                ) == count && count >= 1 && more == (group_at(bytes, start, (count - 1) as nat)
                    >= 128),
            decreases 8 - count,
        {
            proof {
                lemma_leb128_len_from(bytes, start, count as nat);
                lemma_scale_of(count as nat);
                lemma_scale_of((count + 1) as nat);
            }
            let byte = match self.f(8) {
                Ok(byte) => byte,
                Err(e) => {
                    self.position = origin;
                    return Err(e);
                },
            };
            proof {
                lemma2_to64();
                let rest = leb128_value_from(bytes, start, (count + 1) as nat);
                let low = (byte % 128) as int;
                assert(value + scale * (low + 128 * rest) == (value + low * scale) + (scale * 128)
                    * rest) by (nonlinear_arith);
                assert(scale * low == low * scale) by (nonlinear_arith);
                assert(low * scale <= 127 * scale) by (nonlinear_arith)
                    requires
                        0 <= low <= 127,
                        scale >= 0,
                ;
            }
            value = value + (byte % 128) * scale;
            scale = scale * 128;
            count = count + 1;
            more = byte >= 128;
        }
        proof {
            lemma_scale_of(count as nat);
        }
        self.leb_128_bytes = count;
        self.leb_128_terminated = !more;
        Ok(value)
    }

    /// Reads a value in the universal variable length code: `k` zeros, a
    /// one, and `k` more bits that write a number `v`, for `2^k - 1 + v`.
    /// With 32 zeros or more nothing is read after the one, and the value
    /// is `0xFFFF_FFFF`.
    pub fn uvlc(&mut self) -> (r: Result<u64, Error>)
        ensures
            final(self).decoded(
                old(self),
                r,
                uvlc_value(old(self)@, old(self).pos()),
                uvlc_end(old(self)@, old(self).pos()),
            ),
            r is Err ==> final(self).pos() == old(self).pos(),
    {
        proof {
            use_type_invariant(&*self);
        }
        let ghost bytes = self@;
        let ghost start = self.pos();
        let origin = self.position;
        let mut zeros: u64 = 0;
        let mut done = false;
        while !done
            invariant
                self@ == bytes,
                bytes == old(self)@,
                start == old(self).pos(),
                start == origin,
                self.same_leb128(old(self)),
                0 <= start <= self.pos() <= 8 * bytes.len() <= usize::MAX,
                !done ==> self.pos() == start + zeros && leading_zeros(bytes, start) == zeros
                    + leading_zeros(bytes, self.pos()),
                done ==> self.pos() == start + zeros + 1 && leading_zeros(bytes, start) == zeros,
            decreases 8 * bytes.len() - self.pos(),
        {
            let bit = match self.read_bit() {
                Ok(bit) => bit,
                Err(e) => {
                    self.position = origin;
                    return Err(e);
                },
            };
            if bit == 1 {
                done = true;
            } else {
                zeros = zeros + 1;
            }
        }
        if zeros >= 32 {
            return Ok(0xFFFF_FFFF);
        }
        let literal = match self.f(zeros) {
            Ok(literal) => literal,
            Err(e) => {
                self.position = origin;
                return Err(e);
            },
        };
        proof {
            lemma2_to64();
            lemma_pow2_strictly_increases(zeros as nat, 32);
            lemma_u64_shl_is_mul(1, zeros);
        }
        Ok((1u64 << zeros) - 1 + literal)
    }
}

/// 128 to the power of `n`: the weight of group `n` of a LEB128 value.
pub open spec fn scale_of(n: nat) -> nat
    decreases n,
{
    if n == 0 {
        1
    } else {
        128 * scale_of((n - 1) as nat)
    }
}

/// The weights of the groups that a LEB128 value can have.
proof fn lemma_scale_of(n: nat)
    requires
        n <= 8,
    ensures
        n > 0 ==> scale_of(n) == 128 * scale_of((n - 1) as nat),
        1 <= scale_of(n) <= 0x100_0000_0000_0000,
        n == 8 ==> scale_of(n) == 0x100_0000_0000_0000,
        n <= 7 ==> scale_of(n) <= 0x2_0000_0000_0000,
{
    reveal_with_fuel(scale_of, 9);
}

/// A byte is the sum of its bits, each with its weight.
proof fn lemma_byte_of_bits(byte: u8)
    ensures
        byte == ((byte / 128) % 2) * 128 + ((byte / 64) % 2) * 64 + ((byte / 32) % 2) * 32 + ((byte
            / 16) % 2) * 16 + ((byte / 8) % 2) * 8 + ((byte / 4) % 2) * 4 + ((byte / 2) % 2) * 2
            + (byte % 2),
{
    assert(byte == ((byte / 128) % 2) * 128 + ((byte / 64) % 2) * 64 + ((byte / 32) % 2) * 32 + ((
    byte / 16) % 2) * 16 + ((byte / 8) % 2) * 8 + ((byte / 4) % 2) * 4 + ((byte / 2) % 2) * 2 + (
    byte % 2)) by (bit_vector);
}

/// Bit `t` of byte `j`, counted from the most significant.
proof fn lemma_bit_of_byte(bytes: Seq<u8>, j: int, t: nat)
    requires
        0 <= j,
        t < 8,
    ensures
        bit_at(bytes, 8 * j + t) == (bytes[j] as nat / pow2((7 - t) as nat)) % 2,
{
    reveal(bit_at);
    assert((8 * j + t) / 8 == j);
    assert((8 * j + t) % 8 == t);
}

/// The eight bits of a byte, read as a number, are the byte.
pub proof fn lemma_aligned_group(bytes: Seq<u8>, j: int)
    requires
        0 <= j < bytes.len(),
    ensures
        bits_value(bytes, 8 * j, 8) == bytes[j],
{
    let byte = bytes[j];
    let p = 8 * j;
    let b0 = bit_at(bytes, p);
    let b1 = bit_at(bytes, p + 1);
    let b2 = bit_at(bytes, p + 2);
    let b3 = bit_at(bytes, p + 3);
    let b4 = bit_at(bytes, p + 4);
    let b5 = bit_at(bytes, p + 5);
    let b6 = bit_at(bytes, p + 6);
    let b7 = bit_at(bytes, p + 7);
    assert(bits_value(bytes, p, 8) == b0 * 128 + b1 * 64 + b2 * 32 + b3 * 16 + b4 * 8 + b5 * 4 + b6
        * 2 + b7) by {
        reveal_with_fuel(bits_value, 9);
    }
    lemma2_to64();
    lemma_bit_of_byte(bytes, j, 0);
    lemma_bit_of_byte(bytes, j, 1);
    lemma_bit_of_byte(bytes, j, 2);
    lemma_bit_of_byte(bytes, j, 3);
    lemma_bit_of_byte(bytes, j, 4);
    lemma_bit_of_byte(bytes, j, 5);
    lemma_bit_of_byte(bytes, j, 6);
    lemma_bit_of_byte(bytes, j, 7);
    assert(byte as nat / pow2(0) == byte as nat / 1);
    assert(b7 == byte % 2);
    assert(b6 == (byte / 2) % 2);
    assert(b5 == (byte / 4) % 2);
    assert(b4 == (byte / 8) % 2);
    assert(b3 == (byte / 16) % 2);
    assert(b2 == (byte / 32) % 2);
    assert(b1 == (byte / 64) % 2);
    assert(b0 == (byte / 128) % 2);
    lemma_byte_of_bits(byte);
}

/// The standard LEB128 encoding of `v`: its low seven bits in a byte, with
/// the top bit set if more follows, and then the encoding of the rest.
pub open spec fn leb128_encoding(v: nat) -> Seq<u8>
    decreases v,
{
    if v < 128 {
        seq![v as u8]
    } else {
        seq![(v % 128 + 128) as u8] + leb128_encoding(v / 128)
    }
}

/// Whether `bytes` holds the sequence `part` from index `at` on.
pub open spec fn holds_at(bytes: Seq<u8>, at: int, part: Seq<u8>) -> bool {
    &&& 0 <= at
    &&& at + part.len() <= bytes.len()
    &&& forall|j: int| 0 <= j < part.len() ==> bytes[at + j] == #[trigger] part[j]
}

proof fn lemma_round_trip_from(bytes: Seq<u8>, k: int, v: nat, i: nat)
    requires
        i < 8,
        v < scale_of((8 - i) as nat),
        holds_at(bytes, k + i, leb128_encoding(v)),
    ensures
        leb128_value_from(bytes, 8 * k, i) == v,
        leb128_len_from(bytes, 8 * k, i) == i + leb128_encoding(v).len(),
        group_at(bytes, 8 * k, (i + leb128_encoding(v).len() - 1) as nat) < 128,
    decreases 8 - i,
{
    let code = leb128_encoding(v);
    assert(bytes[k + i + 0] == code[0]);
    lemma_aligned_group(bytes, k + i);
    assert(group_at(bytes, 8 * k, i) == bytes[k + i]);
    lemma_scale_of((8 - i) as nat);
    if v >= 128 {
        let rest = leb128_encoding(v / 128);
        assert(code == seq![(v % 128 + 128) as u8] + rest);
        assert(i < 7);
        lemma_scale_of((7 - i) as nat);
        assert(holds_at(bytes, k + i + 1, rest)) by {
            assert forall|j: int| 0 <= j < rest.len() implies bytes[k + i + 1 + j]
                == #[trigger] rest[j] by {
                assert(code[j + 1] == rest[j]);
            }
        }
        lemma_round_trip_from(bytes, k, v / 128, i + 1);
    }
}

/// A number below `2^56`, written in LEB128 from byte `k` of a buffer on,
/// is read back from there as it was, with the number of bytes that its
/// encoding has, which is between 1 and 8, and as a value that ends in
/// order.
pub proof fn lemma_leb128_round_trip(bytes: Seq<u8>, k: int, v: nat)
    requires
        v < 0x100_0000_0000_0000,
        holds_at(bytes, k, leb128_encoding(v)),
    ensures
        leb128_value(bytes, 8 * k) == v,
        leb128_len(bytes, 8 * k) == leb128_encoding(v).len(),
        1 <= leb128_encoding(v).len() <= 8,
        leb128_terminated(bytes, 8 * k),
{
    lemma_scale_of(8);
    lemma_round_trip_from(bytes, k, v, 0);
    lemma_leb128_len_from(bytes, 8 * k, 0);
}

/// Where `k` bits from bit `pos` on are 0 and the bit after them is 1, the
/// universal variable length code at `pos` has `k` leading zeros: its
/// value is `2^k - 1` plus the number in the `k` bits after the 1 bit, or
/// `0xFFFF_FFFF` where `k` is 32 or more.
pub proof fn lemma_uvlc_pattern(bytes: Seq<u8>, pos: int, k: nat)
    requires
        0 <= pos,
        pos + k < 8 * bytes.len(),
        forall|i: int| pos <= i < pos + k ==> bit_at(bytes, i) == 0,
        bit_at(bytes, pos + k) == 1,
    ensures
        leading_zeros(bytes, pos) == k,
        uvlc_value(bytes, pos) == if k >= 32 {
            0xFFFF_FFFFu64
        } else {
            (pow2(k) - 1 + bits_value(bytes, pos + k + 1, k)) as u64
        },
        uvlc_end(bytes, pos) == if k >= 32 {
            pos + k + 1
        } else {
            pos + 2 * k + 1
        },
    decreases k,
{
    if k > 0 {
        lemma_uvlc_pattern(bytes, pos + 1, (k - 1) as nat);
    }
}

} // verus!
