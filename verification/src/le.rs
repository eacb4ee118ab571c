//! Fixed-width little-endian integer codec over byte buffers.
//!
//! `read_le` and `write_le` read and write a `u16`, `u32` or `u64` at a byte
//! offset of a buffer, failing with `BinaryError` when the requested range
//! does not lie inside the buffer.

use vstd::prelude::*;

verus! {

use vstd::arithmetic::div_mod::lemma_fundamental_div_mod;
use vstd::arithmetic::div_mod::lemma_div_denominator;

/// Errors that can occur when working with binary data.
#[derive(Debug, Clone, Copy, PartialEq, Eq, Structural)]
pub enum BinaryError {
    /// A byte range of the expected size does not fit in the source slice.
    BytesSliceSizeMismatch { expected: usize, from_offset: usize },
    /// The target slice of a write does not match the size of the source.
    WriteErrorSliceSizeMismatch { src: usize, target: usize },
}

/// An integer type with a fixed-width little-endian encoding.
pub trait LittleEndianInteger: Sized + Copy {
    /// Number of bytes in the encoding.
    spec fn byte_width() -> usize;

    /// The value denoted by a little-endian byte sequence of length `byte_width()`.
    spec fn decode(bytes: Seq<u8>) -> Self;

    /// The little-endian byte sequence of a value.
    spec fn encode(v: Self) -> Seq<u8>;

    /// Encoding a value and decoding it again yields the value back.
    proof fn lemma_encode_decode(v: Self)
        ensures
            Self::encode(v).len() == Self::byte_width(),
            Self::decode(Self::encode(v)) == v,
    ;

    /// Returns the number of bytes in the encoding.
    fn width() -> (n: usize)
        ensures
            n == Self::byte_width(),
    ;

    /// Decodes a value from a buffer holding exactly the encoding.
    fn from_le(source_bytes: &Vec<u8>) -> (r: Result<Self, BinaryError>)
        ensures
            match r {
                Ok(v) => source_bytes@.len() == Self::byte_width() && v == Self::decode(
                    source_bytes@,
                ),
                Err(e) => source_bytes@.len() != Self::byte_width() && e
                    == (BinaryError::BytesSliceSizeMismatch {
                    expected: Self::byte_width(),
                    from_offset: 0,
                }),
            },
    ;

    /// Encodes the value into a buffer of exactly the encoding's size.
    fn to_le(self, target_buffer: &mut Vec<u8>) -> (r: Result<(), BinaryError>)
        ensures
            match r {
                Ok(u) => old(target_buffer)@.len() == Self::byte_width()
                    && final(target_buffer)@ == Self::encode(self),
                Err(e) => old(target_buffer)@.len() != Self::byte_width() && final(target_buffer)@
                    == old(target_buffer)@ && e == (BinaryError::WriteErrorSliceSizeMismatch {
                    src: Self::byte_width(),
                    target: old(target_buffer)@.len() as usize,
                }),
            },
    ;
}

/// The integer denoted by two little-endian bytes.
pub open spec fn u16_of(lo: u8, hi: u8) -> int {
    lo as int + 256 * (hi as int)
}

/// The integer denoted by four little-endian bytes.
pub open spec fn u32_of(b0: u8, b1: u8, b2: u8, b3: u8) -> int {
    b0 as int + 256 * (b1 as int) + 65536 * (b2 as int) + 16777216 * (b3 as int)
}

/// The integer denoted by eight little-endian bytes.
pub open spec fn u64_of(s: Seq<u8>) -> int {
    s[0] as int + 256 * (s[1] as int) + 65536 * (s[2] as int) + 16777216 * (s[3] as int)
        + 4294967296 * (s[4] as int) + 1099511627776 * (s[5] as int) + 281474976710656 * (
    s[6] as int) + 72057594037927936 * (s[7] as int)
}

proof fn lemma_u16_reconstruct(v: u16)
    ensures
        (v as int) % 256 + 256 * ((v as int) / 256) == v as int,
        0 <= (v as int) % 256 < 256,
        0 <= (v as int) / 256 < 256,
{
    lemma_fundamental_div_mod(v as int, 256);
}

proof fn lemma_u32_reconstruct(v: u32)
    ensures
        (v as int) % 256 + 256 * (((v as int) / 256) % 256) + 65536 * (((v as int) / 65536) % 256)
            + 16777216 * ((v as int) / 16777216) == v as int,
        0 <= (v as int) % 256 < 256,
        0 <= ((v as int) / 256) % 256 < 256,
        0 <= ((v as int) / 65536) % 256 < 256,
        0 <= (v as int) / 16777216 < 256,
{
    let x = v as int;
    lemma_fundamental_div_mod(x, 256);
    lemma_fundamental_div_mod(x / 256, 256);
    lemma_fundamental_div_mod(x / 65536, 256);
    lemma_div_denominator(x, 256, 256);
    lemma_div_denominator(x, 65536, 256);
}

proof fn lemma_u64_reconstruct(v: u64)
    ensures
        (v as int) % 256 + 256 * (((v as int) / 256) % 256) + 65536 * (((v as int) / 65536) % 256)
            + 16777216 * (((v as int) / 16777216) % 256) + 4294967296 * (((v as int) / 4294967296)
            % 256) + 1099511627776 * (((v as int) / 1099511627776) % 256) + 281474976710656 * (((
        v as int) / 281474976710656) % 256) + 72057594037927936 * ((v as int) / 72057594037927936)
            == v as int,
        0 <= (v as int) % 256 < 256,
        0 <= ((v as int) / 256) % 256 < 256,
        0 <= ((v as int) / 65536) % 256 < 256,
        0 <= ((v as int) / 16777216) % 256 < 256,
        0 <= ((v as int) / 4294967296) % 256 < 256,
        0 <= ((v as int) / 1099511627776) % 256 < 256,
        0 <= ((v as int) / 281474976710656) % 256 < 256,
        0 <= (v as int) / 72057594037927936 < 256,
{
    let x = v as int;
    lemma_fundamental_div_mod(x, 256);
    lemma_fundamental_div_mod(x / 256, 256);
    lemma_fundamental_div_mod(x / 65536, 256);
    lemma_fundamental_div_mod(x / 16777216, 256);
    lemma_fundamental_div_mod(x / 4294967296, 256);
    lemma_fundamental_div_mod(x / 1099511627776, 256);
    lemma_fundamental_div_mod(x / 281474976710656, 256);
    lemma_div_denominator(x, 256, 256);
    lemma_div_denominator(x, 65536, 256);
    lemma_div_denominator(x, 16777216, 256);
    lemma_div_denominator(x, 4294967296, 256);
    lemma_div_denominator(x, 1099511627776, 256);
    lemma_div_denominator(x, 281474976710656, 256);
}

impl LittleEndianInteger for u16 {
    open spec fn byte_width() -> usize {
        2
    }

    open spec fn decode(bytes: Seq<u8>) -> u16 {
        u16_of(bytes[0], bytes[1]) as u16
    }

    open spec fn encode(v: u16) -> Seq<u8> {
        seq![((v as int) % 256) as u8, ((v as int) / 256) as u8]
    }

    proof fn lemma_encode_decode(v: u16) {
        lemma_u16_reconstruct(v);
    }

    fn width() -> (n: usize) {
        2
    }

    fn from_le(source_bytes: &Vec<u8>) -> (r: Result<u16, BinaryError>) {
        if source_bytes.len() != 2 {
            return Err(
                BinaryError::BytesSliceSizeMismatch { expected: 2, from_offset: 0 },
            );
        }
        let b0 = source_bytes[0];
        let b1 = source_bytes[1];
        Ok((b0 as u16) + (b1 as u16) * 256)
    }

    fn to_le(self, target_buffer: &mut Vec<u8>) -> (r: Result<(), BinaryError>) {
        if target_buffer.len() != 2 {
            return Err(
                BinaryError::WriteErrorSliceSizeMismatch {
                    src: 2,
                    target: target_buffer.len(),
                },
            );
        }
        proof {
            lemma_u16_reconstruct(self);
        }
        target_buffer[0] = (self % 256) as u8;
        target_buffer[1] = (self / 256) as u8;
        proof {
            assert(target_buffer@ =~= Self::encode(self));
        }
        Ok(())
    }
}

impl LittleEndianInteger for u32 {
    open spec fn byte_width() -> usize {
        4
    }

    open spec fn decode(bytes: Seq<u8>) -> u32 {
        u32_of(bytes[0], bytes[1], bytes[2], bytes[3]) as u32
    }

    open spec fn encode(v: u32) -> Seq<u8> {
        seq![
            ((v as int) % 256) as u8,
            (((v as int) / 256) % 256) as u8,
            (((v as int) / 65536) % 256) as u8,
            ((v as int) / 16777216) as u8,
        ]
    }

    proof fn lemma_encode_decode(v: u32) {
        lemma_u32_reconstruct(v);
    }

    fn width() -> (n: usize) {
        4
    }

    fn from_le(source_bytes: &Vec<u8>) -> (r: Result<u32, BinaryError>) {
        if source_bytes.len() != 4 {
            return Err(
                BinaryError::BytesSliceSizeMismatch { expected: 4, from_offset: 0 },
            );
        }
        let b0 = source_bytes[0];
        let b1 = source_bytes[1];
        let b2 = source_bytes[2];
        let b3 = source_bytes[3];
        Ok(
            (b0 as u32) + (b1 as u32) * 256 + (b2 as u32) * 65536 + (b3 as u32) * 16777216,
        )
    }

    fn to_le(self, target_buffer: &mut Vec<u8>) -> (r: Result<(), BinaryError>) {
        if target_buffer.len() != 4 {
            return Err(
                BinaryError::WriteErrorSliceSizeMismatch {
                    src: 4,
                    target: target_buffer.len(),
                },
            );
        }
        proof {
            lemma_u32_reconstruct(self);
        }
        target_buffer[0] = (self % 256) as u8;
        target_buffer[1] = ((self / 256) % 256) as u8;
        target_buffer[2] = ((self / 65536) % 256) as u8;
        target_buffer[3] = (self / 16777216) as u8;
        proof {
            assert(target_buffer@ =~= Self::encode(self));
        }
        Ok(())
    }
}

impl LittleEndianInteger for u64 {
    open spec fn byte_width() -> usize {
        8
    }

    open spec fn decode(bytes: Seq<u8>) -> u64 {
        u64_of(bytes) as u64
    }

    open spec fn encode(v: u64) -> Seq<u8> {
        seq![
            ((v as int) % 256) as u8,
            (((v as int) / 256) % 256) as u8,
            (((v as int) / 65536) % 256) as u8,
            (((v as int) / 16777216) % 256) as u8,
            (((v as int) / 4294967296) % 256) as u8,
            (((v as int) / 1099511627776) % 256) as u8,
            (((v as int) / 281474976710656) % 256) as u8,
            ((v as int) / 72057594037927936) as u8,
        ]
    }

    proof fn lemma_encode_decode(v: u64) {
        lemma_u64_reconstruct(v);
    }

    fn width() -> (n: usize) {
        8
    }

    fn from_le(source_bytes: &Vec<u8>) -> (r: Result<u64, BinaryError>) {
        if source_bytes.len() != 8 {
            return Err(
                BinaryError::BytesSliceSizeMismatch { expected: 8, from_offset: 0 },
            );
        }
        let b0 = source_bytes[0];
        let b1 = source_bytes[1];
        let b2 = source_bytes[2];
        let b3 = source_bytes[3];
        let b4 = source_bytes[4];
        let b5 = source_bytes[5];
        let b6 = source_bytes[6];
        let b7 = source_bytes[7];
        Ok(
            (b0 as u64) + (b1 as u64) * 256 + (b2 as u64) * 65536 + (b3 as u64) * 16777216 + (
            b4 as u64) * 4294967296 + (b5 as u64) * 1099511627776 + (b6 as u64) * 281474976710656
                + (b7 as u64) * 72057594037927936,
        )
    }

    fn to_le(self, target_buffer: &mut Vec<u8>) -> (r: Result<(), BinaryError>) {
        if target_buffer.len() != 8 {
            return Err(
                BinaryError::WriteErrorSliceSizeMismatch {
                    src: 8,
                    target: target_buffer.len(),
                },
            );
        }
        proof {
            lemma_u64_reconstruct(self);
        }
        target_buffer[0] = (self % 256) as u8;
        target_buffer[1] = ((self / 256) % 256) as u8;
        target_buffer[2] = ((self / 65536) % 256) as u8;
        target_buffer[3] = ((self / 16777216) % 256) as u8;
        target_buffer[4] = ((self / 4294967296) % 256) as u8;
        target_buffer[5] = ((self / 1099511627776) % 256) as u8;
        target_buffer[6] = ((self / 281474976710656) % 256) as u8;
        target_buffer[7] = (self / 72057594037927936) as u8;
        proof {
            assert(target_buffer@ =~= Self::encode(self));
        }
        Ok(())
    }
}

/// Reads a value of type `T` from a byte buffer in little-endian format,
/// starting at `start_offset`.
///
/// Returns `BytesSliceSizeMismatch` when the range
/// `start_offset .. start_offset + T::byte_width()` does not lie inside the
/// buffer.
pub fn read_le<T: LittleEndianInteger>(bytes: &Vec<u8>, start_offset: usize) -> (r: Result<
    T,
    BinaryError,
>)
    ensures
        match r {
            Ok(v) => start_offset + T::byte_width() <= bytes@.len() && v == T::decode(
                bytes@.subrange(start_offset as int, start_offset + T::byte_width()),
            ),
            Err(e) => start_offset + T::byte_width() > bytes@.len() && e
                == (BinaryError::BytesSliceSizeMismatch {
                expected: T::byte_width(),
                from_offset: start_offset,
            }),
        },
{
    let w = T::width();
    if bytes.len() < w || start_offset > bytes.len() - w {
        return Err(
            BinaryError::BytesSliceSizeMismatch { expected: w, from_offset: start_offset },
        );
    }
    let mut sub: Vec<u8> = Vec::new();
    let mut i: usize = 0;
    while i < w
        invariant
            i <= w,
            start_offset + w <= bytes.len(),
            sub@ =~= bytes@.subrange(start_offset as int, start_offset + i),
        decreases w - i,
    {
        sub.push(bytes[start_offset + i]);
        i = i + 1;
    }
    match T::from_le(&sub) {
        Ok(v) => Ok(v),
        Err(e) => Err(e),
    }
}

/// Writes a value of type `T` into a byte buffer in little-endian format,
/// starting at `start_offset`.
///
/// Returns `BytesSliceSizeMismatch` when the range
/// `start_offset .. start_offset + T::byte_width()` does not lie inside the
/// buffer; the buffer is then unchanged.
pub fn write_le<T: LittleEndianInteger>(
    bytes: &mut Vec<u8>,
    start_offset: usize,
    value: T,
) -> (r: Result<(), BinaryError>)
    ensures
        match r {
            Ok(u) => start_offset + T::byte_width() <= old(bytes)@.len() && final(bytes)@.len()
                == old(bytes)@.len() && final(bytes)@.subrange(
                start_offset as int,
                start_offset + T::byte_width(),
            ) == T::encode(value) && forall|i: int|
                0 <= i < final(bytes)@.len() && !(start_offset <= i < start_offset
                    + T::byte_width()) ==> final(bytes)@[i] == old(bytes)@[i],
            Err(e) => start_offset + T::byte_width() > old(bytes)@.len()
                && final(bytes)@ == old(bytes)@ && e == (BinaryError::BytesSliceSizeMismatch {
                expected: T::byte_width(),
                from_offset: start_offset,
            }),
        },
{
    let w = T::width();
    if bytes.len() < w || start_offset > bytes.len() - w {
        return Err(
            BinaryError::BytesSliceSizeMismatch { expected: w, from_offset: start_offset },
        );
    }
    let mut tmp: Vec<u8> = Vec::new();
    let mut i: usize = 0;
    while i < w
        invariant
            i <= w,
            tmp@.len() == i,
        decreases w - i,
    {
        tmp.push(0u8);
        i = i + 1;
    }
    match value.to_le(&mut tmp) {
        Ok(u) => {
            proof {
                T::lemma_encode_decode(value);
            }
            let mut j: usize = 0;
            while j < w
                invariant
                    j <= w,
                    tmp@ == T::encode(value),
                    tmp@.len() == w,
                    start_offset + w <= bytes.len(),
                    bytes@.len() == old(bytes)@.len(),
                    forall|i: int|
                        0 <= i < bytes@.len() && !(start_offset <= i < start_offset + j)
                            ==> bytes@[i] == old(bytes)@[i],
                    forall|k: int| 0 <= k < j ==> bytes@[start_offset + k] == tmp@[k],
                decreases w - j,
            {
                bytes[start_offset + j] = tmp[j];
                j = j + 1;
            }
            proof {
                assert(bytes@.subrange(start_offset as int, start_offset + T::byte_width())
                    =~= T::encode(value));
            }
            Ok(())
        },
        Err(e) => Err(e),
    }
}

} // verus!
