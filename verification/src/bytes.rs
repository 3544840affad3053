//! Little-endian fields, as the three container formats store them.

use crate::source::{read_exact, same_source, span, ByteSource, IoError};
use vstd::prelude::*;

verus! {

/// The number that `bytes` spell, least significant byte first.
pub open spec fn le_value(bytes: Seq<u8>) -> nat
    decreases bytes.len(),
{
    if bytes.len() == 0 {
        0
    } else {
        bytes[0] as nat + 256 * le_value(bytes.skip(1))
    }
}

/// The little-endian number in the `n` bytes of `data` at offset `at`.
pub open spec fn field(data: Seq<u8>, at: nat, n: nat) -> nat {
    le_value(span(data, at, n))
}

/// The number of bytes in a sector.
pub const SECTOR: u64 = 0x200;

/// The number of bytes in `count` sectors.
pub fn sectors_to_bytes(count: u32) -> (bytes: u64)
    ensures
        bytes == count * 0x200,
{
    count as u64 * SECTOR
}

/// The byte count that the sector count in the four bytes at `at` stands for.
pub open spec fn sectors(data: Seq<u8>, at: nat) -> nat {
    field(data, at, 4) * 0x200
}

/// What reading `n` bytes at offset `at` of `data` can fail on: a source that
/// is not dependable, or data that ends too early.
pub open spec fn read_fails(data: Seq<u8>, dependable: bool, at: nat, n: nat) -> bool {
    !dependable || data.len() < at + n
}

/// A number of two bytes.
pub proof fn lemma_le_value_2(b: Seq<u8>)
    requires
        b.len() == 2,
    ensures
        le_value(b) == b[0] + 256 * b[1],
{
    reveal_with_fuel(le_value, 3);
    assert(b.skip(1)[0] == b[1]);
}

/// A number of four bytes.
pub proof fn lemma_le_value_4(b: Seq<u8>)
    requires
        b.len() == 4,
    ensures
        le_value(b) == b[0] + 256 * (b[1] + 256 * (b[2] + 256 * b[3])),
{
    reveal_with_fuel(le_value, 5);
    let b1 = b.skip(1);
    let b2 = b1.skip(1);
    let b3 = b2.skip(1);
    assert(b1[0] == b[1] && b2[0] == b[2] && b3[0] == b[3]);
}

/// A number of eight bytes is two numbers of four.
pub proof fn lemma_le_value_8(b: Seq<u8>)
    requires
        b.len() == 8,
    ensures
        le_value(b) == le_value(b.take(4)) + 0x1_0000_0000 * le_value(b.skip(4)),
{
    reveal_with_fuel(le_value, 5);
    let lo = b.take(4);
    let hi = b.skip(4);
    lemma_le_value_4(lo);
    lemma_le_value_4(hi);
    let b1 = b.skip(1);
    let b2 = b1.skip(1);
    let b3 = b2.skip(1);
    let b4 = b3.skip(1);
    assert(b4 =~= hi);
    assert(b1[0] == b[1] && b2[0] == b[2] && b3[0] == b[3]);
    assert(lo[0] == b[0] && lo[1] == b[1] && lo[2] == b[2] && lo[3] == b[3]);
}

/// The `u16` that two bytes spell.
pub fn u16_from_le(b: &[u8; 2]) -> (v: u16)
    ensures
        v == le_value(b@),
{
    proof {
        lemma_le_value_2(b@);
    }
    b[0] as u16 + 256 * (b[1] as u16)
}

/// The `u32` that four bytes spell.
pub fn u32_from_le(b: &[u8; 4]) -> (v: u32)
    ensures
        v == le_value(b@),
{
    proof {
        lemma_le_value_4(b@);
    }
    b[0] as u32 + 256 * (b[1] as u32 + 256 * (b[2] as u32 + 256 * (b[3] as u32)))
}

/// The `u64` that eight bytes spell.
pub fn u64_from_le(b: &[u8; 8]) -> (v: u64)
    ensures
        v == le_value(b@),
{
    proof {
        lemma_le_value_8(b@);
        lemma_le_value_4(b@.take(4));
        lemma_le_value_4(b@.skip(4));
    }
    let lo: u64 = b[0] as u64 + 256 * (b[1] as u64 + 256 * (b[2] as u64 + 256 * (b[3] as u64)));
    let hi: u64 = b[4] as u64 + 256 * (b[5] as u64 + 256 * (b[6] as u64 + 256 * (b[7] as u64)));
    lo + 0x1_0000_0000 * hi
}

/// Reads the next two bytes of `file`.
pub fn read_2<T: ByteSource>(file: &mut T) -> (r: Result<[u8; 2], IoError>)
    requires
        old(file).wf(),
    ensures
        same_source(old(file), final(file)),
        r is Ok ==> final(file).wf(),
        old(file).modeled() ==> match r {
            Ok(b) => {
                &&& final(file).position() == old(file).position() + 2
                &&& old(file).position() + 2 <= old(file).bytes().len()
                &&& b@ == span(old(file).bytes(), old(file).position(), 2)
            },
            Err(_) => read_fails(old(file).bytes(), old(file).dependable(), old(file).position(), 2),
        },
{
    let mut buffer = [0u8;2];
    match read_exact(file, &mut buffer) {
        Ok(_) => Ok(buffer),
        Err(e) => Err(e),
    }
}

/// Reads the next four bytes of `file`.
pub fn read_4<T: ByteSource>(file: &mut T) -> (r: Result<[u8; 4], IoError>)
    requires
        old(file).wf(),
    ensures
        same_source(old(file), final(file)),
        r is Ok ==> final(file).wf(),
        old(file).modeled() ==> match r {
            Ok(b) => {
                &&& final(file).position() == old(file).position() + 4
                &&& old(file).position() + 4 <= old(file).bytes().len()
                &&& b@ == span(old(file).bytes(), old(file).position(), 4)
            },
            Err(_) => read_fails(old(file).bytes(), old(file).dependable(), old(file).position(), 4),
        },
{
    let mut buffer = [0u8;4];
    match read_exact(file, &mut buffer) {
        Ok(_) => Ok(buffer),
        Err(e) => Err(e),
    }
}

/// Reads the next eight bytes of `file`.
pub fn read_8<T: ByteSource>(file: &mut T) -> (r: Result<[u8; 8], IoError>)
    requires
        old(file).wf(),
    ensures
        same_source(old(file), final(file)),
        r is Ok ==> final(file).wf(),
        old(file).modeled() ==> match r {
            Ok(b) => {
                &&& final(file).position() == old(file).position() + 8
                &&& old(file).position() + 8 <= old(file).bytes().len()
                &&& b@ == span(old(file).bytes(), old(file).position(), 8)
            },
            Err(_) => read_fails(old(file).bytes(), old(file).dependable(), old(file).position(), 8),
        },
{
    let mut buffer = [0u8;8];
    match read_exact(file, &mut buffer) {
        Ok(_) => Ok(buffer),
        Err(e) => Err(e),
    }
}

/// All of the bytes are zero.
pub fn is_zeroed(b: &[u8; 8]) -> (r: bool)
    ensures
        r == (b@ == seq![0u8, 0u8, 0u8, 0u8, 0u8, 0u8, 0u8, 0u8]),
{
    let r = b[0] == 0 && b[1] == 0 && b[2] == 0 && b[3] == 0 && b[4] == 0 && b[5] == 0 && b[6] == 0
        && b[7] == 0;
    proof {
        let z = seq![0u8, 0u8, 0u8, 0u8, 0u8, 0u8, 0u8, 0u8];
        if r {
            assert(b@ =~= z);
        } else {
            assert(z[0] == 0 && z[1] == 0 && z[2] == 0 && z[3] == 0 && z[4] == 0 && z[5] == 0
                && z[6] == 0 && z[7] == 0);
        }
    }
    r
}

/// The four bytes are the given ones.
pub fn is_magic(b: &[u8; 4], magic: &[u8; 4]) -> (r: bool)
    ensures
        r == (b@ == magic@),
{
    let r = b[0] == magic[0] && b[1] == magic[1] && b[2] == magic[2] && b[3] == magic[3];
    proof {
        if r {
            assert(b@ =~= magic@);
        }
    }
    r
}

} // verus!
