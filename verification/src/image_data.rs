use vstd::prelude::*;
use vstd::bytes::{
    lemma_auto_spec_u16_to_from_le_bytes, lemma_auto_spec_u64_to_from_le_bytes,
    spec_u16_from_le_bytes, spec_u16_to_le_bytes, spec_u64_from_le_bytes, spec_u64_to_le_bytes,
    u16_from_le_bytes, u16_to_le_bytes, u64_from_le_bytes, u64_to_le_bytes,
};

use crate::error::Error;

verus! {

/// The four bytes that open a memory-mapped image file: `img2`
pub open spec fn mmap_magic() -> Seq<u8> {
    seq![105u8, 109u8, 103u8, 50u8]
}

/// Header of a memory-mapped image file: the magic bytes, then the size of one value, the
/// width and the height as little-endian `u64`s, then the channel count as a little-endian
/// `u16`
pub open spec fn mmap_header(type_size: u64, width: u64, height: u64, channels: u16) -> Seq<u8> {
    mmap_magic() + spec_u64_to_le_bytes(type_size) + spec_u64_to_le_bytes(width)
        + spec_u64_to_le_bytes(height) + spec_u16_to_le_bytes(channels)
}

/// Length of the header of a memory-mapped image file, in bytes
pub fn mmap_header_len() -> (r: u64)
    ensures
        r == 30,
{
    4 + 8 + 8 + 8 + 2
}

/// Build the header of a memory-mapped image file holding `width` x `height` pixels of
/// `channels` values of `type_size` bytes; the channel count is stored in 16 bits
pub fn encode_mmap_header(type_size: usize, width: usize, height: usize, channels: usize) -> (r:
    Vec<u8>)
    ensures
        r@ == mmap_header(type_size as u64, width as u64, height as u64, channels as u16),
        r@.len() == 30,
{
    proof {
        lemma_auto_spec_u64_to_from_le_bytes();
        lemma_auto_spec_u16_to_from_le_bytes();
    }
    let mut r: Vec<u8> = Vec::new();
    r.push(105u8);
    r.push(109u8);
    r.push(103u8);
    r.push(50u8);
    let mut a = u64_to_le_bytes(type_size as u64);
    let mut b = u64_to_le_bytes(width as u64);
    let mut c = u64_to_le_bytes(height as u64);
    #[verifier::truncate]
    let ch = channels as u16;
    let mut d = u16_to_le_bytes(ch);
    r.append(&mut a);
    r.append(&mut b);
    r.append(&mut c);
    r.append(&mut d);
    assert(r@ =~= mmap_header(type_size as u64, width as u64, height as u64, channels as u16));
    r
}

/// The message of a header that ends before all its fields
pub open spec fn truncated_message() -> Seq<char> {
    "failed to fill whole buffer"@
}

/// The message of a header that does not start with the magic bytes
pub open spec fn bad_magic_message() -> Seq<char> {
    "invalid mmap header"@
}

/// `r` is an error described by the message `msg`
pub open spec fn fails_with_message(r: Result<(usize, usize), Error>, msg: Seq<char>) -> bool {
    r matches Err(Error::Message(m)) && m@ == msg
}

/// Read the header of a memory-mapped image file of values of `type_size` bytes and colors of
/// `channels` channels, giving the image's width and height. The fields are read in order and
/// the first failure is reported: a header cut short, wrong magic bytes, a different value
/// size, a different channel count
pub fn decode_mmap_header(bytes: &[u8], type_size: usize, channels: usize) -> (r: Result<
    (usize, usize),
    Error,
>)
    ensures
        bytes@.len() < 4 ==> fails_with_message(r, truncated_message()),
        bytes@.len() >= 4 && bytes@.subrange(0, 4) != mmap_magic() ==> fails_with_message(r, bad_magic_message()),
        bytes@.len() >= 4 && bytes@.subrange(0, 4) == mmap_magic() && bytes@.len() < 12 ==> fails_with_message(r, truncated_message()),
        bytes@.len() >= 12 && bytes@.subrange(0, 4) == mmap_magic() && spec_u64_from_le_bytes(
            bytes@.subrange(4, 12),
        ) != type_size ==> r matches Err(Error::InvalidType),
        bytes@.len() >= 12 && bytes@.subrange(0, 4) == mmap_magic() && spec_u64_from_le_bytes(
            bytes@.subrange(4, 12),
        ) == type_size && bytes@.len() < 30 ==> fails_with_message(r, truncated_message()),
        bytes@.len() >= 30 && bytes@.subrange(0, 4) == mmap_magic() && spec_u64_from_le_bytes(
            bytes@.subrange(4, 12),
        ) == type_size && spec_u16_from_le_bytes(bytes@.subrange(28, 30)) != channels ==> r matches Err(
            Error::InvalidType,
        ),
        bytes@.len() >= 30 && bytes@.subrange(0, 4) == mmap_magic() && spec_u64_from_le_bytes(
            bytes@.subrange(4, 12),
        ) == type_size && spec_u16_from_le_bytes(bytes@.subrange(28, 30)) == channels ==> r == Ok::<
            (usize, usize),
            Error,
        >(
            (
                spec_u64_from_le_bytes(bytes@.subrange(12, 20)) as usize,
                spec_u64_from_le_bytes(bytes@.subrange(20, 28)) as usize,
            ),
        ),
{
    let n = bytes.len();
    if n < 4 {
        return Err(Error::Message(String::from_str("failed to fill whole buffer")));
    }
    if !(bytes[0] == 105u8 && bytes[1] == 109u8 && bytes[2] == 103u8 && bytes[3] == 50u8) {
        assert(bytes@.subrange(0, 4) != mmap_magic()) by {
            if bytes@.subrange(0, 4) == mmap_magic() {
                assert(bytes@.subrange(0, 4)[0] == bytes@[0]);
                assert(bytes@.subrange(0, 4)[1] == bytes@[1]);
                assert(bytes@.subrange(0, 4)[2] == bytes@[2]);
                assert(bytes@.subrange(0, 4)[3] == bytes@[3]);
            }
        }
        return Err(Error::Message(String::from_str("invalid mmap header")));
    }
    assert(bytes@.subrange(0, 4) =~= mmap_magic());
    if n < 12 {
        return Err(Error::Message(String::from_str("failed to fill whole buffer")));
    }
    let size = u64_from_le_bytes(&bytes[4..12]);
    if size != type_size as u64 {
        return Err(Error::InvalidType);
    }
    if n < 30 {
        return Err(Error::Message(String::from_str("failed to fill whole buffer")));
    }
    let width = u64_from_le_bytes(&bytes[12..20]);
    let height = u64_from_le_bytes(&bytes[20..28]);
    let ch = u16_from_le_bytes(&bytes[28..30]);
    if ch as usize != channels {
        return Err(Error::InvalidType);
    }
    #[verifier::truncate]
    let w = width as usize;
    #[verifier::truncate]
    let h = height as usize;
    Ok((w, h))
}

/// Reading back the header written for an image gives the image's width and height: the
/// header round-trips whenever the channel count fits in 16 bits
pub proof fn law_mmap_header_round_trip(type_size: usize, width: usize, height: usize, channels: usize)
    requires
        channels <= u16::MAX,
    ensures
        ({
            let h = mmap_header(type_size as u64, width as u64, height as u64, channels as u16);
            &&& h.len() == 30
            &&& h.subrange(0, 4) == mmap_magic()
            &&& spec_u64_from_le_bytes(h.subrange(4, 12)) == type_size
            &&& spec_u16_from_le_bytes(h.subrange(28, 30)) == channels
            &&& spec_u64_from_le_bytes(h.subrange(12, 20)) as usize == width
            &&& spec_u64_from_le_bytes(h.subrange(20, 28)) as usize == height
        }),
{
    lemma_auto_spec_u64_to_from_le_bytes();
    lemma_auto_spec_u16_to_from_le_bytes();
    let h = mmap_header(type_size as u64, width as u64, height as u64, channels as u16);
    assert(h.subrange(0, 4) =~= mmap_magic());
    assert(h.subrange(4, 12) =~= spec_u64_to_le_bytes(type_size as u64));
    assert(h.subrange(12, 20) =~= spec_u64_to_le_bytes(width as u64));
    assert(h.subrange(20, 28) =~= spec_u64_to_le_bytes(height as u64));
    assert(h.subrange(28, 30) =~= spec_u16_to_le_bytes(channels as u16));
}

} // verus!
