//! The container: a payload framed by two magic sequences and two length
//! fields, so that a reader finds it from the end of a file whose leading
//! bytes it knows nothing about.

use vstd::prelude::*;
use vstd::slice::{slice_subrange, slice_to_vec};
use crate::error::{bytes_result, DataError};
use crate::wire::{be64, be64_value, decode_be64, encode_be64, lemma_be64_value_of_be64};

verus! {

/// The bytes `NEUTFSv01`, which open a container.
pub const MAGIC_NUMBER_START: [u8; 9] = [0x4e, 0x45, 0x55, 0x54, 0x46, 0x53, 0x76, 0x30, 0x31];

/// The bytes `NEUTFSEnd`, which close a container and with it the file.
pub const MAGIC_NUMBER_END: [u8; 9] = [0x4e, 0x45, 0x55, 0x54, 0x46, 0x53, 0x45, 0x6e, 0x64];

/// The largest payload that is framed or read back: 100 MiB.
pub const PAYLOAD_LIMIT: usize = 104857600;

/// What a container adds to its payload: two magic sequences and two length
/// fields.
pub const FRAME_OVERHEAD: usize = 34;

/// The container that holds payload `p`.
pub open spec fn framed(p: Seq<u8>) -> Seq<u8> {
    MAGIC_NUMBER_START@ + be64(p.len() as u64) + p + be64((p.len() + FRAME_OVERHEAD) as u64)
        + MAGIC_NUMBER_END@
}

/// What a reader finds that works from the end of `file` backwards: the last
/// nine bytes must be the end magic; the eight bytes before them give the
/// length of the container, which must lead back to a start magic inside the
/// file; the eight bytes after that magic declare the payload's length, and
/// that many bytes follow.
pub open spec fn locate_spec(file: Seq<u8>) -> Result<Seq<u8>, DataError> {
    let size = file.len() as int;
    if size < 9 || file.subrange(size - 9, size) != MAGIC_NUMBER_END@ {
        Err(DataError::EndMagicNotFound)
    } else if size < 17 {
        Err(DataError::Truncated)
    } else {
        let total = be64_value(file.subrange(size - 17, size - 9));
        let start = size - total;
        if total < 9 || total > size || file.subrange(start, start + 9) != MAGIC_NUMBER_START@ {
            Err(DataError::StartMagicNotFound)
        } else if total < 17 {
            Err(DataError::Truncated)
        } else {
            let declared = be64_value(file.subrange(start + 9, start + 17));
            if declared > PAYLOAD_LIMIT {
                Err(DataError::SizeLimit)
            } else if start + 17 + declared > size {
                Err(DataError::Truncated)
            } else {
                Ok(file.subrange(start + 17, start + 17 + declared))
            }
        }
    }
}

/// Appends `src` to `out`.
fn append_bytes(out: &mut Vec<u8>, src: &[u8])
    ensures
        final(out)@ == old(out)@ + src@,
{
    out.extend_from_slice(src);
    assert(out@ =~= old(out)@ + src@);
}

/// What [`frame`] returns for payload `p`: its container, unless `p` is
/// longer than [`PAYLOAD_LIMIT`].
pub open spec fn frame_spec(p: Seq<u8>) -> Result<Seq<u8>, DataError> {
    if p.len() > PAYLOAD_LIMIT {
        Err(DataError::SizeLimit)
    } else {
        Ok(framed(p))
    }
}

/// Frames `payload` as a container, ready to be appended to a host image or
/// to stand alone. Fails with [`DataError::SizeLimit`], before anything is
/// copied, exactly when the payload is longer than [`PAYLOAD_LIMIT`].
pub fn frame(payload: &[u8]) -> (r: Result<Vec<u8>, DataError>)
    ensures
        bytes_result(r) == frame_spec(payload@),
{
    let n = payload.len();
    if n > PAYLOAD_LIMIT {
        return Err(DataError::SizeLimit);
    }
    let total = n + FRAME_OVERHEAD;
    let mut out: Vec<u8> = Vec::with_capacity(total);
    append_bytes(&mut out, MAGIC_NUMBER_START.as_slice());
    append_bytes(&mut out, encode_be64(n as u64).as_slice());
    append_bytes(&mut out, payload);
    append_bytes(&mut out, encode_be64(total as u64).as_slice());
    append_bytes(&mut out, MAGIC_NUMBER_END.as_slice());
    Ok(out)
}

/// Whether the nine bytes of `file` that start at `at` are `magic`.
fn holds_at(file: &[u8], at: usize, magic: &[u8; 9]) -> (b: bool)
    requires
        at + 9 <= file@.len(),
    ensures
        b == (file@.subrange(at as int, at + 9) == magic@),
{
    let size = file.len();
    let mut i: usize = 0;
    while i < 9
        invariant
            i <= 9,
            at + 9 <= size == file@.len(),
            forall|k: int| 0 <= k < i ==> file@[at + k] == magic@[k],
        decreases 9 - i,
    {
        if file[at + i] != magic[i] {
            assert(file@.subrange(at as int, at + 9)[i as int] != magic@[i as int]);
            return false;
        }
        i += 1;
    }
    assert(file@.subrange(at as int, at + 9) =~= magic@);
    true
}

/// Finds the container at the end of `file` and returns a copy of its
/// payload. Whatever precedes the container is never looked at. A payload
/// that is declared longer than [`PAYLOAD_LIMIT`] is refused before it is
/// copied.
pub fn locate(file: &[u8]) -> (r: Result<Vec<u8>, DataError>)
    ensures
        bytes_result(r) == locate_spec(file@),
{
    let size = file.len();
    if size < 9 || !holds_at(file, size - 9, &MAGIC_NUMBER_END) {
        return Err(DataError::EndMagicNotFound);
    }
    if size < 17 {
        return Err(DataError::Truncated);
    }
    let total = decode_be64(file, size - 17);
    if total < 9 || total > size as u64 {
        return Err(DataError::StartMagicNotFound);
    }
    let start = size - total as usize;
    if !holds_at(file, start, &MAGIC_NUMBER_START) {
        return Err(DataError::StartMagicNotFound);
    }
    if total < 17 {
        return Err(DataError::Truncated);
    }
    let declared = decode_be64(file, start + 9);
    if declared > PAYLOAD_LIMIT as u64 {
        return Err(DataError::SizeLimit);
    }
    let from = start + 17;
    if declared as usize > size - from {
        return Err(DataError::Truncated);
    }
    Ok(slice_to_vec(slice_subrange(file, from, from + declared as usize)))
}

/// A container is found again behind any host image: for every payload `p`
/// within the limit and every byte string `host`, locating in `host`
/// followed by the container of `p` yields exactly `p`.
pub proof fn lemma_locate_framed(host: Seq<u8>, p: Seq<u8>)
    requires
        p.len() <= PAYLOAD_LIMIT,
    ensures
        locate_spec(host + framed(p)) == Ok::<Seq<u8>, DataError>(p),
{
    let file = host + framed(p);
    let size = file.len() as int;
    let n = p.len() as int;
    let h = host.len() as int;
    lemma_be64_value_of_be64(n as u64);
    lemma_be64_value_of_be64((n + 34) as u64);
    assert(size == h + n + 34);
    assert(file.subrange(size - 9, size) =~= MAGIC_NUMBER_END@);
    assert(file.subrange(size - 17, size - 9) =~= be64((n + 34) as u64));
    assert(file.subrange(h, h + 9) =~= MAGIC_NUMBER_START@);
    assert(file.subrange(h + 9, h + 17) =~= be64(n as u64));
    assert(file.subrange(h + 17, h + 17 + n) =~= p);
}

/// A container whose first length field declares more than the limit is
/// refused as too large, whatever follows that field and whatever precedes
/// the container.
pub proof fn lemma_locate_refuses_oversized(host: Seq<u8>, declared: u64, body: Seq<u8>)
    requires
        declared > PAYLOAD_LIMIT,
        body.len() + FRAME_OVERHEAD <= u64::MAX,
    ensures
        locate_spec(
            host + MAGIC_NUMBER_START@ + be64(declared) + body + be64(
                (body.len() + FRAME_OVERHEAD) as u64,
            ) + MAGIC_NUMBER_END@,
        ) == Err::<Seq<u8>, DataError>(DataError::SizeLimit),
{
    let n = body.len() as int;
    let h = host.len() as int;
    let file = host + MAGIC_NUMBER_START@ + be64(declared) + body + be64((n + 34) as u64)
        + MAGIC_NUMBER_END@;
    let size = file.len() as int;
    lemma_be64_value_of_be64(declared);
    lemma_be64_value_of_be64((n + 34) as u64);
    assert(size == h + n + 34);
    assert(file.subrange(size - 9, size) =~= MAGIC_NUMBER_END@);
    assert(file.subrange(size - 17, size - 9) =~= be64((n + 34) as u64));
    assert(file.subrange(h, h + 9) =~= MAGIC_NUMBER_START@);
    assert(file.subrange(h + 9, h + 17) =~= be64(declared));
}

/// Damage to the end magic is detected: if byte `i` of the end magic of a
/// container is replaced by any other value, no container is found.
pub proof fn lemma_corrupt_end_magic(host: Seq<u8>, p: Seq<u8>, i: int, b: u8)
    requires
        0 <= i < 9,
        b != MAGIC_NUMBER_END@[i],
    ensures
        locate_spec((host + framed(p)).update(host.len() + p.len() + 25 + i, b)) == Err::<
            Seq<u8>,
            DataError,
        >(DataError::EndMagicNotFound),
{
    let file = (host + framed(p)).update(host.len() + p.len() + 25 + i, b);
    let size = file.len() as int;
    lemma_be64_value_of_be64(p.len() as u64);
    lemma_be64_value_of_be64((p.len() + 34) as u64);
    assert(size == host.len() + p.len() + 34);
    assert(file.subrange(size - 9, size)[i] == b);
}

/// Damage to the start magic is detected: if byte `i` of the start magic of
/// a container is replaced by any other value, the trailing length no longer
/// leads back to a start magic.
pub proof fn lemma_corrupt_start_magic(host: Seq<u8>, p: Seq<u8>, i: int, b: u8)
    requires
        p.len() <= PAYLOAD_LIMIT,
        0 <= i < 9,
        b != MAGIC_NUMBER_START@[i],
    ensures
        locate_spec((host + framed(p)).update(host.len() + i, b)) == Err::<Seq<u8>, DataError>(
            DataError::StartMagicNotFound,
        ),
{
    let n = p.len() as int;
    let h = host.len() as int;
    let file = (host + framed(p)).update(h + i, b);
    let size = file.len() as int;
    lemma_be64_value_of_be64(n as u64);
    lemma_be64_value_of_be64((n + 34) as u64);
    assert(size == h + n + 34);
    assert(file.subrange(size - 9, size) =~= MAGIC_NUMBER_END@);
    assert(file.subrange(size - 17, size - 9) =~= be64((n + 34) as u64));
    assert(file.subrange(h, h + 9)[i] == b);
}

} // verus!
