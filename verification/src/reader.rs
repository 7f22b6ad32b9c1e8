//! Locating a container in a file that is not in memory: the reader says
//! which bytes it wants, is handed them, and says what it wants next, until
//! it has the payload or knows that there is none. It never asks for more
//! than the two magic sequences, the two length fields and the payload.

use vstd::prelude::*;
use vstd::slice::{slice_subrange, slice_to_vec};
use crate::container::{locate_spec, MAGIC_NUMBER_END, MAGIC_NUMBER_START, PAYLOAD_LIMIT};
use crate::error::{bytes_result, DataError};
use crate::wire::{be64_value, decode_be64};

verus! {

/// What the reader is waiting for.
#[derive(Debug)]
enum Stage {
    /// The last nine bytes of the file.
    EndMagic,
    /// The eight bytes before the end magic.
    TrailingLength,
    /// The nine bytes at which the container of `total` bytes begins.
    StartMagic { total: u64 },
    /// The eight bytes behind the start magic at `start`.
    DeclaredLength { start: u64 },
    /// The `declared` bytes behind the length field of the container at
    /// `start`.
    Payload { start: u64, declared: usize },
}

/// A reader that waits for bytes of a file of `size` bytes.
#[derive(Debug)]
pub struct Pending {
    size: u64,
    stage: Stage,
}

/// Where a reader stands.
#[derive(Debug)]
pub enum Progress {
    /// The reader wants the `len` bytes that start at `offset`; they are
    /// handed to it with [`feed`].
    Read { pending: Pending, offset: u64, len: usize },
    /// The reader is done: it has the payload, or the reason why there is
    /// none.
    Done(Result<Vec<u8>, DataError>),
}

impl Pending {
    /// Where the bytes begin that the reader waits for.
    pub closed spec fn offset(self) -> int {
        match self.stage {
            Stage::EndMagic => self.size - 9,
            Stage::TrailingLength => self.size - 17,
            Stage::StartMagic { total } => self.size - total,
            Stage::DeclaredLength { start } => start + 9,
            Stage::Payload { start, declared } => start + 17,
        }
    }

    /// How many bytes the reader waits for.
    pub closed spec fn len(self) -> int {
        match self.stage {
            Stage::EndMagic => 9,
            Stage::TrailingLength => 8,
            Stage::StartMagic { total } => 9,
            Stage::DeclaredLength { start } => 8,
            Stage::Payload { start, declared } => declared as int,
        }
    }

    /// How many more times, at most, the reader will want bytes after those
    /// that it waits for.
    pub closed spec fn reads_left(self) -> nat {
        match self.stage {
            Stage::EndMagic => 4,
            Stage::TrailingLength => 3,
            Stage::StartMagic { total } => 2,
            Stage::DeclaredLength { start } => 1,
            Stage::Payload { start, declared } => 0,
        }
    }

    /// Whether the reader is where reading `file` has led it: the file has
    /// the size that the reader was started with, and what the reader has
    /// seen so far is what the file holds.
    pub closed spec fn reads(self, file: Seq<u8>) -> bool {
        let size = self.size as int;
        &&& file.len() == size
        &&& size >= 9
        &&& match self.stage {
            Stage::EndMagic => true,
            Stage::TrailingLength => size >= 17 && file.subrange(size - 9, size)
                == MAGIC_NUMBER_END@,
            Stage::StartMagic { total } => {
                &&& size >= 17
                &&& file.subrange(size - 9, size) == MAGIC_NUMBER_END@
                &&& total == be64_value(file.subrange(size - 17, size - 9))
                &&& 9 <= total <= size
            },
            Stage::DeclaredLength { start } => {
                &&& size >= 17
                &&& file.subrange(size - 9, size) == MAGIC_NUMBER_END@
                &&& start == size - be64_value(file.subrange(size - 17, size - 9))
                &&& start + 17 <= size
                &&& file.subrange(start as int, start + 9) == MAGIC_NUMBER_START@
            },
            Stage::Payload { start, declared } => {
                &&& size >= 17
                &&& file.subrange(size - 9, size) == MAGIC_NUMBER_END@
                &&& start == size - be64_value(file.subrange(size - 17, size - 9))
                &&& start + 17 <= size
                &&& file.subrange(start as int, start + 9) == MAGIC_NUMBER_START@
                &&& declared == be64_value(file.subrange(start + 9, start + 17))
                &&& declared <= PAYLOAD_LIMIT
                &&& start + 17 + declared <= size
            },
        }
    }
}

/// Whether `progress` is right for `file`: a reader that wants bytes is
/// where reading `file` has led it and wants bytes that the file has; a
/// reader that is done has what locating in `file` yields.
pub open spec fn right_for(progress: Progress, file: Seq<u8>) -> bool {
    match progress {
        Progress::Read { pending, offset, len } => {
            &&& pending.reads(file)
            &&& offset == pending.offset()
            &&& len == pending.len()
            &&& 0 <= offset
            &&& offset + len <= file.len()
        },
        Progress::Done(r) => bytes_result(r) == locate_spec(file),
    }
}

/// Whether the nine bytes `bytes` are `magic`.
fn is_magic(bytes: &[u8], magic: &[u8; 9]) -> (b: bool)
    requires
        bytes@.len() == 9,
    ensures
        b == (bytes@ == magic@),
{
    let mut i: usize = 0;
    while i < 9
        invariant
            i <= 9 == bytes@.len(),
            forall|k: int| 0 <= k < i ==> bytes@[k] == magic@[k],
        decreases 9 - i,
    {
        if bytes[i] != magic[i] {
            return false;
        }
        i += 1;
    }
    assert(bytes@ =~= magic@);
    true
}

/// Starts a reader for a file of `size` bytes. What it returns is right
/// for every file of that size.
pub fn start(size: u64) -> (progress: Progress)
    ensures
        forall|file: Seq<u8>| file.len() == size ==> #[trigger] right_for(progress, file),
{
    if size < 9 {
        Progress::Done(Err(DataError::EndMagicNotFound))
    } else {
        Progress::Read {
            pending: Pending { size, stage: Stage::EndMagic },
            offset: size - 9,
            len: 9,
        }
    }
}

/// Hands the reader the bytes that it wanted. Where `pending` is where
/// reading a file has led and `bytes` are the bytes of that file that it
/// wanted, what is returned is right for that file. Bytes in another number
/// than was wanted end the reading with [`DataError::Truncated`].
pub fn feed(pending: Pending, bytes: &[u8]) -> (progress: Progress)
    ensures
        forall|file: Seq<u8>|
            pending.reads(file) && bytes@ == file.subrange(
                pending.offset(),
                pending.offset() + pending.len(),
            ) ==> #[trigger] right_for(progress, file),
        progress matches Progress::Read { pending: next, .. } ==> next.reads_left()
            < pending.reads_left(),
        bytes@.len() != pending.len() ==> (progress matches Progress::Done(Err(e)) && e
            == DataError::Truncated),
{
    let size = pending.size;
    match pending.stage {
        Stage::EndMagic => {
            if bytes.len() != 9 {
                Progress::Done(Err(DataError::Truncated))
            } else if !is_magic(bytes, &MAGIC_NUMBER_END) {
                Progress::Done(Err(DataError::EndMagicNotFound))
            } else if size < 17 {
                Progress::Done(Err(DataError::Truncated))
            } else {
                Progress::Read {
                    pending: Pending { size, stage: Stage::TrailingLength },
                    offset: size - 17,
                    len: 8,
                }
            }
        },
        Stage::TrailingLength => {
            if bytes.len() != 8 {
                return Progress::Done(Err(DataError::Truncated));
            }
            assert(bytes@.subrange(0, 8) =~= bytes@);
            let total = decode_be64(bytes, 0);
            if total < 9 || total > size {
                Progress::Done(Err(DataError::StartMagicNotFound))
            } else {
                Progress::Read {
                    pending: Pending { size, stage: Stage::StartMagic { total } },
                    offset: size - total,
                    len: 9,
                }
            }
        },
        Stage::StartMagic { total } => {
            if bytes.len() != 9 || total > size {
                Progress::Done(Err(DataError::Truncated))
            } else if !is_magic(bytes, &MAGIC_NUMBER_START) {
                Progress::Done(Err(DataError::StartMagicNotFound))
            } else if total < 17 {
                Progress::Done(Err(DataError::Truncated))
            } else {
                let start = size - total;
                Progress::Read {
                    pending: Pending { size, stage: Stage::DeclaredLength { start } },
                    offset: start + 9,
                    len: 8,
                }
            }
        },
        Stage::DeclaredLength { start } => {
            if bytes.len() != 8 || start > size || size - start < 17 {
                return Progress::Done(Err(DataError::Truncated));
            }
            assert(bytes@.subrange(0, 8) =~= bytes@);
            let declared = decode_be64(bytes, 0);
            if declared > PAYLOAD_LIMIT as u64 {
                Progress::Done(Err(DataError::SizeLimit))
            } else if declared > size - start - 17 {
                Progress::Done(Err(DataError::Truncated))
            } else {
                Progress::Read {
                    pending: Pending {
                        size,
                        stage: Stage::Payload { start, declared: declared as usize },
                    },
                    offset: start + 17,
                    len: declared as usize,
                }
            }
        },
        Stage::Payload { start, declared } => {
            if bytes.len() != declared {
                Progress::Done(Err(DataError::Truncated))
            } else {
                Progress::Done(Ok(slice_to_vec(bytes)))
            }
        },
    }
}

/// Locates the container at the end of `file` as a reader does that is
/// handed the bytes it asks for: with at most five reads, and with the same
/// result as [`crate::container::locate`].
pub fn locate_stepwise(file: &[u8]) -> (r: Result<Vec<u8>, DataError>)
    ensures
        bytes_result(r) == locate_spec(file@),
{
    let size = file.len();
    let mut progress = start(size as u64);
    loop
        invariant
            size == file@.len(),
            right_for(progress, file@),
        decreases
            match progress {
                Progress::Read { pending, .. } => pending.reads_left() + 1,
                Progress::Done(_) => 0,
            },
    {
        match progress {
            Progress::Read { pending, offset, len } => {
                let from = offset as usize;
                progress = feed(pending, slice_subrange(file, from, from + len));
            },
            Progress::Done(r) => {
                return r;
            },
        }
    }
}

} // verus!
