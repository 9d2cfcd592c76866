//! Arena configuration, and writing and reading entries in an arena's bytes: entries are
//! appended at the write position, each padded with zeros to a multiple of 8 bytes.
use vstd::prelude::*;
use crate::error::XervError;
use crate::types::{ArenaOffset, RelPtr};
use crate::text::{decimal_text, owned, u64_text};
use super::compaction::align8;

verus! {

/// Default arena size: 16 MB.
pub const DEFAULT_ARENA_SIZE: u64 = 16 * 1024 * 1024;

/// Maximum arena size: 4 GB.
pub const MAX_ARENA_SIZE: u64 = 4 * 1024 * 1024 * 1024;

/// Minimum entry alignment (8 bytes).
pub const ENTRY_ALIGNMENT: usize = 8;

/// Configuration for arena creation.
#[derive(Debug, Clone)]
pub struct ArenaConfig {
    /// Initial capacity in bytes.
    pub capacity: u64,
    /// Directory for arena files.
    pub directory: String,
    /// Whether to sync writes to disk immediately.
    pub sync_on_write: bool,
}

impl Default for ArenaConfig {
    /// 16 MB in `/tmp/xerv`, without syncing each write.
    fn default() -> (r: Self)
        ensures
            r.capacity == DEFAULT_ARENA_SIZE,
            r.directory@ == "/tmp/xerv"@,
            !r.sync_on_write,
    {
        ArenaConfig { capacity: DEFAULT_ARENA_SIZE, directory: owned("/tmp/xerv"), sync_on_write: false }
    }
}

impl ArenaConfig {
    /// The same configuration with `capacity`, at most `MAX_ARENA_SIZE`.
    pub fn with_capacity(self, capacity: u64) -> (r: Self)
        ensures
            r.capacity == (if capacity < MAX_ARENA_SIZE { capacity } else { MAX_ARENA_SIZE }),
            r.directory == self.directory,
            r.sync_on_write == self.sync_on_write,
    {
        let c = if capacity < MAX_ARENA_SIZE { capacity } else { MAX_ARENA_SIZE };
        ArenaConfig { capacity: c, ..self }
    }

    /// The same configuration with `directory`.
    pub fn with_directory(self, directory: &str) -> (r: Self)
        ensures
            r.capacity == self.capacity,
            r.directory@ == directory@,
            r.sync_on_write == self.sync_on_write,
    {
        ArenaConfig { directory: owned(directory), ..self }
    }

    /// The same configuration, syncing each write to disk or not.
    pub fn with_sync(self, sync: bool) -> (r: Self)
        ensures
            r.capacity == self.capacity,
            r.directory == self.directory,
            r.sync_on_write == sync,
    {
        ArenaConfig { sync_on_write: sync, ..self }
    }
}

/// The bytes after writing `bytes` at `pos`, padded with zeros up to a multiple of 8.
pub open spec fn written(buf: Seq<u8>, pos: int, bytes: Seq<u8>) -> Seq<u8> {
    Seq::new(buf.len(), |i: int|
        if pos <= i < pos + bytes.len() {
            bytes[i - pos]
        } else if pos + bytes.len() <= i < pos + align8(bytes.len() as int) {
            0u8
        } else {
            buf[i]
        })
}

/// What reading `size` bytes at `offset` gives, with `write_pos` bytes written: the bytes,
/// or `None` when they run past the write position.
pub open spec fn read_back(buf: Seq<u8>, write_pos: int, offset: int, size: int) -> Option<Seq<u8>> {
    if offset + size > write_pos {
        None
    } else {
        Some(buf.subrange(offset, offset + size))
    }
}

/// The message of a read past the write position.
pub open spec fn past_write_message(offset: nat, size: nat, write_pos: nat) -> Seq<char> {
    "Offset "@ + decimal_text(offset) + " + size "@ + decimal_text(size) + " exceeds write position "@
        + decimal_text(write_pos)
}

/// `size` rounded up to a multiple of 8.
fn aligned_len(size: usize) -> (r: usize)
    requires
        size + 7 <= usize::MAX,
    ensures
        r == align8(size as int),
{
    let sum: usize = size + 7;
    let aligned: usize = sum & !7usize;
    assert(aligned == sum - sum % 8) by (bit_vector)
        requires
            aligned == sum & !7usize,
    ;
    aligned
}

/// Append `bytes` at the write position of an arena's bytes, padding with zeros to a
/// multiple of 8: refused with `ArenaCapacity` when the padded entry would pass the
/// capacity; otherwise the write position moves past the padded entry and a pointer to
/// the entry comes back.
pub fn write_bytes_at<T>(buffer: &mut [u8], write_pos: &mut u64, capacity: u64, bytes: &[u8]) -> (r: Result<RelPtr<T>, XervError>)
    requires
        *old(write_pos) <= capacity,
        capacity <= old(buffer)@.len(),
        bytes@.len() + 8 <= usize::MAX,
        *old(write_pos) + bytes@.len() + 8 <= u64::MAX,
    ensures
        ({
            let wp = *old(write_pos) as int;
            let aligned = align8(bytes@.len() as int);
            &&& wp + aligned > capacity ==> {
                &&& r matches Err(XervError::ArenaCapacity { requested, available })
                    && requested == aligned && available == capacity - wp
                &&& final(buffer)@ == old(buffer)@
                &&& *final(write_pos) == *old(write_pos)
            }
            &&& wp + aligned <= capacity ==> {
                &&& r matches Ok(p) && p.spec_offset().value == wp && p.spec_size() == bytes@.len() as u32
                &&& final(buffer)@ == written(old(buffer)@, wp, bytes@)
                &&& *final(write_pos) == wp + aligned
            }
        }),
{
    let ghost b0 = buffer@;
    let size = bytes.len();
    let aligned = aligned_len(size);
    let pos = *write_pos;
    let new_pos = pos + aligned as u64;
    if new_pos > capacity {
        return Err(XervError::ArenaCapacity { requested: aligned as u64, available: capacity - pos });
    }
    let n = buffer.len();
    assert(pos <= n);
    let start = pos as usize;
    let mut i: usize = 0;
    while i < aligned
        invariant
            b0 == old(buffer)@,
            n == b0.len(),
            start == pos,
            pos + aligned <= capacity,
            capacity <= b0.len(),
            size == bytes@.len(),
            aligned == align8(size as int),
            i <= aligned,
            buffer@.len() == b0.len(),
            forall|q: int| 0 <= q < b0.len() ==> buffer@[q] == (if start <= q < start + i {
                written(b0, start as int, bytes@)[q]
            } else {
                b0[q]
            }),
        decreases aligned - i,
    {
        let v: u8 = if i < size { bytes[i] } else { 0u8 };
        buffer[start + i] = v;
        i = i + 1;
    }
    assert(buffer@ =~= written(b0, start as int, bytes@));
    *write_pos = new_pos;
    Ok(RelPtr::new(ArenaOffset::new(pos), #[verifier::truncate] (size as u32)))
}

/// Read `size` bytes at `offset` of an arena's bytes: refused with `ArenaInvalidOffset`
/// when they run past the write position.
pub fn read_bytes_at(buffer: &[u8], write_pos: u64, offset: ArenaOffset, size: usize) -> (r: Result<Vec<u8>, XervError>)
    requires
        write_pos <= buffer@.len(),
    ensures
        match read_back(buffer@, write_pos as int, offset.value as int, size as int) {
            Some(b) => r matches Ok(v) && v@ == b,
            None => r matches Err(XervError::ArenaInvalidOffset { offset: o, cause })
                && o == offset && cause@ == past_write_message(offset.value as nat, size as nat, write_pos as nat),
        },
{
    let off = offset.as_u64();
    if off > write_pos || size as u64 > write_pos - off {
        let mut cause = owned("Offset ");
        cause.append(u64_text(off).as_str());
        cause.append(" + size ");
        cause.append(u64_text(size as u64).as_str());
        cause.append(" exceeds write position ");
        cause.append(u64_text(write_pos).as_str());
        return Err(XervError::ArenaInvalidOffset { offset, cause });
    }
    let n = buffer.len();
    assert(off <= n);
    let start = off as usize;
    let mut out: Vec<u8> = Vec::new();
    let mut i: usize = 0;
    while i < size
        invariant
            start == off,
            n == buffer@.len(),
            start + size <= write_pos <= buffer@.len(),
            i <= size,
            out@ == buffer@.subrange(start as int, start + i),
        decreases size - i,
    {
        out.push(buffer[start + i]);
        proof {
            assert(out@ =~= buffer@.subrange(start as int, start + i + 1));
        }
        i = i + 1;
    }
    Ok(out)
}

/// What a read gives back of a write: reading the bytes just written gives them back; and
/// a write leaves everything before its position as it was, so earlier reads are
/// unchanged.
pub proof fn lemma_read_after_write(buf: Seq<u8>, wp: int, bytes: Seq<u8>, offset: int, size: int)
    requires
        0 <= wp,
        wp + align8(bytes.len() as int) <= buf.len(),
        0 <= offset,
        0 <= size,
    ensures
        read_back(written(buf, wp, bytes), wp + align8(bytes.len() as int), wp, bytes.len() as int) == Some(bytes),
        offset + size <= wp ==> read_back(written(buf, wp, bytes), wp + align8(bytes.len() as int), offset, size)
            == read_back(buf, wp, offset, size),
{
    let w = written(buf, wp, bytes);
    assert(bytes.len() <= align8(bytes.len() as int));
    assert(w.subrange(wp, wp + bytes.len()) =~= bytes);
    if offset + size <= wp {
        assert(w.subrange(offset, offset + size) =~= buf.subrange(offset, offset + size));
    }
}

} // verus!
