//! Arena header structure and its fixed 128-byte layout.
use vstd::prelude::*;
use crate::types::{ArenaOffset, TraceId};
use crate::clock::unix_time_secs;
use super::encoding::{
    be128_bytes, be128_value, le32_bytes, le32_value, le64_bytes, le64_value, lemma_be128_roundtrip,
    lemma_le32_roundtrip, lemma_le64_roundtrip, push_le_u32, push_le_u64, push_uuid, read_le_u32,
    read_le_u64, read_uuid,
};

verus! {

/// Magic number for XERV arena files.
pub const ARENA_MAGIC: u64 = 0x5845_5256_4152_454E;

/// Current arena format version.
pub const ARENA_VERSION: u32 = 1;

/// Fixed size of the arena header in bytes.
pub const HEADER_SIZE: usize = 128;

/// Arena file header, stored at the beginning of every arena file.
#[derive(Debug, Clone, Copy)]
pub struct ArenaHeader {
    /// Magic number for file identification.
    pub magic: u64,
    /// Arena format version.
    pub version: u32,
    /// Flags (reserved for future use).
    pub flags: u32,
    /// Trace ID that owns this arena.
    pub trace_id: TraceId,
    /// Offset to the pipeline configuration data.
    pub config_offset: ArenaOffset,
    /// Size of the pipeline configuration in bytes.
    pub config_size: u32,
    /// Offset to the start of the data region.
    pub data_offset: ArenaOffset,
    /// Current write position (end of valid data).
    pub write_pos: ArenaOffset,
    /// Total capacity of the arena file.
    pub capacity: u64,
    /// Creation timestamp (Unix epoch seconds).
    pub created_at: u64,
    /// Schema version string hash (for compatibility checking).
    pub schema_hash: u64,
    /// Pipeline version number.
    pub pipeline_version: u32,
    /// Reserved for alignment and future use.
    pub _reserved: [u8; 32],
}

/// Why a header could not be read.
#[derive(Debug, Clone, Copy, PartialEq, Eq, Structural)]
pub enum HeaderError {
    /// The buffer holds fewer than `HEADER_SIZE` bytes.
    BufferTooSmall,
}

/// The 128 bytes that encode a header: the fields in declaration order, integers
/// little-endian, the trace ID as its 16 UUID bytes, a zero `u32` after
/// `config_size` and after `pipeline_version`, and the 32 reserved bytes last.
pub open spec fn header_bytes(h: ArenaHeader) -> Seq<u8> {
    le64_bytes(h.magic) + le32_bytes(h.version) + le32_bytes(h.flags) + be128_bytes(
        h.trace_id.value,
    ) + le64_bytes(h.config_offset.value) + le32_bytes(h.config_size) + le32_bytes(0)
        + le64_bytes(h.data_offset.value) + le64_bytes(h.write_pos.value) + le64_bytes(h.capacity)
        + le64_bytes(h.created_at) + le64_bytes(h.schema_hash) + le32_bytes(h.pipeline_version)
        + le32_bytes(0) + h._reserved@
}

/// `h` is the header that the first 128 bytes of `b` encode (the two padding words
/// are ignored).
pub open spec fn decodes_to(b: Seq<u8>, h: ArenaHeader) -> bool {
    &&& h.magic == le64_value(b.subrange(0, 8))
    &&& h.version == le32_value(b.subrange(8, 12))
    &&& h.flags == le32_value(b.subrange(12, 16))
    &&& h.trace_id.value == be128_value(b.subrange(16, 32))
    &&& h.config_offset.value == le64_value(b.subrange(32, 40))
    &&& h.config_size == le32_value(b.subrange(40, 44))
    &&& h.data_offset.value == le64_value(b.subrange(48, 56))
    &&& h.write_pos.value == le64_value(b.subrange(56, 64))
    &&& h.capacity == le64_value(b.subrange(64, 72))
    &&& h.created_at == le64_value(b.subrange(72, 80))
    &&& h.schema_hash == le64_value(b.subrange(80, 88))
    &&& h.pipeline_version == le32_value(b.subrange(88, 92))
    &&& h._reserved@ == b.subrange(96, 128)
}

/// `h` is the header `new` builds for this trace, capacity and creation time.
pub open spec fn is_fresh_header(h: ArenaHeader, trace_id: TraceId, capacity: u64, created_at: u64) -> bool {
    &&& h.magic == ARENA_MAGIC
    &&& h.version == ARENA_VERSION
    &&& h.flags == 0
    &&& h.trace_id == trace_id
    &&& h.config_offset.value == HEADER_SIZE
    &&& h.config_size == 0
    &&& h.data_offset.value == HEADER_SIZE
    &&& h.write_pos.value == HEADER_SIZE
    &&& h.capacity == capacity
    &&& h.created_at == created_at
    &&& h.schema_hash == 0
    &&& h.pipeline_version == 0
    &&& h._reserved@ == Seq::new(32, |i: int| 0u8)
}

impl ArenaHeader {
    /// Create a new arena header for the given trace, stamped with the current time.
    pub fn new(trace_id: TraceId, capacity: u64) -> (r: Self)
        ensures
            is_fresh_header(r, trace_id, capacity, r.created_at),
    {
        Self::new_at(trace_id, capacity, unix_time_secs())
    }

    /// Create a new arena header for the given trace with the given creation time.
    pub fn new_at(trace_id: TraceId, capacity: u64, created_at: u64) -> (r: Self)
        ensures
            is_fresh_header(r, trace_id, capacity, created_at),
    {
        let h = ArenaHeader {
            magic: ARENA_MAGIC,
            version: ARENA_VERSION,
            flags: 0,
            trace_id,
            config_offset: ArenaOffset::new(HEADER_SIZE as u64),
            config_size: 0,
            data_offset: ArenaOffset::new(HEADER_SIZE as u64),
            write_pos: ArenaOffset::new(HEADER_SIZE as u64),
            capacity,
            created_at,
            schema_hash: 0,
            pipeline_version: 0,
            _reserved: [0u8; 32],
        };
        assert(h._reserved@ =~= Seq::new(32, |i: int| 0u8));
        h
    }

    /// Validate the header: the magic number, then the version, then that the write
    /// position lies within the capacity.
    pub fn validate(&self) -> (r: Result<(), &'static str>)
        ensures
            self.magic != ARENA_MAGIC ==> r == Err::<(), &str>("Invalid magic number"),
            self.magic == ARENA_MAGIC && self.version != ARENA_VERSION ==> r == Err::<(), &str>(
                "Unsupported arena version",
            ),
            self.magic == ARENA_MAGIC && self.version == ARENA_VERSION && self.write_pos.value
                > self.capacity ==> r == Err::<(), &str>("Write position exceeds capacity"),
            r is Ok <==> (self.magic == ARENA_MAGIC && self.version == ARENA_VERSION
                && self.write_pos.value <= self.capacity),
    {
        if self.magic != ARENA_MAGIC {
            return Err("Invalid magic number");
        }
        if self.version != ARENA_VERSION {
            return Err("Unsupported arena version");
        }
        if self.write_pos.as_u64() > self.capacity {
            return Err("Write position exceeds capacity");
        }
        Ok(())
    }

    /// Read a header from the first `HEADER_SIZE` bytes of a buffer.
    pub fn from_bytes(bytes: &[u8]) -> (r: Result<Self, HeaderError>)
        ensures
            bytes@.len() < HEADER_SIZE ==> r == Err::<Self, HeaderError>(HeaderError::BufferTooSmall),
            bytes@.len() >= HEADER_SIZE ==> (r matches Ok(h) && decodes_to(bytes@, h)),
    {
        if bytes.len() < HEADER_SIZE {
            return Err(HeaderError::BufferTooSmall);
        }
        let mut reserved = [0u8; 32];
        let mut i: usize = 0;
        while i < 32
            invariant
                bytes@.len() >= HEADER_SIZE,
                0 <= i <= 32,
                forall|j: int| 0 <= j < i ==> reserved[j] == bytes@[96 + j],
            decreases 32 - i,
        {
            reserved[i] = bytes[96 + i];
            i = i + 1;
        }
        let h = ArenaHeader {
            magic: read_le_u64(bytes, 0),
            version: read_le_u32(bytes, 8),
            flags: read_le_u32(bytes, 12),
            trace_id: TraceId::from_u128(read_uuid(bytes, 16)),
            config_offset: ArenaOffset::new(read_le_u64(bytes, 32)),
            config_size: read_le_u32(bytes, 40),
            data_offset: ArenaOffset::new(read_le_u64(bytes, 48)),
            write_pos: ArenaOffset::new(read_le_u64(bytes, 56)),
            capacity: read_le_u64(bytes, 64),
            created_at: read_le_u64(bytes, 72),
            schema_hash: read_le_u64(bytes, 80),
            pipeline_version: read_le_u32(bytes, 88),
            _reserved: reserved,
        };
        assert(h._reserved@ =~= bytes@.subrange(96, 128));
        Ok(h)
    }

    /// Write the header into a fresh `HEADER_SIZE`-byte buffer.
    pub fn to_bytes(&self) -> (r: Result<Vec<u8>, HeaderError>)
        ensures
            r matches Ok(v) && v@ == header_bytes(*self),
            r matches Ok(v) && v@.len() == HEADER_SIZE,
    {
        let mut buf: Vec<u8> = Vec::with_capacity(HEADER_SIZE);
        push_le_u64(&mut buf, self.magic);
        push_le_u32(&mut buf, self.version);
        push_le_u32(&mut buf, self.flags);
        push_uuid(&mut buf, self.trace_id.value);
        push_le_u64(&mut buf, self.config_offset.as_u64());
        push_le_u32(&mut buf, self.config_size);
        push_le_u32(&mut buf, 0);
        push_le_u64(&mut buf, self.data_offset.as_u64());
        push_le_u64(&mut buf, self.write_pos.as_u64());
        push_le_u64(&mut buf, self.capacity);
        push_le_u64(&mut buf, self.created_at);
        push_le_u64(&mut buf, self.schema_hash);
        push_le_u32(&mut buf, self.pipeline_version);
        push_le_u32(&mut buf, 0);
        buf.extend_from_slice(self._reserved.as_slice());
        assert(buf@ =~= header_bytes(*self));
        Ok(buf)
    }

    /// Available space for data: capacity minus write position, or 0.
    pub fn available_space(&self) -> (r: u64)
        ensures
            r == (if self.capacity >= self.write_pos.value {
                self.capacity - self.write_pos.value
            } else {
                0
            }),
    {
        self.capacity.saturating_sub(self.write_pos.as_u64())
    }
}

/// Reading back the bytes a header was written as gives the same header:
/// `from_bytes(to_bytes(h)) == h`.
pub proof fn lemma_header_roundtrip(h: ArenaHeader, decoded: ArenaHeader)
    requires
        decodes_to(header_bytes(h), decoded),
    ensures
        header_bytes(h).len() == HEADER_SIZE,
        decoded == h,
{
    let b = header_bytes(h);
    lemma_le64_roundtrip(h.magic);
    lemma_le32_roundtrip(h.version);
    lemma_le32_roundtrip(h.flags);
    lemma_be128_roundtrip(h.trace_id.value);
    lemma_le64_roundtrip(h.config_offset.value);
    lemma_le32_roundtrip(h.config_size);
    lemma_le32_roundtrip(0);
    lemma_le64_roundtrip(h.data_offset.value);
    lemma_le64_roundtrip(h.write_pos.value);
    lemma_le64_roundtrip(h.capacity);
    lemma_le64_roundtrip(h.created_at);
    lemma_le64_roundtrip(h.schema_hash);
    lemma_le32_roundtrip(h.pipeline_version);
    assert(b.subrange(0, 8) =~= le64_bytes(h.magic));
    assert(b.subrange(8, 12) =~= le32_bytes(h.version));
    assert(b.subrange(12, 16) =~= le32_bytes(h.flags));
    assert(b.subrange(16, 32) =~= be128_bytes(h.trace_id.value));
    assert(b.subrange(32, 40) =~= le64_bytes(h.config_offset.value));
    assert(b.subrange(40, 44) =~= le32_bytes(h.config_size));
    assert(b.subrange(48, 56) =~= le64_bytes(h.data_offset.value));
    assert(b.subrange(56, 64) =~= le64_bytes(h.write_pos.value));
    assert(b.subrange(64, 72) =~= le64_bytes(h.capacity));
    assert(b.subrange(72, 80) =~= le64_bytes(h.created_at));
    assert(b.subrange(80, 88) =~= le64_bytes(h.schema_hash));
    assert(b.subrange(88, 92) =~= le32_bytes(h.pipeline_version));
    assert(b.subrange(96, 128) =~= h._reserved@);
    assert(decoded._reserved =~= h._reserved);
}

} // verus!
