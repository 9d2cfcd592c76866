//! Strongly-typed identifiers and offsets.
use vstd::prelude::*;
use std::marker::PhantomData;
use crate::text::{decimal_text, push_char, u64_text};

verus! {

/// An offset into an arena, in bytes from its start.
#[derive(Debug, Clone, Copy, PartialEq, Eq, Structural, Hash)]
pub struct ArenaOffset {
    pub value: u64,
}

impl ArenaOffset {
    /// Create an offset.
    pub fn new(value: u64) -> (r: Self)
        ensures
            r.value == value,
    {
        ArenaOffset { value }
    }

    /// The raw offset.
    pub fn as_u64(&self) -> (r: u64)
        ensures
            r == self.value,
    {
        self.value
    }

    /// The offset `n` bytes further on.
    pub fn add(&self, n: u64) -> (r: Self)
        requires
            self.value + n <= u64::MAX,
        ensures
            r.value == self.value + n,
    {
        ArenaOffset { value: self.value + n }
    }
}

/// A pointer to a value of type `T` stored in an arena: its offset and its size in bytes.
#[derive(Debug)]
pub struct RelPtr<T> {
    offset: ArenaOffset,
    size: u32,
    marker: PhantomData<T>,
}

impl<T> RelPtr<T> {
    /// The offset it points at.
    pub closed spec fn spec_offset(&self) -> ArenaOffset {
        self.offset
    }

    /// The size of what it points at.
    pub closed spec fn spec_size(&self) -> u32 {
        self.size
    }

    /// A pointer to `size` bytes at `offset`.
    pub fn new(offset: ArenaOffset, size: u32) -> (r: Self)
        ensures
            r.spec_offset() == offset,
            r.spec_size() == size,
    {
        RelPtr { offset, size, marker: PhantomData }
    }

    /// The null pointer: offset 0, size 0.
    pub fn null() -> (r: Self)
        ensures
            r.spec_offset().value == 0,
            r.spec_size() == 0,
    {
        RelPtr { offset: ArenaOffset { value: 0 }, size: 0, marker: PhantomData }
    }

    /// Whether it is the null pointer (offset 0, which is inside the header and never
    /// holds data).
    pub fn is_null(&self) -> (r: bool)
        ensures
            r == (self.spec_offset().value == 0),
    {
        self.offset.value == 0
    }

    /// The offset it points at.
    pub fn offset(&self) -> (r: ArenaOffset)
        ensures
            r == self.spec_offset(),
    {
        self.offset
    }

    /// The size of what it points at.
    pub fn size(&self) -> (r: u32)
        ensures
            r == self.spec_size(),
    {
        self.size
    }
}

/// The hexadecimal digit of `n` (lower case).
pub open spec fn hex_digit(n: u128) -> char {
    if n < 10 {
        (('0' as u128) + n) as char
    } else {
        (('a' as u128) + n - 10) as char
    }
}

/// The index into the 32 nibbles of a UUID (most significant first) that the
/// character at position `i` of its hyphenated text shows.
pub open spec fn uuid_nibble_index(i: int) -> int {
    if i < 8 {
        i
    } else if i < 13 {
        i - 1
    } else if i < 18 {
        i - 2
    } else if i < 23 {
        i - 3
    } else {
        i - 4
    }
}

/// The hyphenated lower-case text of the UUID with value `v`,
/// e.g. `67e55044-10b1-426f-9247-bb680e5fe0c8`.
pub open spec fn uuid_text(v: u128) -> Seq<char> {
    Seq::new(
        36,
        |i: int|
            if i == 8 || i == 13 || i == 18 || i == 23 {
                '-'
            } else {
                hex_digit((v >> ((124 - 4 * uuid_nibble_index(i)) as u128)) & 0xfu128)
            },
    )
}

/// What `uuid::Uuid::parse_str` yields for a text: the UUID's value, or nothing.
pub uninterp spec fn spec_uuid_parse(text: Seq<char>) -> Option<u128>;

/// Whether `v` is the value of a version 4 UUID of the RFC variant: the version nibble
/// (bits 76 to 79) is 4 and the variant bits (62 and 63) are `10`.
pub open spec fn is_v4_uuid(v: u128) -> bool {
    &&& (v >> 76u128) & 0xfu128 == 4
    &&& (v >> 62u128) & 0x3u128 == 2
}

/// A fresh random UUID value from `uuid::Uuid::new_v4`, which masks the version and
/// variant bits of random bits to version 4 and the RFC variant; the other 122 bits are
/// random and nothing is promised of them.
#[verifier::external_body]
fn random_uuid() -> (r: u128)
    ensures
        is_v4_uuid(r),
{
    uuid::Uuid::new_v4().as_u128()
}

/// Parses a UUID text with `uuid::Uuid::parse_str`.
#[verifier::external_body]
fn parse_uuid(text: &str) -> (r: Option<u128>)
    ensures
        r == spec_uuid_parse(text@),
{
    uuid::Uuid::parse_str(text).ok().map(|u| u.as_u128())
}

/// Formats a UUID with `uuid::Uuid`'s `Display`, which writes the hyphenated
/// lower-case form.
#[verifier::external_body]
fn format_uuid(v: u128) -> (r: String)
    ensures
        r@ == uuid_text(v),
{
    uuid::Uuid::from_u128(v).to_string()
}

/// Unique identifier of a trace (a UUID, held as its 128-bit value).
#[derive(Debug, Clone, Copy, PartialEq, Eq, Structural, Hash)]
pub struct TraceId {
    pub value: u128,
}

impl TraceId {
    /// A fresh random trace ID: a version 4 UUID of the RFC variant.
    pub fn new() -> (r: Self)
        ensures
            is_v4_uuid(r.value),
    {
        TraceId { value: random_uuid() }
    }

    /// A trace ID with the given UUID value.
    pub fn from_u128(value: u128) -> (r: Self)
        ensures
            r.value == value,
    {
        TraceId { value }
    }

    /// The UUID value.
    pub fn as_u128(&self) -> (r: u128)
        ensures
            r == self.value,
    {
        self.value
    }

    /// Parse a trace ID from its UUID text.
    pub fn parse(text: &str) -> (r: Option<Self>)
        ensures
            r == (match spec_uuid_parse(text@) {
                Some(v) => Some(TraceId { value: v }),
                None => None,
            }),
    {
        match parse_uuid(text) {
            Some(v) => Some(TraceId { value: v }),
            None => None,
        }
    }

    /// The hyphenated UUID text of this ID.
    pub fn to_text(&self) -> (r: String)
        ensures
            r@ == uuid_text(self.value),
    {
        format_uuid(self.value)
    }
}

/// Identifier of a node within a pipeline.
#[derive(Debug, Clone, Copy, PartialEq, Eq, Structural, Hash)]
pub struct NodeId {
    pub value: u32,
}

impl NodeId {
    /// Create a node ID.
    pub fn new(value: u32) -> (r: Self)
        ensures
            r.value == value,
    {
        NodeId { value }
    }

    /// The raw ID.
    pub fn as_u32(&self) -> (r: u32)
        ensures
            r == self.value,
    {
        self.value
    }

    /// How a node ID is shown to people: `node_` and the decimal ID.
    pub open spec fn display_text(self) -> Seq<char> {
        seq!['n', 'o', 'd', 'e', '_'] + decimal_text(self.value as nat)
    }

    /// The text of this ID, such as `node_5`.
    pub fn to_text(&self) -> (r: String)
        ensures
            r@ == self.display_text(),
    {
        let mut r = String::new();
        push_char(&mut r, 'n');
        push_char(&mut r, 'o');
        push_char(&mut r, 'd');
        push_char(&mut r, 'e');
        push_char(&mut r, '_');
        r.append(u64_text(self.value as u64).as_str());
        proof {
            assert(r@ =~= self.display_text());
        }
        r
    }
}

/// Identifier of a pipeline: its name and version.
#[derive(Debug, Clone)]
pub struct PipelineId {
    pub name: String,
    pub version: u32,
}

impl PipelineId {
    /// Create a pipeline ID.
    pub fn new(name: &str, version: u32) -> (r: Self)
        ensures
            r.name@ == name@,
            r.version == version,
    {
        PipelineId { name: name.to_owned(), version }
    }

    /// The pipeline's name.
    pub fn name(&self) -> (r: &str)
        ensures
            r@ == self.name@,
    {
        self.name.as_str()
    }

    /// A copy of this ID.
    pub fn duplicate(&self) -> (r: Self)
        ensures
            r.name@ == self.name@,
            r.version == self.version,
    {
        PipelineId { name: self.name.as_str().to_owned(), version: self.version }
    }

    /// Whether two IDs name the same pipeline version.
    pub fn same_as(&self, other: &PipelineId) -> (r: bool)
        ensures
            r == (self.name@ == other.name@ && self.version == other.version),
    {
        self.version == other.version && self.name == other.name
    }
}

} // verus!
