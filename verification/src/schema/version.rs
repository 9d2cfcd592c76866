//! Schema versions (`major.minor`), version ranges and kinds of schema change.
use vstd::prelude::*;
use crate::text::{
    chars_of, decimal_text, lemma_decimal_text_digits, lemma_parse_decimal_u16, owned,
    parse_u16_chars, parsed_u16, u64_text,
};

verus! {

/// Semantic version for schemas: a major version (breaking changes) and a minor
/// version (backward-compatible changes). Versions order by major, then minor.
#[derive(Debug, Clone, Copy, PartialEq, Eq, Structural, Hash, PartialOrd, Ord)]
pub struct SchemaVersion {
    /// Major version (breaking changes).
    pub major: u16,
    /// Minor version (backward-compatible changes).
    pub minor: u16,
}

/// `a` comes before or equals `b`: by major version, then by minor version.
pub open spec fn version_le(a: SchemaVersion, b: SchemaVersion) -> bool {
    a.major < b.major || (a.major == b.major && a.minor <= b.minor)
}

/// `a` comes strictly before `b`.
pub open spec fn version_lt(a: SchemaVersion, b: SchemaVersion) -> bool {
    version_le(a, b) && a != b
}

/// `s` without one leading `v`, if it has one.
pub open spec fn without_v(s: Seq<char>) -> Seq<char> {
    if s.len() > 0 && s[0] == 'v' {
        s.drop_first()
    } else {
        s
    }
}

/// The index of the first `c` in `s`, or `s.len()` when there is none.
pub open spec fn first_index_of(s: Seq<char>, c: char) -> int
    decreases s.len(),
{
    if s.len() == 0 {
        0
    } else if s[0] == c {
        0
    } else {
        1 + first_index_of(s.drop_first(), c)
    }
}

/// The version that `parse` reads from `s`: one optional leading `v`, then either
/// `major.minor` (split at the first `.`) or `major` alone (minor 0), each part read as
/// `str::parse::<u16>` reads it.
pub open spec fn parsed_version(s: Seq<char>) -> Option<SchemaVersion> {
    let t = without_v(s);
    let k = first_index_of(t, '.');
    if k < t.len() {
        match (parsed_u16(t.take(k)), parsed_u16(t.skip(k + 1))) {
            (Some(major), Some(minor)) => Some(SchemaVersion { major, minor }),
            _ => None,
        }
    } else {
        match parsed_u16(t) {
            Some(major) => Some(SchemaVersion { major, minor: 0 }),
            None => None,
        }
    }
}

/// The long text of a version: `v{major}.{minor}`.
pub open spec fn version_text(v: SchemaVersion) -> Seq<char> {
    "v"@ + decimal_text(v.major as nat) + "."@ + decimal_text(v.minor as nat)
}

/// The short text of a version: `v{major}` when the minor version is 0, else the long text.
pub open spec fn short_version_text(v: SchemaVersion) -> Seq<char> {
    if v.minor == 0 {
        "v"@ + decimal_text(v.major as nat)
    } else {
        version_text(v)
    }
}

/// `b` directly follows `a`: the next minor version, or the next major version at minor 0.
pub open spec fn spec_is_successor(b: SchemaVersion, a: SchemaVersion) -> bool {
    (b.major == a.major && b.minor == a.minor + 1) || (b.major == a.major + 1 && b.minor == 0)
}

/// `a` can read data of `b`: same major version, and a minor version at least `b`'s.
pub open spec fn spec_is_compatible(a: SchemaVersion, b: SchemaVersion) -> bool {
    a.major == b.major && a.minor >= b.minor
}

/// The first `c` in `s` is found at `i`.
proof fn lemma_first_index_of(s: Seq<char>, c: char, i: int)
    requires
        0 <= i <= s.len(),
        forall|j: int| 0 <= j < i ==> s[j] != c,
        i == s.len() || s[i] == c,
    ensures
        first_index_of(s, c) == i,
    decreases i,
{
    if i > 0 {
        lemma_first_index_of(s.drop_first(), c, i - 1);
    }
}

impl std::str::FromStr for SchemaVersion {
    type Err = &'static str;

    /// Parse a version as `parse` does; refused with "Invalid version format".
    fn from_str(s: &str) -> (r: Result<Self, &'static str>)
        ensures
            match parsed_version(s@) {
                Some(v) => r == Ok::<SchemaVersion, &'static str>(v),
                None => r == Err::<SchemaVersion, &'static str>("Invalid version format"),
            },
    {
        match SchemaVersion::parse(s) {
            Some(v) => Ok(v),
            None => Err("Invalid version format"),
        }
    }
}

impl SchemaVersion {
    /// Create a new schema version.
    pub fn new(major: u16, minor: u16) -> (r: Self)
        ensures
            r.major == major,
            r.minor == minor,
    {
        SchemaVersion { major, minor }
    }

    /// Parse a version string: `"v1"`, `"v1.2"`, `"1.0"` and `"1"` are accepted.
    pub fn parse(s: &str) -> (r: Option<Self>)
        ensures
            r == parsed_version(s@),
    {
        let cs = chars_of(s);
        let n = cs.len();
        let mut lo: usize = 0;
        if n > 0 && cs[0] == 'v' {
            lo = 1;
        }
        let ghost t = cs@.subrange(lo as int, n as int);
        assert(t =~= without_v(s@));
        let mut i = lo;
        while i < n && cs[i] != '.'
            invariant
                lo <= i <= n,
                n == cs@.len(),
                forall|j: int| lo <= j < i ==> cs@[j] != '.',
            decreases n - i,
        {
            i = i + 1;
        }
        proof {
            lemma_first_index_of(t, '.', i - lo);
        }
        if i < n {
            assert(cs@.subrange(lo as int, i as int) =~= t.take(i - lo));
            assert(cs@.subrange(i + 1, n as int) =~= t.skip(i - lo + 1));
            let major = parse_u16_chars(&cs, lo, i);
            let minor = parse_u16_chars(&cs, i + 1, n);
            match (major, minor) {
                (Some(major), Some(minor)) => Some(SchemaVersion { major, minor }),
                _ => None,
            }
        } else {
            match parse_u16_chars(&cs, lo, n) {
                Some(major) => Some(SchemaVersion { major, minor: 0 }),
                None => None,
            }
        }
    }

    /// Whether this version is compatible with `other`: same major version, and this
    /// minor version is at least the other's.
    pub fn is_compatible_with(&self, other: &Self) -> (r: bool)
        ensures
            r == spec_is_compatible(*self, *other),
    {
        self.major == other.major && self.minor >= other.minor
    }

    /// Whether this version directly succeeds `other`.
    pub fn is_successor_of(&self, other: &Self) -> (r: bool)
        ensures
            r == spec_is_successor(*self, *other),
    {
        (self.major == other.major && other.minor < u16::MAX && self.minor == other.minor + 1)
            || (other.major < u16::MAX && self.major == other.major + 1 && self.minor == 0)
    }

    /// The next minor version.
    pub fn next_minor(&self) -> (r: Self)
        requires
            self.minor < u16::MAX,
        ensures
            r.major == self.major,
            r.minor == self.minor + 1,
    {
        SchemaVersion { major: self.major, minor: self.minor + 1 }
    }

    /// The next major version.
    pub fn next_major(&self) -> (r: Self)
        requires
            self.major < u16::MAX,
        ensures
            r.major == self.major + 1,
            r.minor == 0,
    {
        SchemaVersion { major: self.major + 1, minor: 0 }
    }

    /// The version as text, `v{major}.{minor}` (as `Display` writes it).
    pub fn to_version_string(&self) -> (r: String)
        ensures
            r@ == version_text(*self),
    {
        let mut r = owned("v");
        r.append(u64_text(self.major as u64).as_str());
        r.append(".");
        r.append(u64_text(self.minor as u64).as_str());
        r
    }

    /// The version as short text: `v{major}` when the minor version is 0.
    pub fn to_short_string(&self) -> (r: String)
        ensures
            r@ == short_version_text(*self),
    {
        if self.minor == 0 {
            let mut r = owned("v");
            r.append(u64_text(self.major as u64).as_str());
            r
        } else {
            self.to_version_string()
        }
    }

    /// Whether this version comes before or equals `other`.
    pub fn is_at_most(&self, other: &Self) -> (r: bool)
        ensures
            r == version_le(*self, *other),
    {
        self.major < other.major || (self.major == other.major && self.minor <= other.minor)
    }
}

impl Default for SchemaVersion {
    /// Version 1.0.
    fn default() -> (r: Self)
        ensures
            r.major == 1,
            r.minor == 0,
    {
        SchemaVersion { major: 1, minor: 0 }
    }
}

/// Range of versions, from a minimum to an optional maximum, both inclusive.
#[derive(Debug, Clone, Copy, PartialEq, Eq, Structural)]
pub struct VersionRange {
    /// Minimum version (inclusive).
    pub min: SchemaVersion,
    /// Maximum version (inclusive, if specified).
    pub max: Option<SchemaVersion>,
}

/// `v` lies in the range `r`.
pub open spec fn in_range(r: VersionRange, v: SchemaVersion) -> bool {
    version_le(r.min, v) && match r.max {
        Some(max) => version_le(v, max),
        None => true,
    }
}

/// The upper end of a range, the greatest version when it has none.
pub open spec fn range_top(r: VersionRange) -> SchemaVersion {
    match r.max {
        Some(max) => max,
        None => SchemaVersion { major: u16::MAX, minor: u16::MAX },
    }
}

impl VersionRange {
    /// The range from `version` up, with no upper bound.
    pub fn from(version: SchemaVersion) -> (r: Self)
        ensures
            r.min == version,
            r.max is None,
    {
        VersionRange { min: version, max: None }
    }

    /// The range from `min` to `max`, both inclusive.
    pub fn between(min: SchemaVersion, max: SchemaVersion) -> (r: Self)
        ensures
            r.min == min,
            r.max == Some(max),
    {
        VersionRange { min, max: Some(max) }
    }

    /// The range of exactly one version.
    pub fn exact(version: SchemaVersion) -> (r: Self)
        ensures
            r.min == version,
            r.max == Some(version),
    {
        VersionRange { min: version, max: Some(version) }
    }

    /// Whether `version` lies within this range.
    pub fn contains(&self, version: SchemaVersion) -> (r: bool)
        ensures
            r == in_range(*self, version),
    {
        if !self.min.is_at_most(&version) {
            return false;
        }
        match self.max {
            Some(max) => version.is_at_most(&max),
            None => true,
        }
    }

    /// Whether this range and `other` share a version (an open end counts as the
    /// greatest version).
    pub fn overlaps(&self, other: &VersionRange) -> (r: bool)
        ensures
            r == (version_le(self.min, range_top(*other)) && version_le(other.min, range_top(*self))),
    {
        let self_max = match self.max {
            Some(m) => m,
            None => SchemaVersion { major: u16::MAX, minor: u16::MAX },
        };
        let other_max = match other.max {
            Some(m) => m,
            None => SchemaVersion { major: u16::MAX, minor: u16::MAX },
        };
        self.min.is_at_most(&other_max) && other.min.is_at_most(&self_max)
    }
}

/// Type of change between schema versions.
#[derive(Debug, Clone, Copy, PartialEq, Eq, Structural)]
pub enum ChangeKind {
    /// New optional field added (backward compatible).
    AddOptionalField,
    /// New required field added (breaking without default).
    AddRequiredField,
    /// Field removed (breaking).
    RemoveField,
    /// Field type changed (breaking).
    ChangeFieldType,
    /// Field renamed (breaking without migration).
    RenameField,
    /// Field marked as deprecated (non-breaking).
    DeprecateField,
    /// Field default value changed (non-breaking).
    ChangeDefault,
    /// Field made optional (non-breaking).
    MakeOptional,
    /// Field made required (breaking).
    MakeRequired,
}

/// Whether a change kind breaks readers of the older version.
pub open spec fn spec_is_breaking(k: ChangeKind) -> bool {
    match k {
        ChangeKind::AddRequiredField
        | ChangeKind::RemoveField
        | ChangeKind::ChangeFieldType
        | ChangeKind::RenameField
        | ChangeKind::MakeRequired => true,
        _ => false,
    }
}

/// The human-readable description of a change kind.
pub open spec fn change_description(k: ChangeKind) -> Seq<char> {
    match k {
        ChangeKind::AddOptionalField => "Added optional field"@,
        ChangeKind::AddRequiredField => "Added required field"@,
        ChangeKind::RemoveField => "Removed field"@,
        ChangeKind::ChangeFieldType => "Changed field type"@,
        ChangeKind::RenameField => "Renamed field"@,
        ChangeKind::DeprecateField => "Deprecated field"@,
        ChangeKind::ChangeDefault => "Changed default value"@,
        ChangeKind::MakeOptional => "Made field optional"@,
        ChangeKind::MakeRequired => "Made field required"@,
    }
}

impl ChangeKind {
    /// Whether this change kind is breaking (needs a major version bump).
    pub fn is_breaking(&self) -> (r: bool)
        ensures
            r == spec_is_breaking(*self),
    {
        match self {
            ChangeKind::AddRequiredField
            | ChangeKind::RemoveField
            | ChangeKind::ChangeFieldType
            | ChangeKind::RenameField
            | ChangeKind::MakeRequired => true,
            _ => false,
        }
    }

    /// A human-readable description of this change kind.
    pub fn description(&self) -> (r: &'static str)
        ensures
            r@ == change_description(*self),
    {
        match self {
            ChangeKind::AddOptionalField => "Added optional field",
            ChangeKind::AddRequiredField => "Added required field",
            ChangeKind::RemoveField => "Removed field",
            ChangeKind::ChangeFieldType => "Changed field type",
            ChangeKind::RenameField => "Renamed field",
            ChangeKind::DeprecateField => "Deprecated field",
            ChangeKind::ChangeDefault => "Changed default value",
            ChangeKind::MakeOptional => "Made field optional",
            ChangeKind::MakeRequired => "Made field required",
        }
    }
}

/// A digit string holds no `.`: the first `.` of `d + "." + e` is right after `d`.
proof fn lemma_dot_after_digits(n: nat, rest: Seq<char>)
    ensures
        first_index_of(decimal_text(n) + "."@ + rest, '.') == decimal_text(n).len(),
{
    lemma_decimal_text_digits(n);
    reveal_strlit(".");
    let d = decimal_text(n);
    let t = d + "."@ + rest;
    assert forall|j: int| 0 <= j < d.len() implies t[j] != '.' by {
        assert(t[j] == d[j]);
        assert(crate::text::is_digit(d[j]));
    }
    assert(t[d.len() as int] == '.');
    lemma_first_index_of(t, '.', d.len() as int);
}

/// Reading back the text of a version, long or short, gives the version.
pub proof fn lemma_version_text_roundtrip(v: SchemaVersion)
    ensures
        parsed_version(version_text(v)) == Some(v),
        parsed_version(short_version_text(v)) == Some(v),
{
    reveal_strlit("v");
    reveal_strlit(".");
    let a = decimal_text(v.major as nat);
    let b = decimal_text(v.minor as nat);
    lemma_parse_decimal_u16(v.major);
    lemma_parse_decimal_u16(v.minor);
    lemma_decimal_text_digits(v.major as nat);
    let t = a + "."@ + b;
    assert(without_v(version_text(v)) =~= t);
    lemma_dot_after_digits(v.major as nat, b);
    assert(t.take(a.len() as int) =~= a);
    assert(t.skip(a.len() + 1int) =~= b);
    if v.minor == 0 {
        assert(without_v(short_version_text(v)) =~= a);
        assert forall|j: int| 0 <= j < a.len() implies a[j] != '.' by {
            assert(crate::text::is_digit(a[j]));
        }
        lemma_first_index_of(a, '.', a.len() as int);
    }
}

/// The next minor version succeeds a version and can read its data; the next major
/// version succeeds it and cannot.
pub proof fn lemma_next_versions(v: SchemaVersion)
    requires
        v.minor < u16::MAX,
        v.major < u16::MAX,
    ensures
        spec_is_successor(SchemaVersion { major: v.major, minor: (v.minor + 1) as u16 }, v),
        spec_is_compatible(SchemaVersion { major: v.major, minor: (v.minor + 1) as u16 }, v),
        spec_is_successor(SchemaVersion { major: (v.major + 1) as u16, minor: 0 }, v),
        !spec_is_compatible(SchemaVersion { major: (v.major + 1) as u16, minor: 0 }, v),
        !spec_is_compatible(v, SchemaVersion { major: v.major, minor: (v.minor + 1) as u16 }),
{
}

/// Versions are totally ordered by major, then minor version.
pub proof fn lemma_version_order(a: SchemaVersion, b: SchemaVersion, c: SchemaVersion)
    ensures
        version_le(a, a),
        version_le(a, b) || version_le(b, a),
        version_le(a, b) && version_le(b, a) ==> a == b,
        version_le(a, b) && version_le(b, c) ==> version_le(a, c),
        spec_is_compatible(a, b) ==> version_le(b, a),
{
}

/// An exact range holds its version alone; an open range holds every version from its
/// start on; two ranges that share a version overlap, and overlapping is symmetric.
pub proof fn lemma_range_laws(r: VersionRange, q: VersionRange, v: SchemaVersion, w: SchemaVersion)
    ensures
        in_range(VersionRange { min: v, max: Some(v) }, w) <==> w == v,
        in_range(VersionRange { min: v, max: None }, w) <==> version_le(v, w),
        in_range(r, w) && in_range(q, w) ==> (version_le(r.min, range_top(q)) && version_le(q.min, range_top(r))),
        (version_le(r.min, range_top(q)) && version_le(q.min, range_top(r))) == (version_le(q.min, range_top(r)) && version_le(r.min, range_top(q))),
{
}

} // verus!
