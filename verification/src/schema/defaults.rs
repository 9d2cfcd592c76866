//! Default values for schema fields, used when data of an older version lacks a field.
use vstd::prelude::*;
use crate::text::{decimal_text, i64_text, opt_string, owned, signed_decimal_text, str_eq, u64_text};
use crate::arena::encoding::{le32_bytes, le64_bytes, push_le_u32, push_le_u64};
use crate::keyed::KeyedList;

verus! {

/// A field's default: its type name, its bytes (for arena storage) and its text.
pub type DefaultValue = (Seq<char>, Seq<u8>, Seq<char>);

/// The bytes of an optional byte vector.
pub open spec fn opt_bytes(o: Option<Vec<u8>>) -> Option<Seq<u8>> {
    match o {
        Some(b) => Some(b@),
        None => None,
    }
}

/// Default value provider for schema fields.
pub trait DefaultProvider {
    /// Whether this provider's answers are described by the spec functions below; only
    /// a provider that says so is held to them.
    open spec fn obeys_provider_spec(&self) -> bool {
        false
    }

    /// The default bytes the provider gives for a field asked as a type, if any.
    open spec fn spec_default_bytes(&self, field: Seq<char>, type_label: Seq<char>) -> Option<Seq<u8>> {
        None
    }

    /// The default text the provider gives for a field asked as a type, if any.
    open spec fn spec_default_string(&self, field: Seq<char>, type_label: Seq<char>) -> Option<Seq<char>> {
        None
    }

    /// Whether the provider has a default for a field.
    open spec fn spec_has_default(&self, field: Seq<char>) -> bool {
        false
    }

    /// The default value of a field as bytes, if it has one.
    fn default_bytes(&self, field: &str, type_label: &str) -> (r: Option<Vec<u8>>)
        ensures
            self.obeys_provider_spec() ==> opt_bytes(r) == self.spec_default_bytes(field@, type_label@);

    /// The default value of a field as text, if it has one.
    fn default_string(&self, field: &str, type_label: &str) -> (r: Option<String>)
        ensures
            self.obeys_provider_spec() ==> opt_string(r) == self.spec_default_string(field@, type_label@);

    /// Whether a field has a default value.
    fn has_default(&self, field: &str) -> (r: bool)
        ensures
            self.obeys_provider_spec() ==> r == self.spec_has_default(field@);

    /// All fields that have defaults.
    fn fields_with_defaults(&self) -> Vec<String>;
}

/// One recorded default.
#[derive(Debug, Clone)]
pub struct DefaultEntry {
    /// The field's name.
    pub field: String,
    /// The field's type name.
    pub type_label: String,
    /// The default as bytes.
    pub bytes: Vec<u8>,
    /// The default as text.
    pub repr: String,
}

/// What an entry records, as plain values.
pub open spec fn entry_value(e: DefaultEntry) -> DefaultValue {
    (e.type_label@, e.bytes@, e.repr@)
}

/// No field name occurs twice among the entries.
pub open spec fn distinct_fields(s: Seq<DefaultEntry>) -> bool {
    forall|i: int, j: int| 0 <= i < s.len() && 0 <= j < s.len() && i != j ==> s[i].field@ != s[j].field@
}

/// The field names and their defaults.
pub open spec fn defaults_map(s: Seq<DefaultEntry>) -> Map<Seq<char>, DefaultValue> {
    Map::new(
        |k: Seq<char>| exists|i: int| 0 <= i < s.len() && s[i].field@ == k,
        |k: Seq<char>| entry_value(s[choose|i: int| 0 <= i < s.len() && s[i].field@ == k]),
    )
}

/// A default provider backed by a list of field defaults, each field at most once.
#[derive(Debug)]
pub struct MapDefaultProvider {
    defaults: Vec<DefaultEntry>,
}

/// The map of an entry list with distinct fields gives each field the value of its entry.
proof fn lemma_defaults_map_at(s: Seq<DefaultEntry>, i: int)
    requires
        distinct_fields(s),
        0 <= i < s.len(),
    ensures
        defaults_map(s).dom().contains(s[i].field@),
        defaults_map(s)[s[i].field@] == entry_value(s[i]),
{
    let k = s[i].field@;
    assert(exists|j: int| 0 <= j < s.len() && s[j].field@ == k);
    let j = choose|j: int| 0 <= j < s.len() && s[j].field@ == k;
    assert(j == i);
}

impl MapDefaultProvider {
    /// The field names and their defaults.
    pub closed spec fn spec_defaults(&self) -> Map<Seq<char>, DefaultValue> {
        defaults_map(self.defaults@)
    }

    /// The provider's invariant: each field at most once.
    #[verifier::type_invariant]
    spec fn inv(self) -> bool {
        distinct_fields(self.defaults@)
    }

    /// Create a new empty provider.
    pub fn new() -> (r: Self)
        ensures
            r.spec_defaults() == Map::<Seq<char>, DefaultValue>::empty(),
    {
        let r = MapDefaultProvider { defaults: Vec::new() };
        assert(r.spec_defaults() =~= Map::<Seq<char>, DefaultValue>::empty());
        r
    }

    /// The index of `field`'s entry, if it has one.
    fn find(&self, field: &str) -> (r: Option<usize>)
        ensures
            r matches Some(i) ==> i < self.defaults@.len() && self.defaults@[i as int].field@ == field@,
            r is None ==> !self.spec_defaults().dom().contains(field@),
    {
        proof {
            use_type_invariant(self);
        }
        let mut i: usize = 0;
        while i < self.defaults.len()
            invariant
                i <= self.defaults@.len(),
                forall|j: int| 0 <= j < i ==> self.defaults@[j].field@ != field@,
            decreases self.defaults@.len() - i,
        {
            if str_eq(self.defaults[i].field.as_str(), field) {
                return Some(i);
            }
            i = i + 1;
        }
        None
    }

    /// Record `entry`, replacing the default of its field if there is one.
    fn put(&mut self, entry: DefaultEntry)
        ensures
            final(self).spec_defaults() == old(self).spec_defaults().insert(entry.field@, entry_value(entry)),
    {
        proof {
            use_type_invariant(&*self);
        }
        let ghost k = entry.field@;
        let ghost v = entry_value(entry);
        let ghost before = self.defaults@;
        let found = self.find(entry.field.as_str());
        let mut list: Vec<DefaultEntry> = Vec::new();
        std::mem::swap(&mut list, &mut self.defaults);
        match found {
            Some(i) => {
                list.set(i, entry);
                let ghost after = list@;
                assert(distinct_fields(after));
                assert forall|q: Seq<char>|
                    #![trigger defaults_map(after).dom().contains(q)]
                    defaults_map(after).dom().contains(q) == defaults_map(before).insert(k, v).dom().contains(q) by {
                    if exists|j: int| 0 <= j < before.len() && before[j].field@ == q {
                        let j = choose|j: int| 0 <= j < before.len() && before[j].field@ == q;
                        assert(after[j].field@ == q);
                    }
                    if exists|j: int| 0 <= j < after.len() && after[j].field@ == q {
                        let j = choose|j: int| 0 <= j < after.len() && after[j].field@ == q;
                        if j != i {
                            assert(before[j].field@ == q);
                        }
                    }
                }
                assert forall|q: Seq<char>| defaults_map(after).dom().contains(q) implies defaults_map(after)[q] == defaults_map(before).insert(k, v)[q] by {
                    let j = choose|j: int| 0 <= j < after.len() && after[j].field@ == q;
                    lemma_defaults_map_at(after, j);
                    if j != i {
                        lemma_defaults_map_at(before, j);
                    }
                }
                assert(defaults_map(after) =~= defaults_map(before).insert(k, v));
            },
            None => {
                list.push(entry);
                let ghost after = list@;
                assert(distinct_fields(after));
                assert forall|q: Seq<char>|
                    #![trigger defaults_map(after).dom().contains(q)]
                    defaults_map(after).dom().contains(q) == defaults_map(before).insert(k, v).dom().contains(q) by {
                    if exists|j: int| 0 <= j < before.len() && before[j].field@ == q {
                        let j = choose|j: int| 0 <= j < before.len() && before[j].field@ == q;
                        assert(after[j].field@ == q);
                    }
                    if exists|j: int| 0 <= j < after.len() && after[j].field@ == q {
                        let j = choose|j: int| 0 <= j < after.len() && after[j].field@ == q;
                        if j < before.len() {
                            assert(before[j].field@ == q);
                        }
                    }
                    if q == k {
                        assert(after[before.len() as int].field@ == q);
                    }
                }
                assert forall|q: Seq<char>| defaults_map(after).dom().contains(q) implies defaults_map(after)[q] == defaults_map(before).insert(k, v)[q] by {
                    let j = choose|j: int| 0 <= j < after.len() && after[j].field@ == q;
                    lemma_defaults_map_at(after, j);
                    if j < before.len() {
                        lemma_defaults_map_at(before, j);
                    }
                }
                assert(defaults_map(after) =~= defaults_map(before).insert(k, v));
            },
        }
        self.defaults = list;
    }

    /// Add a string default: its bytes are the UTF-8 encoding of `value`.
    pub fn with_string(self, field: &str, value: &str) -> (r: Self)
        ensures
            r.spec_defaults() == self.spec_defaults().insert(
                field@,
                ("String"@, vstd::utf8::encode_utf8(value@), value@),
            ),
    {
        let mut r = self;
        let bytes = value.as_bytes_vec();
        r.put(DefaultEntry { field: owned(field), type_label: owned("String"), bytes, repr: owned(value) });
        r
    }

    /// Add an `i32` default: four little-endian bytes.
    pub fn with_i32(self, field: &str, value: i32) -> (r: Self)
        ensures
            r.spec_defaults() == self.spec_defaults().insert(
                field@,
                ("i32"@, le32_bytes(value as u32), signed_decimal_text(value as int)),
            ),
    {
        let mut r = self;
        let mut bytes: Vec<u8> = Vec::new();
        push_le_u32(&mut bytes, value as u32);
        assert(bytes@ =~= le32_bytes(value as u32));
        r.put(DefaultEntry { field: owned(field), type_label: owned("i32"), bytes, repr: i64_text(value as i64) });
        r
    }

    /// Add an `i64` default: eight little-endian bytes.
    pub fn with_i64(self, field: &str, value: i64) -> (r: Self)
        ensures
            r.spec_defaults() == self.spec_defaults().insert(
                field@,
                ("i64"@, le64_bytes(value as u64), signed_decimal_text(value as int)),
            ),
    {
        let mut r = self;
        let mut bytes: Vec<u8> = Vec::new();
        push_le_u64(&mut bytes, value as u64);
        assert(bytes@ =~= le64_bytes(value as u64));
        r.put(DefaultEntry { field: owned(field), type_label: owned("i64"), bytes, repr: i64_text(value) });
        r
    }

    /// Add a `u32` default: four little-endian bytes.
    pub fn with_u32(self, field: &str, value: u32) -> (r: Self)
        ensures
            r.spec_defaults() == self.spec_defaults().insert(
                field@,
                ("u32"@, le32_bytes(value), decimal_text(value as nat)),
            ),
    {
        let mut r = self;
        let mut bytes: Vec<u8> = Vec::new();
        push_le_u32(&mut bytes, value);
        assert(bytes@ =~= le32_bytes(value));
        r.put(DefaultEntry { field: owned(field), type_label: owned("u32"), bytes, repr: u64_text(value as u64) });
        r
    }

    /// Add a `u64` default: eight little-endian bytes.
    pub fn with_u64(self, field: &str, value: u64) -> (r: Self)
        ensures
            r.spec_defaults() == self.spec_defaults().insert(
                field@,
                ("u64"@, le64_bytes(value), decimal_text(value as nat)),
            ),
    {
        let mut r = self;
        let mut bytes: Vec<u8> = Vec::new();
        push_le_u64(&mut bytes, value);
        assert(bytes@ =~= le64_bytes(value));
        r.put(DefaultEntry { field: owned(field), type_label: owned("u64"), bytes, repr: u64_text(value) });
        r
    }

    /// Add a `bool` default: one byte, 1 for true and 0 for false.
    pub fn with_bool(self, field: &str, value: bool) -> (r: Self)
        ensures
            r.spec_defaults() == self.spec_defaults().insert(
                field@,
                ("bool"@, seq![if value { 1u8 } else { 0u8 }], if value { "true"@ } else { "false"@ }),
            ),
    {
        let mut r = self;
        let bytes = vec![if value { 1u8 } else { 0u8 }];
        assert(bytes@ =~= seq![if value { 1u8 } else { 0u8 }]);
        let repr = if value { owned("true") } else { owned("false") };
        r.put(DefaultEntry { field: owned(field), type_label: owned("bool"), bytes, repr });
        r
    }

    /// Add a default given as raw bytes, with its type name and text.
    pub fn with_bytes(self, field: &str, type_label: &str, bytes: Vec<u8>, repr: &str) -> (r: Self)
        ensures
            r.spec_defaults() == self.spec_defaults().insert(field@, (type_label@, bytes@, repr@)),
    {
        let mut r = self;
        r.put(DefaultEntry { field: owned(field), type_label: owned(type_label), bytes, repr: owned(repr) });
        r
    }
}

impl DefaultProvider for MapDefaultProvider {
    /// A map provider answers from its recorded defaults.
    open spec fn obeys_provider_spec(&self) -> bool {
        true
    }

    /// The recorded bytes of the field, whatever type is asked for.
    open spec fn spec_default_bytes(&self, field: Seq<char>, type_label: Seq<char>) -> Option<Seq<u8>> {
        if self.spec_defaults().dom().contains(field) {
            Some(self.spec_defaults()[field].1)
        } else {
            None
        }
    }

    /// The recorded text of the field, whatever type is asked for.
    open spec fn spec_default_string(&self, field: Seq<char>, type_label: Seq<char>) -> Option<Seq<char>> {
        if self.spec_defaults().dom().contains(field) {
            Some(self.spec_defaults()[field].2)
        } else {
            None
        }
    }

    /// Whether the field has a recorded default.
    open spec fn spec_has_default(&self, field: Seq<char>) -> bool {
        self.spec_defaults().dom().contains(field)
    }

    /// The default's bytes, whatever type name is asked for.
    fn default_bytes(&self, field: &str, type_label: &str) -> (r: Option<Vec<u8>>)
        ensures
            (r is Some <==> self.spec_defaults().dom().contains(field@)),
            (r matches Some(b) ==> b@ == self.spec_defaults()[field@].1),
    {
        proof {
            use_type_invariant(self);
        }
        match self.find(field) {
            Some(i) => {
                proof {
                    lemma_defaults_map_at(self.defaults@, i as int);
                }
                Some(self.defaults[i].bytes.clone())
            },
            None => None,
        }
    }

    /// The default's text, whatever type name is asked for.
    fn default_string(&self, field: &str, type_label: &str) -> (r: Option<String>)
        ensures
            (r is Some <==> self.spec_defaults().dom().contains(field@)),
            (r matches Some(t) ==> t@ == self.spec_defaults()[field@].2),
    {
        proof {
            use_type_invariant(self);
        }
        match self.find(field) {
            Some(i) => {
                proof {
                    lemma_defaults_map_at(self.defaults@, i as int);
                }
                Some(owned(self.defaults[i].repr.as_str()))
            },
            None => None,
        }
    }

    /// Whether the field has a default.
    fn has_default(&self, field: &str) -> (r: bool)
        ensures
            (r == self.spec_defaults().dom().contains(field@)),
    {
        proof {
            use_type_invariant(self);
        }
        match self.find(field) {
            Some(i) => {
                proof {
                    lemma_defaults_map_at(self.defaults@, i as int);
                }
                true
            },
            None => false,
        }
    }

    /// The fields with defaults, each once, in the order they were first added.
    fn fields_with_defaults(&self) -> (r: Vec<String>)
        ensures
            forall|k: Seq<char>|
                self.spec_defaults().dom().contains(k) <==> exists|i: int| 0 <= i < r@.len() && r@[i]@ == k,
            forall|i: int, j: int| 0 <= i < r@.len() && 0 <= j < r@.len() && i != j ==> r@[i]@ != r@[j]@,
    {
        proof {
            use_type_invariant(self);
        }
        let mut out: Vec<String> = Vec::new();
        let mut i: usize = 0;
        while i < self.defaults.len()
            invariant
                i <= self.defaults@.len(),
                out@.len() == i,
                forall|j: int| 0 <= j < i ==> out@[j]@ == self.defaults@[j].field@,
            decreases self.defaults@.len() - i,
        {
            out.push(owned(self.defaults[i].field.as_str()));
            i = i + 1;
        }
        proof {
            assert forall|k: Seq<char>|
                self.spec_defaults().dom().contains(k) implies exists|i: int| 0 <= i < out@.len() && out@[i]@ == k by {
                let j = choose|j: int| 0 <= j < self.defaults@.len() && self.defaults@[j].field@ == k;
                assert(out@[j]@ == k);
            }
            assert forall|k: Seq<char>|
                (exists|i: int| 0 <= i < out@.len() && out@[i]@ == k) implies self.spec_defaults().dom().contains(k) by {
                let j = choose|j: int| 0 <= j < out@.len() && out@[j]@ == k;
                assert(self.defaults@[j].field@ == k);
            }
        }
        out
    }
}

impl Default for MapDefaultProvider {
    /// An empty provider.
    fn default() -> (r: Self)
        ensures
            r.spec_defaults() == Map::<Seq<char>, DefaultValue>::empty(),
    {
        MapDefaultProvider::new()
    }
}

/// Default-value providers by schema name, in the order schemas were first registered.
pub struct DefaultRegistry<P> {
    providers: KeyedList<P>,
}

impl<P> DefaultRegistry<P> {
    /// The provider of each schema.
    pub closed spec fn spec_providers(&self) -> Map<Seq<char>, P> {
        self.providers.spec_map()
    }

    /// The schemas with a provider, in the order they were first registered.
    pub closed spec fn spec_schemas(&self) -> Seq<Seq<char>> {
        self.providers.spec_keys()
    }

    /// A registry with no provider.
    pub fn new() -> (r: Self)
        ensures
            r.spec_providers() == Map::<Seq<char>, P>::empty(),
            r.spec_schemas().len() == 0,
    {
        let r = DefaultRegistry { providers: KeyedList::new() };
        assert(r.spec_providers() =~= Map::<Seq<char>, P>::empty());
        r
    }

    /// Make `provider` the provider of `schema`, in place of any earlier one.
    pub fn register(&mut self, schema: &str, provider: P)
        ensures
            final(self).spec_providers() == old(self).spec_providers().insert(schema@, provider),
            old(self).spec_providers().dom().contains(schema@) ==> final(self).spec_schemas() == old(self).spec_schemas(),
            !old(self).spec_providers().dom().contains(schema@) ==> final(self).spec_schemas() == old(self).spec_schemas().push(schema@),
    {
        self.providers.insert(schema, provider);
    }

    /// The provider of `schema`, if it has one.
    pub fn get_provider(&self, schema: &str) -> (r: Option<&P>)
        ensures
            r is Some <==> self.spec_providers().dom().contains(schema@),
            r matches Some(p) ==> *p == self.spec_providers()[schema@],
    {
        self.providers.get(schema)
    }

    /// The schemas with a provider, in the order they were first registered.
    pub fn schemas(&self) -> (r: Vec<String>)
        ensures
            r@.map_values(|s: String| s@) == self.spec_schemas(),
    {
        let mut out: Vec<String> = Vec::new();
        let mut i: usize = 0;
        while i < self.providers.len()
            invariant
                i <= self.providers.spec_entries().len(),
                out@.len() == i,
                forall|j: int| 0 <= j < i ==> (#[trigger] out@[j])@ == self.providers.spec_entries()[j].0@,
            decreases self.providers.spec_entries().len() - i,
        {
            out.push(owned(self.providers.entry(i).0.as_str()));
            i = i + 1;
        }
        assert(out@.map_values(|s: String| s@) =~= self.spec_schemas());
        out
    }

    /// Drop the provider of `schema`; returns whether it had one.
    pub fn unregister(&mut self, schema: &str) -> (r: bool)
        ensures
            r == old(self).spec_providers().dom().contains(schema@),
            final(self).spec_providers() == old(self).spec_providers().remove(schema@),
    {
        self.providers.remove(schema)
    }
}

impl<P: DefaultProvider> DefaultRegistry<P> {
    /// The default bytes of `field` from the provider of `schema`; none when the schema
    /// has no provider.
    pub fn get_default(&self, schema: &str, field: &str, type_label: &str) -> (r: Option<Vec<u8>>)
        ensures
            !self.spec_providers().dom().contains(schema@) ==> r is None,
            self.spec_providers().dom().contains(schema@) && self.spec_providers()[schema@].obeys_provider_spec()
                ==> opt_bytes(r) == self.spec_providers()[schema@].spec_default_bytes(field@, type_label@),
    {
        match self.providers.get(schema) {
            Some(p) => p.default_bytes(field, type_label),
            None => None,
        }
    }

    /// The default text of `field` from the provider of `schema`; none when the schema
    /// has no provider.
    pub fn get_default_string(&self, schema: &str, field: &str, type_label: &str) -> (r: Option<String>)
        ensures
            !self.spec_providers().dom().contains(schema@) ==> r is None,
            self.spec_providers().dom().contains(schema@) && self.spec_providers()[schema@].obeys_provider_spec()
                ==> opt_string(r) == self.spec_providers()[schema@].spec_default_string(field@, type_label@),
    {
        match self.providers.get(schema) {
            Some(p) => p.default_string(field, type_label),
            None => None,
        }
    }

    /// Whether the provider of `schema` has a default for `field`; false when the schema
    /// has no provider.
    pub fn has_default(&self, schema: &str, field: &str) -> (r: bool)
        ensures
            !self.spec_providers().dom().contains(schema@) ==> !r,
            self.spec_providers().dom().contains(schema@) && self.spec_providers()[schema@].obeys_provider_spec()
                ==> r == self.spec_providers()[schema@].spec_has_default(field@),
    {
        match self.providers.get(schema) {
            Some(p) => p.has_default(field),
            None => false,
        }
    }
}

impl<P> Default for DefaultRegistry<P> {
    /// A registry with no provider.
    fn default() -> (r: Self)
        ensures
            r.spec_providers() == Map::<Seq<char>, P>::empty(),
            r.spec_schemas().len() == 0,
    {
        Self::new()
    }
}

/// Field default specification: a field, its type name, a default expression (as
/// code text) and, optionally, the default's bytes.
#[derive(Debug, Clone)]
pub struct FieldDefault {
    /// The name of the field.
    pub field: String,
    /// The type name of the field.
    pub type_label: String,
    /// Default value expression as code text.
    pub expression: String,
    /// Serialized bytes of the default value.
    pub bytes: Option<Vec<u8>>,
}

impl FieldDefault {
    /// Create a new field default specification, without bytes.
    pub fn new(field: &str, type_label: &str, expression: &str) -> (r: Self)
        ensures
            r.field@ == field@,
            r.type_label@ == type_label@,
            r.expression@ == expression@,
            r.bytes is None,
    {
        FieldDefault { field: owned(field), type_label: owned(type_label), expression: owned(expression), bytes: None }
    }

    /// Set the serialized bytes.
    pub fn with_bytes(self, bytes: Vec<u8>) -> (r: Self)
        ensures
            r.field == self.field,
            r.type_label == self.type_label,
            r.expression == self.expression,
            r.bytes == Some(bytes),
    {
        FieldDefault { bytes: Some(bytes), ..self }
    }
}

} // verus!
