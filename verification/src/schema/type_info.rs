//! Schema metadata: a type's name, version, hash, layout and fields.
use vstd::prelude::*;
use crate::text::{decimal_text, owned, u64_text};

verus! {

/// A field of a schema.
#[derive(Debug, Clone)]
pub struct FieldInfo {
    /// Field name.
    pub name: String,
    /// Name of the field's type.
    pub type_label: String,
    /// Byte offset within the type.
    pub offset: usize,
    /// Size in bytes.
    pub size: usize,
    /// Whether the field may be absent.
    pub optional: bool,
}

impl FieldInfo {
    /// A required field `name` of type `type_label`, at offset 0, of size 0.
    pub fn new(name: &str, type_label: &str) -> (r: Self)
        ensures
            r.name@ == name@,
            r.type_label@ == type_label@,
            r.offset == 0,
            r.size == 0,
            !r.optional,
    {
        FieldInfo { name: owned(name), type_label: owned(type_label), offset: 0, size: 0, optional: false }
    }

    /// The same field at `offset`.
    pub fn with_offset(self, offset: usize) -> (r: Self)
        ensures
            r == (FieldInfo { offset, ..self }),
    {
        FieldInfo { offset, ..self }
    }

    /// The same field of size `size`.
    pub fn with_size(self, size: usize) -> (r: Self)
        ensures
            r == (FieldInfo { size, ..self }),
    {
        FieldInfo { size, ..self }
    }

    /// The same field, optional.
    pub fn optional(self) -> (r: Self)
        ensures
            r == (FieldInfo { optional: true, ..self }),
    {
        FieldInfo { optional: true, ..self }
    }
}

/// Metadata of a schema type.
#[derive(Debug, Clone)]
pub struct TypeInfo {
    /// Full name with version, such as `Order@v1`.
    pub name: String,
    /// Name without version, such as `Order`.
    pub short_name: String,
    /// Major version.
    pub version: u32,
    /// Schema hash (0 when unknown).
    pub hash: u64,
    /// Size in bytes.
    pub size: usize,
    /// Alignment in bytes.
    pub alignment: usize,
    /// The fields, in declaration order.
    pub fields: Vec<FieldInfo>,
    /// Whether the layout is stable across builds.
    pub stable_layout: bool,
}

/// The full name of version `version` of `short_name`: `short_name@v{version}`.
pub open spec fn versioned_name(short_name: Seq<char>, version: nat) -> Seq<char> {
    short_name + "@v"@ + decimal_text(version)
}

impl TypeInfo {
    /// Version `version` of `short_name`, named `short_name@v{version}`, with no hash,
    /// size, alignment or fields, and no stable layout.
    pub fn new(short_name: &str, version: u32) -> (r: Self)
        ensures
            r.name@ == versioned_name(short_name@, version as nat),
            r.short_name@ == short_name@,
            r.version == version,
            r.hash == 0,
            r.size == 0,
            r.alignment == 0,
            r.fields@.len() == 0,
            !r.stable_layout,
    {
        let mut name = owned(short_name);
        name.append("@v");
        let v = u64_text(version as u64);
        name.append(v.as_str());
        TypeInfo {
            name,
            short_name: owned(short_name),
            version,
            hash: 0,
            size: 0,
            alignment: 0,
            fields: Vec::new(),
            stable_layout: false,
        }
    }

    /// The same type with hash `hash`.
    pub fn with_hash(self, hash: u64) -> (r: Self)
        ensures
            r == (TypeInfo { hash, ..self }),
    {
        TypeInfo { hash, ..self }
    }

    /// The same type of size `size`.
    pub fn with_size(self, size: usize) -> (r: Self)
        ensures
            r == (TypeInfo { size, ..self }),
    {
        TypeInfo { size, ..self }
    }

    /// The same type with alignment `alignment`.
    pub fn with_alignment(self, alignment: usize) -> (r: Self)
        ensures
            r == (TypeInfo { alignment, ..self }),
    {
        TypeInfo { alignment, ..self }
    }

    /// The same type with `fields` as its fields.
    pub fn with_fields(self, fields: Vec<FieldInfo>) -> (r: Self)
        ensures
            r == (TypeInfo { fields, ..self }),
    {
        TypeInfo { fields, ..self }
    }

    /// The same type, with a stable layout.
    pub fn stable(self) -> (r: Self)
        ensures
            r == (TypeInfo { stable_layout: true, ..self }),
    {
        TypeInfo { stable_layout: true, ..self }
    }
}

/// What a field says: name, type, offset, size, optional.
pub type FieldView = (Seq<char>, Seq<char>, usize, usize, bool);

impl View for FieldInfo {
    type V = FieldView;

    open spec fn view(&self) -> FieldView {
        (self.name@, self.type_label@, self.offset, self.size, self.optional)
    }
}

/// What a type says: name, short name, version, hash, size, alignment, fields, stable layout.
pub type TypeView = (Seq<char>, Seq<char>, u32, u64, usize, usize, Seq<FieldView>, bool);

impl View for TypeInfo {
    type V = TypeView;

    open spec fn view(&self) -> TypeView {
        (self.name@, self.short_name@, self.version, self.hash, self.size, self.alignment,
            self.fields@.map_values(|f: FieldInfo| f@), self.stable_layout)
    }
}

impl FieldInfo {
    /// A copy of this field.
    pub fn duplicate(&self) -> (r: Self)
        ensures
            r@ == self@,
    {
        FieldInfo {
            name: owned(self.name.as_str()),
            type_label: owned(self.type_label.as_str()),
            offset: self.offset,
            size: self.size,
            optional: self.optional,
        }
    }
}

impl TypeInfo {
    /// A copy of this type.
    pub fn duplicate(&self) -> (r: Self)
        ensures
            r@ == self@,
    {
        let mut fields: Vec<FieldInfo> = Vec::new();
        let mut i: usize = 0;
        while i < self.fields.len()
            invariant
                i <= self.fields@.len(),
                fields@.len() == i,
                forall|j: int| 0 <= j < i ==> (#[trigger] fields@[j])@ == self.fields@[j]@,
            decreases self.fields@.len() - i,
        {
            fields.push(self.fields[i].duplicate());
            i = i + 1;
        }
        assert(fields@.map_values(|f: FieldInfo| f@) =~= self.fields@.map_values(|f: FieldInfo| f@));
        TypeInfo {
            name: owned(self.name.as_str()),
            short_name: owned(self.short_name.as_str()),
            version: self.version,
            hash: self.hash,
            size: self.size,
            alignment: self.alignment,
            fields,
            stable_layout: self.stable_layout,
        }
    }
}

} // verus!
