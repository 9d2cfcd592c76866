//! The saved form of a schema registry: plain records of its schemas and families.
use vstd::prelude::*;
use crate::schema::type_info::{FieldInfo, FieldView, TypeInfo, TypeView};
use crate::text::owned;

verus! {

/// A field as it is saved.
#[derive(Debug, Clone)]
pub struct FieldData {
    pub name: String,
    pub type_label: String,
    pub offset: usize,
    pub size: usize,
    pub optional: bool,
}

impl View for FieldData {
    type V = FieldView;

    open spec fn view(&self) -> FieldView {
        (self.name@, self.type_label@, self.offset, self.size, self.optional)
    }
}

impl FieldData {
    /// The saved form of a field.
    pub fn from(info: &FieldInfo) -> (r: Self)
        ensures
            r@ == info@,
    {
        FieldData {
            name: owned(info.name.as_str()),
            type_label: owned(info.type_label.as_str()),
            offset: info.offset,
            size: info.size,
            optional: info.optional,
        }
    }

    /// The field that was saved.
    pub fn into_field_info(self) -> (r: FieldInfo)
        ensures
            r@ == self@,
    {
        let mut info = FieldInfo::new(self.name.as_str(), self.type_label.as_str())
            .with_offset(self.offset)
            .with_size(self.size);
        if self.optional {
            info = info.optional();
        }
        info
    }
}

/// A schema as it is saved.
#[derive(Debug, Clone)]
pub struct SchemaData {
    pub name: String,
    pub short_name: String,
    pub version: u32,
    pub hash: u64,
    pub size: usize,
    pub alignment: usize,
    pub fields: Vec<FieldData>,
    pub stable_layout: bool,
}

impl View for SchemaData {
    type V = TypeView;

    open spec fn view(&self) -> TypeView {
        (self.name@, self.short_name@, self.version, self.hash, self.size, self.alignment,
            self.fields@.map_values(|f: FieldData| f@), self.stable_layout)
    }
}

impl SchemaData {
    /// The saved form of a schema.
    pub fn from(info: &TypeInfo) -> (r: Self)
        ensures
            r@ == info@,
    {
        let mut fields: Vec<FieldData> = Vec::new();
        let mut i: usize = 0;
        while i < info.fields.len()
            invariant
                i <= info.fields@.len(),
                fields@.len() == i,
                forall|j: int| 0 <= j < i ==> (#[trigger] fields@[j])@ == info.fields@[j]@,
            decreases info.fields@.len() - i,
        {
            fields.push(FieldData::from(&info.fields[i]));
            i = i + 1;
        }
        assert(fields@.map_values(|f: FieldData| f@) =~= info.fields@.map_values(|f: FieldInfo| f@));
        SchemaData {
            name: owned(info.name.as_str()),
            short_name: owned(info.short_name.as_str()),
            version: info.version,
            hash: info.hash,
            size: info.size,
            alignment: info.alignment,
            fields,
            stable_layout: info.stable_layout,
        }
    }

    /// The schema that was saved.
    pub fn into_type_info(self) -> (r: TypeInfo)
        ensures
            r@ == self@,
    {
        self.to_type_info()
    }

    /// A copy of the schema that was saved.
    pub fn to_type_info(&self) -> (r: TypeInfo)
        ensures
            r@ == self@,
    {
        let mut fields: Vec<FieldInfo> = Vec::new();
        let mut i: usize = 0;
        while i < self.fields.len()
            invariant
                i <= self.fields@.len(),
                fields@.len() == i,
                forall|j: int| 0 <= j < i ==> (#[trigger] fields@[j])@ == self.fields@[j]@,
            decreases self.fields@.len() - i,
        {
            let saved = &self.fields[i];
            fields.push(FieldInfo {
                name: owned(saved.name.as_str()),
                type_label: owned(saved.type_label.as_str()),
                offset: saved.offset,
                size: saved.size,
                optional: saved.optional,
            });
            i = i + 1;
        }
        assert(fields@.map_values(|f: FieldInfo| f@) =~= self.fields@.map_values(|f: FieldData| f@));
        TypeInfo {
            name: owned(self.name.as_str()),
            short_name: owned(self.short_name.as_str()),
            version: self.version,
            hash: self.hash,
            size: self.size,
            alignment: self.alignment,
            fields,
            stable_layout: self.stable_layout,
        }
    }
}

/// A family as it is saved: its short name and each version's text with its hash.
#[derive(Debug, Clone)]
pub struct FamilyData {
    pub name: String,
    pub versions: Vec<(String, u64)>,
}

/// A whole registry as it is saved.
#[derive(Debug, Clone)]
pub struct RegistryData {
    pub schemas: Vec<SchemaData>,
    pub families: Vec<FamilyData>,
}

} // verus!
