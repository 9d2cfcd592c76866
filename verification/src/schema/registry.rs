//! A schema registry with version history: schemas by name and by hash, and for each
//! schema family the versions registered, in increasing order.
use vstd::prelude::*;
use std::collections::HashMap;
use super::type_info::{TypeInfo, TypeView};
use super::version::{SchemaVersion, version_lt, short_version_text, version_text};
use super::persistence::{FamilyData, RegistryData, SchemaData};
use crate::error::XervError;
use crate::keyed::{KeyedList, distinct_names};
use crate::text::owned;

verus! {

broadcast use vstd::std_specs::hash::group_hash_axioms;

/// The versions of a family, each with the hash registered for it, strictly increasing.
pub open spec fn sorted_versions(s: Seq<(SchemaVersion, u64)>) -> bool {
    forall|i: int, j: int| 0 <= i < j < s.len() ==> version_lt(s[i].0, s[j].0)
}

/// Some entry of `s` is for version `v`.
pub open spec fn has_version(s: Seq<(SchemaVersion, u64)>, v: SchemaVersion) -> bool {
    exists|i: int| 0 <= i < s.len() && (#[trigger] s[i]).0 == v
}

/// The version a schema of major version `version` is filed under: `version.0`, with the
/// major version cut to 16 bits.
pub open spec fn filed_version(version: u32) -> SchemaVersion {
    SchemaVersion { major: version as u16, minor: 0 }
}

/// The name of version `v` of family `short_name`: `short_name@v{major}` (or `@v{major}.{minor}`).
pub open spec fn family_member_name(short_name: Seq<char>, v: SchemaVersion) -> Seq<char> {
    short_name + "@"@ + short_version_text(v)
}

/// Schema registry with version history.
pub struct VersionedSchemaRegistry {
    schemas: KeyedList<TypeInfo>,
    by_hash: HashMap<u64, String>,
    versions: KeyedList<Vec<(SchemaVersion, u64)>>,
    persistence_path: Option<String>,
}

impl VersionedSchemaRegistry {
    #[verifier::type_invariant]
    spec fn inv(self) -> bool {
        &&& forall|k: Seq<char>| #[trigger] self.versions.spec_map().dom().contains(k)
            ==> sorted_versions(self.versions.spec_map()[k]@)
        &&& forall|k: Seq<char>| #[trigger] self.schemas.spec_map().dom().contains(k)
            ==> self.schemas.spec_map()[k].name@ == k
    }

    /// The schemas, by full name.
    pub closed spec fn spec_schemas(&self) -> Map<Seq<char>, TypeView> {
        self.schemas.spec_map().map_values(|t: TypeInfo| t@)
    }

    /// The full names, in the order they were first registered.
    pub closed spec fn spec_names(&self) -> Seq<Seq<char>> {
        self.schemas.spec_keys()
    }

    /// The name last registered under each hash.
    pub closed spec fn spec_by_hash(&self) -> Map<u64, Seq<char>> {
        self.by_hash@.map_values(|s: String| s@)
    }

    /// For each family, its versions with their hashes, in increasing order.
    pub closed spec fn spec_versions(&self) -> Map<Seq<char>, Seq<(SchemaVersion, u64)>> {
        self.versions.spec_map().map_values(|v: Vec<(SchemaVersion, u64)>| v@)
    }

    /// The families, in the order they were first registered.
    pub closed spec fn spec_families(&self) -> Seq<Seq<char>> {
        self.versions.spec_keys()
    }

    /// Where the registry is saved, if anywhere.
    pub closed spec fn spec_persistence_path(&self) -> Option<Seq<char>> {
        match self.persistence_path {
            Some(p) => Some(p@),
            None => None,
        }
    }

    /// The version list of family `short_name` (empty when it has none).
    pub open spec fn family(&self, short_name: Seq<char>) -> Seq<(SchemaVersion, u64)> {
        if self.spec_versions().dom().contains(short_name) {
            self.spec_versions()[short_name]
        } else {
            Seq::empty()
        }
    }

    /// An empty registry, saved nowhere.
    pub fn new() -> (r: Self)
        ensures
            r.spec_schemas() == Map::<Seq<char>, TypeView>::empty(),
            r.spec_names().len() == 0,
            r.spec_by_hash() == Map::<u64, Seq<char>>::empty(),
            r.spec_versions() == Map::<Seq<char>, Seq<(SchemaVersion, u64)>>::empty(),
            r.spec_families().len() == 0,
            r.spec_persistence_path() is None,
    {
        let r = VersionedSchemaRegistry {
            schemas: KeyedList::new(),
            by_hash: HashMap::new(),
            versions: KeyedList::new(),
            persistence_path: None,
        };
        proof {
            r.lemma_empty();
        }
        r
    }

    /// An empty registry, saved at `path`.
    pub fn with_persistence(path: &str) -> (r: Self)
        ensures
            r.spec_schemas() == Map::<Seq<char>, TypeView>::empty(),
            r.spec_names().len() == 0,
            r.spec_by_hash() == Map::<u64, Seq<char>>::empty(),
            r.spec_versions() == Map::<Seq<char>, Seq<(SchemaVersion, u64)>>::empty(),
            r.spec_families().len() == 0,
            r.spec_persistence_path() == Some(path@),
    {
        let r = VersionedSchemaRegistry {
            schemas: KeyedList::new(),
            by_hash: HashMap::new(),
            versions: KeyedList::new(),
            persistence_path: Some(owned(path)),
        };
        proof {
            r.lemma_empty();
        }
        r
    }

    proof fn lemma_empty(&self)
        requires
            self.schemas.spec_entries().len() == 0,
            self.versions.spec_entries().len() == 0,
            self.by_hash@ == Map::<u64, String>::empty(),
        ensures
            self.spec_schemas() == Map::<Seq<char>, TypeView>::empty(),
            self.spec_names().len() == 0,
            self.spec_by_hash() == Map::<u64, Seq<char>>::empty(),
            self.spec_versions() == Map::<Seq<char>, Seq<(SchemaVersion, u64)>>::empty(),
            self.spec_families().len() == 0,
    {
        assert(self.schemas.spec_map().dom() =~= Set::<Seq<char>>::empty());
        assert(self.versions.spec_map().dom() =~= Set::<Seq<char>>::empty());
        assert(self.spec_schemas() =~= Map::<Seq<char>, TypeView>::empty());
        assert(self.spec_by_hash() =~= Map::<u64, Seq<char>>::empty());
        assert(self.spec_versions() =~= Map::<Seq<char>, Seq<(SchemaVersion, u64)>>::empty());
    }

    /// Register `info` under its full name and its hash; when its family has no entry yet
    /// for its version (major version only), add one at its place in version order.
    pub fn register(&mut self, info: TypeInfo)
        ensures
            final(self).spec_schemas() == old(self).spec_schemas().insert(info.name@, info@),
            old(self).spec_schemas().dom().contains(info.name@) ==> final(self).spec_names() == old(self).spec_names(),
            !old(self).spec_schemas().dom().contains(info.name@) ==> final(self).spec_names() == old(self).spec_names().push(info.name@),
            final(self).spec_by_hash() == old(self).spec_by_hash().insert(info.hash, info.name@),
            has_version(old(self).family(info.short_name@), filed_version(info.version)) ==> {
                &&& final(self).spec_versions() == old(self).spec_versions()
                &&& final(self).spec_families() == old(self).spec_families()
            },
            !has_version(old(self).family(info.short_name@), filed_version(info.version)) ==> {
                &&& exists|p: int| 0 <= p <= old(self).family(info.short_name@).len()
                    && final(self).spec_versions() == old(self).spec_versions().insert(info.short_name@,
                        #[trigger] old(self).family(info.short_name@).insert(p, (filed_version(info.version), info.hash)))
                &&& old(self).spec_versions().dom().contains(info.short_name@) ==> final(self).spec_families() == old(self).spec_families()
                &&& !old(self).spec_versions().dom().contains(info.short_name@) ==> final(self).spec_families() == old(self).spec_families().push(info.short_name@)
            },
            sorted_versions(final(self).family(info.short_name@)),
            final(self).spec_persistence_path() == old(self).spec_persistence_path(),
    {
        proof {
            use_type_invariant(&*self);
        }
        let version = SchemaVersion::new(#[verifier::truncate] (info.version as u16), 0);
        let hash = info.hash;
        let name = owned(info.name.as_str());
        let short = owned(info.short_name.as_str());
        let ghost iv = info@;
        let ghost fam = self.family(short@);
        let ghost old_schemas = self.schemas.spec_map();
        let mut schemas: KeyedList<TypeInfo> = KeyedList::new();
        std::mem::swap(&mut schemas, &mut self.schemas);
        schemas.insert(name.as_str(), info);
        self.schemas = schemas;
        proof {
            assert(self.spec_schemas() =~= old_schemas.map_values(|t: TypeInfo| t@).insert(name@, iv));
        }
        let ghost old_hashes = self.by_hash@;
        let mut by_hash: HashMap<u64, String> = HashMap::new();
        std::mem::swap(&mut by_hash, &mut self.by_hash);
        by_hash.insert(hash, owned(name.as_str()));
        self.by_hash = by_hash;
        proof {
            assert(self.spec_by_hash() =~= old_hashes.map_values(|s: String| s@).insert(hash, name@));
        }
        let mut list: Vec<(SchemaVersion, u64)> = Vec::new();
        match self.versions.get(short.as_str()) {
            Some(l) => {
                let mut i: usize = 0;
                while i < l.len()
                    invariant
                        i <= l@.len(),
                        list@ == l@.take(i as int),
                    decreases l@.len() - i,
                {
                    list.push(l[i]);
                    proof {
                        assert(list@ =~= l@.take(i + 1));
                    }
                    i = i + 1;
                }
                assert(l@.take(i as int) =~= l@);
            },
            None => {},
        }
        assert(list@ == fam);
        assert(sorted_versions(fam)) by {
            if self.versions.spec_map().dom().contains(short@) {
                assert(sorted_versions(self.versions.spec_map()[short@]@));
            }
        }
        let mut present = false;
        let mut i: usize = 0;
        while i < list.len()
            invariant
                i <= list@.len(),
                present <==> exists|j: int| 0 <= j < i && (#[trigger] list@[j]).0 == version,
            decreases list@.len() - i,
        {
            if list[i].0 == version {
                present = true;
            }
            i = i + 1;
        }
        assert(present == has_version(fam, filed_version(iv.2)));
        if !present {
            let mut p: usize = 0;
            while p < list.len() && (list[p].0.major < version.major
                || (list[p].0.major == version.major && list[p].0.minor < version.minor))
                invariant
                    p <= list@.len(),
                    forall|j: int| 0 <= j < p ==> version_lt(#[trigger] list@[j].0, version),
                decreases list@.len() - p,
            {
                p = p + 1;
            }
            let ghost before = list@;
            list.insert(p, (version, hash));
            assert(list@ == fam.insert(p as int, (filed_version(iv.2), hash)));
            assert(sorted_versions(list@)) by {
                assert(sorted_versions(before));
                assert(forall|j: int| 0 <= j < before.len() ==> (#[trigger] before[j]).0 != version);
                assert(p < before.len() ==> !version_lt(before[p as int].0, version));
                assert forall|a: int, b: int| 0 <= a < b < list@.len() implies version_lt(list@[a].0, list@[b].0) by {
                    if b < p {
                        assert(list@[a] == before[a] && list@[b] == before[b]);
                    } else if a < p && b == p {
                        assert(list@[a] == before[a]);
                    } else if a < p {
                        assert(list@[a] == before[a] && list@[b] == before[b - 1]);
                    } else if a == p {
                        assert(list@[b] == before[b - 1]);
                        assert(before[p as int].0 != version);
                        if b - 1 > p {
                            assert(version_lt(before[p as int].0, before[b - 1].0));
                        }
                    } else {
                        assert(list@[a] == before[a - 1] && list@[b] == before[b - 1]);
                    }
                }
            }
            let ghost old_versions = self.versions.spec_map();
            let ghost list_view = list@;
            let mut versions: KeyedList<Vec<(SchemaVersion, u64)>> = KeyedList::new();
            std::mem::swap(&mut versions, &mut self.versions);
            versions.insert(short.as_str(), list);
            self.versions = versions;
            proof {
                assert(self.spec_versions() =~= old_versions.map_values(|v: Vec<(SchemaVersion, u64)>| v@).insert(short@, list_view));
            }
        }
    }

    /// Register `info` as version `version` of its family: renamed
    /// `short_name@{version.to_short_string()}`, with `version`'s major as its version.
    pub fn register_versioned(&mut self, info: TypeInfo, version: SchemaVersion)
        ensures
            ({
                let name = family_member_name(info.short_name@, version);
                let iv = (name, info@.1, version.major as u32, info@.3, info@.4, info@.5, info@.6, info@.7);
                &&& final(self).spec_schemas() == old(self).spec_schemas().insert(name, iv)
                &&& final(self).spec_by_hash() == old(self).spec_by_hash().insert(info.hash, name)
                &&& sorted_versions(final(self).family(info.short_name@))
                &&& has_version(final(self).family(info.short_name@), filed_version(version.major as u32))
            }),
            final(self).spec_persistence_path() == old(self).spec_persistence_path(),
    {
        let mut name = owned(info.short_name.as_str());
        name.append("@");
        let v = version.to_short_string();
        name.append(v.as_str());
        let renamed = TypeInfo { name, version: version.major as u32, ..info };
        let ghost short = renamed.short_name@;
        let ghost fv = filed_version(version.major as u32);
        self.register(renamed);
        proof {
            use_type_invariant(&*self);
            if !has_version(old(self).family(short), fv) {
                let p = choose|p: int| 0 <= p <= old(self).family(short).len()
                    && self.spec_versions() == old(self).spec_versions().insert(short,
                        #[trigger] old(self).family(short).insert(p, (fv, renamed.hash)));
                assert(self.family(short)[p].0 == fv);
            } else {
                let i = choose|i: int| 0 <= i < old(self).family(short).len() && (#[trigger] old(self).family(short)[i]).0 == fv;
                assert(self.family(short)[i].0 == fv);
            }
        }
    }

    /// The schema registered under the full name `name`.
    pub fn get(&self, name: &str) -> (r: Option<TypeInfo>)
        ensures
            r is Some <==> self.spec_schemas().dom().contains(name@),
            r matches Some(t) ==> t@ == self.spec_schemas()[name@],
    {
        match self.schemas.get(name) {
            Some(t) => Some(t.duplicate()),
            None => None,
        }
    }

    /// The schema registered under the name last registered with `hash`.
    pub fn get_by_hash(&self, hash: u64) -> (r: Option<TypeInfo>)
        ensures
            !self.spec_by_hash().dom().contains(hash) ==> r is None,
            self.spec_by_hash().dom().contains(hash) ==> {
                let n = self.spec_by_hash()[hash];
                &&& r is Some <==> self.spec_schemas().dom().contains(n)
                &&& r matches Some(t) ==> t@ == self.spec_schemas()[n]
            },
    {
        match self.by_hash.get(&hash) {
            Some(name) => self.get(name.as_str()),
            None => None,
        }
    }

    /// The versions of family `short_name`, in increasing order (empty when unknown).
    pub fn get_versions(&self, short_name: &str) -> (r: Vec<SchemaVersion>)
        ensures
            r@ == self.family(short_name@).map_values(|e: (SchemaVersion, u64)| e.0),
            forall|i: int, j: int| 0 <= i < j < r@.len() ==> version_lt(r@[i], r@[j]),
    {
        proof {
            use_type_invariant(self);
        }
        let mut out: Vec<SchemaVersion> = Vec::new();
        match self.versions.get(short_name) {
            Some(l) => {
                let mut i: usize = 0;
                while i < l.len()
                    invariant
                        i <= l@.len(),
                        out@ == l@.take(i as int).map_values(|e: (SchemaVersion, u64)| e.0),
                    decreases l@.len() - i,
                {
                    out.push(l[i].0);
                    proof {
                        assert(out@ =~= l@.take(i + 1).map_values(|e: (SchemaVersion, u64)| e.0));
                    }
                    i = i + 1;
                }
                assert(l@.take(i as int) =~= l@);
                assert(sorted_versions(l@));
            },
            None => {
                assert(out@ =~= self.family(short_name@).map_values(|e: (SchemaVersion, u64)| e.0));
            },
        }
        out
    }

    /// The schema of the latest version of family `short_name`, looked up by the name
    /// `short_name@{version.to_short_string()}`.
    pub fn get_latest(&self, short_name: &str) -> (r: Option<TypeInfo>)
        ensures
            self.family(short_name@).len() == 0 ==> r is None,
            self.family(short_name@).len() > 0 ==> {
                let n = family_member_name(short_name@, self.family(short_name@).last().0);
                &&& r is Some <==> self.spec_schemas().dom().contains(n)
                &&& r matches Some(t) ==> t@ == self.spec_schemas()[n]
            },
    {
        match self.versions.get(short_name) {
            Some(l) => {
                if l.len() == 0 {
                    return None;
                }
                let v = l[l.len() - 1].0;
                self.get_version(short_name, v)
            },
            None => None,
        }
    }

    /// The schema registered as version `version` of family `short_name`, looked up by the
    /// name `short_name@{version.to_short_string()}`.
    pub fn get_version(&self, short_name: &str, version: SchemaVersion) -> (r: Option<TypeInfo>)
        ensures
            r is Some <==> self.spec_schemas().dom().contains(family_member_name(short_name@, version)),
            r matches Some(t) ==> t@ == self.spec_schemas()[family_member_name(short_name@, version)],
    {
        let mut name = owned(short_name);
        name.append("@");
        let v = version.to_short_string();
        name.append(v.as_str());
        self.get(name.as_str())
    }

    /// Whether a schema is registered under the full name `name`.
    pub fn contains(&self, name: &str) -> (r: bool)
        ensures
            r == self.spec_schemas().dom().contains(name@),
    {
        self.schemas.get(name).is_some()
    }

    /// Whether family `short_name` has versions registered.
    pub fn contains_family(&self, short_name: &str) -> (r: bool)
        ensures
            r == self.spec_versions().dom().contains(short_name@),
    {
        self.versions.get(short_name).is_some()
    }

    /// The full names, in the order they were first registered.
    pub fn names(&self) -> (r: Vec<String>)
        ensures
            r@.map_values(|s: String| s@) == self.spec_names(),
    {
        let mut out: Vec<String> = Vec::new();
        let mut i: usize = 0;
        while i < self.schemas.len()
            invariant
                i <= self.schemas.spec_entries().len(),
                out@.len() == i,
                forall|j: int| 0 <= j < i ==> (#[trigger] out@[j])@ == self.schemas.spec_entries()[j].0@,
            decreases self.schemas.spec_entries().len() - i,
        {
            out.push(owned(self.schemas.entry(i).0.as_str()));
            i = i + 1;
        }
        assert(out@.map_values(|s: String| s@) =~= self.spec_names());
        out
    }

    /// The families, in the order they were first registered.
    pub fn families(&self) -> (r: Vec<String>)
        ensures
            r@.map_values(|s: String| s@) == self.spec_families(),
    {
        let mut out: Vec<String> = Vec::new();
        let mut i: usize = 0;
        while i < self.versions.len()
            invariant
                i <= self.versions.spec_entries().len(),
                out@.len() == i,
                forall|j: int| 0 <= j < i ==> (#[trigger] out@[j])@ == self.versions.spec_entries()[j].0@,
            decreases self.versions.spec_entries().len() - i,
        {
            out.push(owned(self.versions.entry(i).0.as_str()));
            i = i + 1;
        }
        assert(out@.map_values(|s: String| s@) =~= self.spec_families());
        out
    }

    /// Forget every schema, hash and family (where it is saved stays).
    pub fn clear(&mut self)
        ensures
            final(self).spec_schemas() == Map::<Seq<char>, TypeView>::empty(),
            final(self).spec_names().len() == 0,
            final(self).spec_by_hash() == Map::<u64, Seq<char>>::empty(),
            final(self).spec_versions() == Map::<Seq<char>, Seq<(SchemaVersion, u64)>>::empty(),
            final(self).spec_families().len() == 0,
            final(self).spec_persistence_path() == old(self).spec_persistence_path(),
    {
        proof {
            use_type_invariant(&*self);
        }
        let versions: KeyedList<Vec<(SchemaVersion, u64)>> = KeyedList::new();
        assert(versions.spec_map().dom() =~= Set::<Seq<char>>::empty());
        self.versions = versions;
        let schemas: KeyedList<TypeInfo> = KeyedList::new();
        assert(schemas.spec_map().dom() =~= Set::<Seq<char>>::empty());
        self.schemas = schemas;
        self.by_hash = HashMap::new();
        proof {
            self.lemma_empty();
        }
    }

    /// The number of schemas registered.
    pub fn len(&self) -> (r: usize)
        ensures
            r == self.spec_names().len(),
    {
        self.schemas.len()
    }

    /// Whether no schema is registered.
    pub fn is_empty(&self) -> (r: bool)
        ensures
            r == (self.spec_names().len() == 0),
    {
        self.schemas.len() == 0
    }
}

impl Default for VersionedSchemaRegistry {
    /// An empty registry, saved nowhere.
    fn default() -> (r: Self)
        ensures
            r.spec_schemas() == Map::<Seq<char>, TypeView>::empty(),
            r.spec_names().len() == 0,
            r.spec_by_hash() == Map::<u64, Seq<char>>::empty(),
            r.spec_versions() == Map::<Seq<char>, Seq<(SchemaVersion, u64)>>::empty(),
            r.spec_families().len() == 0,
            r.spec_persistence_path() is None,
    {
        VersionedSchemaRegistry::new()
    }
}

/// The schemas that registering the types `s` in order leaves in an empty registry.
pub open spec fn registered_schemas(s: Seq<TypeView>) -> Map<Seq<char>, TypeView>
    decreases s.len(),
{
    if s.len() == 0 {
        Map::empty()
    } else {
        registered_schemas(s.drop_last()).insert(s.last().0, s.last())
    }
}

/// The saved form of one family: its versions as text (`v{major}.{minor}`) with their hashes.
pub open spec fn saved_family(f: FamilyData, name: Seq<char>, versions: Seq<(SchemaVersion, u64)>) -> bool {
    &&& f.name@ == name
    &&& f.versions@.len() == versions.len()
    &&& forall|j: int| 0 <= j < versions.len() ==> {
        &&& (#[trigger] f.versions@[j]).0@ == version_text(versions[j].0)
        &&& f.versions@[j].1 == versions[j].1
    }
}

impl VersionedSchemaRegistry {
    /// Where the registry is saved; a configuration error when it is saved nowhere.
    pub fn persistence_target(&self) -> (r: Result<String, XervError>)
        ensures
            match self.spec_persistence_path() {
                Some(p) => r matches Ok(s) && s@ == p,
                None => r matches Err(XervError::ConfigValue { field, cause })
                    && field@ == "persistence_path"@ && cause@ == "No persistence path configured"@,
            },
    {
        match &self.persistence_path {
            Some(p) => Ok(owned(p.as_str())),
            None => Err(XervError::ConfigValue {
                field: owned("persistence_path"),
                cause: owned("No persistence path configured"),
            }),
        }
    }

    /// What saving the registry writes: every schema in registration order, and every
    /// family with its versions in increasing order. Registering the saved schemas in
    /// order gives back the registry's schemas.
    pub fn to_data(&self) -> (r: RegistryData)
        ensures
            registered_schemas(r.schemas@.map_values(|d: SchemaData| d@)) == self.spec_schemas(),
            r.schemas@.len() == self.spec_names().len(),
            forall|i: int| 0 <= i < r.schemas@.len() ==> (#[trigger] r.schemas@[i])@ == self.spec_schemas()[self.spec_names()[i]],
            r.families@.len() == self.spec_families().len(),
            forall|i: int| 0 <= i < r.families@.len() ==> saved_family(#[trigger] r.families@[i], self.spec_families()[i], self.family(self.spec_families()[i])),
    {
        let mut schemas: Vec<SchemaData> = Vec::new();
        let mut i: usize = 0;
        while i < self.schemas.len()
            invariant
                i <= self.schemas.spec_entries().len(),
                schemas@.len() == i,
                forall|j: int| 0 <= j < i ==> (#[trigger] schemas@[j])@ == self.spec_schemas()[self.spec_names()[j]],
            decreases self.schemas.spec_entries().len() - i,
        {
            let entry = self.schemas.entry(i);
            schemas.push(SchemaData::from(&entry.1));
            i = i + 1;
        }
        proof {
            use_type_invariant(self);
            let names = self.spec_names();
            let m = self.spec_schemas();
            let views = schemas@.map_values(|d: SchemaData| d@);
            let es = self.schemas.spec_entries();
            assert(distinct_names(es));
            assert forall|j: int| 0 <= j < names.len() implies
                m.dom().contains(#[trigger] names[j]) && views[j] == m[names[j]] && m[names[j]].0 == names[j] by {
                assert(es[j].0@ == names[j]);
                assert(self.schemas.spec_map().dom().contains(names[j]));
            }
            assert(schemas_under(views, names, m));
            assert forall|k: Seq<char>| #[trigger] m.dom().contains(k) implies exists|j: int| 0 <= j < names.len() && names[j] == k by {
                let j = choose|j: int| 0 <= j < es.len() && es[j].0@ == k;
                assert(names[j] == k);
            }
            lemma_reload(views, names, m, names.len() as int);
            assert(views.take(names.len() as int) =~= views);
            assert(registered_schemas(views) =~= m);
        }
        let mut families: Vec<FamilyData> = Vec::new();
        let mut k: usize = 0;
        while k < self.versions.len()
            invariant
                k <= self.versions.spec_entries().len(),
                families@.len() == k,
                forall|j: int| 0 <= j < k ==> saved_family(#[trigger] families@[j], self.spec_families()[j], self.family(self.spec_families()[j])),
            decreases self.versions.spec_entries().len() - k,
        {
            let entry = self.versions.entry(k);
            let ghost name = entry.0@;
            assert(self.family(name) == entry.1@);
            let mut versions: Vec<(String, u64)> = Vec::new();
            let mut j: usize = 0;
            while j < entry.1.len()
                invariant
                    j <= entry.1@.len(),
                    versions@.len() == j,
                    forall|m: int| 0 <= m < j ==> {
                        &&& (#[trigger] versions@[m]).0@ == version_text(entry.1@[m].0)
                        &&& versions@[m].1 == entry.1@[m].1
                    },
                decreases entry.1@.len() - j,
            {
                let (v, h) = entry.1[j];
                versions.push((v.to_version_string(), h));
                j = j + 1;
            }
            families.push(FamilyData { name: owned(entry.0.as_str()), versions });
            k = k + 1;
        }
        RegistryData { schemas, families }
    }

    /// A registry saved at `path` holding the saved schemas, registered in order.
    pub fn from_data(path: &str, data: RegistryData) -> (r: Self)
        ensures
            r.spec_schemas() == registered_schemas(data.schemas@.map_values(|d: SchemaData| d@)),
            r.spec_persistence_path() == Some(path@),
    {
        let ghost saved = data.schemas@.map_values(|d: SchemaData| d@);
        let mut registry = Self::with_persistence(path);
        let schemas = data.schemas;
        let mut i: usize = 0;
        assert(saved.take(0) =~= Seq::<TypeView>::empty());
        while i < schemas.len()
            invariant
                i <= schemas@.len(),
                saved == schemas@.map_values(|d: SchemaData| d@),
                registry.spec_schemas() == registered_schemas(saved.take(i as int)),
                registry.spec_persistence_path() == Some(path@),
            decreases schemas@.len() - i,
        {
            let info = schemas[i].to_type_info();
            registry.register(info);
            proof {
                assert(saved.take(i + 1).drop_last() =~= saved.take(i as int));
            }
            i = i + 1;
        }
        assert(saved.take(schemas@.len() as int) =~= saved);
        registry
    }
}

/// Saving a registry and loading what was saved gives back its schemas: when `data` is
/// what `to_data` wrote for `saved` and `loaded` is what `from_data` built from `data`,
/// `loaded` holds exactly the schemas of `saved`.
pub proof fn lemma_save_load_roundtrip(saved: VersionedSchemaRegistry, data: RegistryData, loaded: VersionedSchemaRegistry)
    requires
        registered_schemas(data.schemas@.map_values(|d: SchemaData| d@)) == saved.spec_schemas(),
        loaded.spec_schemas() == registered_schemas(data.schemas@.map_values(|d: SchemaData| d@)),
    ensures
        loaded.spec_schemas() == saved.spec_schemas(),
{
}

/// The types `views` are the schemas of `m` under `names`, each named by its key.
pub open spec fn schemas_under(views: Seq<TypeView>, names: Seq<Seq<char>>, m: Map<Seq<char>, TypeView>) -> bool {
    &&& views.len() == names.len()
    &&& forall|i: int, j: int| 0 <= i < names.len() && 0 <= j < names.len() && i != j ==> names[i] != names[j]
    &&& forall|j: int| 0 <= j < names.len() ==> m.dom().contains(#[trigger] names[j])
    &&& forall|j: int| 0 <= j < names.len() ==> #[trigger] views[j] == m[names[j]]
    &&& forall|j: int| 0 <= j < names.len() ==> m[#[trigger] names[j]].0 == names[j]
}

/// Registering, in order, types that are the schemas of a map under distinct names (each
/// schema's name being its key) gives those schemas under those names.
proof fn lemma_reload(views: Seq<TypeView>, names: Seq<Seq<char>>, m: Map<Seq<char>, TypeView>, n: int)
    requires
        schemas_under(views, names, m),
        0 <= n <= views.len(),
    ensures
        forall|k: Seq<char>| #[trigger] registered_schemas(views.take(n)).dom().contains(k)
            <==> exists|j: int| 0 <= j < n && names[j] == k,
        forall|k: Seq<char>| #[trigger] registered_schemas(views.take(n)).dom().contains(k)
            ==> registered_schemas(views.take(n))[k] == m[k],
    decreases n,
{
    if n == 0 {
        assert(views.take(0) =~= Seq::<TypeView>::empty());
    } else {
        lemma_reload(views, names, m, n - 1);
        let t = views.take(n);
        let prev = registered_schemas(views.take(n - 1));
        assert(t.drop_last() =~= views.take(n - 1));
        assert(t.last() == views[n - 1]);
        assert(views[n - 1] == m[names[n - 1]]);
        assert(m[names[n - 1]].0 == names[n - 1]);
        assert(registered_schemas(t) == prev.insert(names[n - 1], views[n - 1]));
        assert forall|k: Seq<char>| #[trigger] registered_schemas(t).dom().contains(k)
            <==> exists|j: int| 0 <= j < n && names[j] == k by {
            if prev.dom().contains(k) {
                let j = choose|j: int| 0 <= j < n - 1 && names[j] == k;
                assert(0 <= j < n && names[j] == k);
            }
            if exists|j: int| 0 <= j < n && names[j] == k {
                let j = choose|j: int| 0 <= j < n && names[j] == k;
                if j < n - 1 {
                    assert(prev.dom().contains(k));
                }
            }
        }
        assert forall|k: Seq<char>| #[trigger] registered_schemas(t).dom().contains(k)
            implies registered_schemas(t)[k] == m[k] by {
            if k != names[n - 1] {
                assert(prev.dom().contains(k));
            }
        }
    }
}

} // verus!
