use std::sync::Arc;
use xerv_core::schema::compatibility::{CompatibilityMatrix, CompatibilityReport, SchemaChange};
use xerv_core::schema::defaults::{DefaultProvider, DefaultRegistry, FieldDefault, MapDefaultProvider};
use xerv_core::schema::migration::{extract_version, Migration, MigrationRegistry};
use xerv_core::schema::persistence::{FieldData, SchemaData};
use xerv_core::schema::registry::VersionedSchemaRegistry;
use xerv_core::schema::type_info::{FieldInfo, TypeInfo};
use xerv_core::schema::version::{ChangeKind, SchemaVersion, VersionRange};

type Transform = fn(u64) -> u64;

fn keep(offset: u64) -> u64 {
    offset
}

fn mock_migration(from_hash: u64, to_hash: u64) -> Migration<Transform> {
    Migration::new(&format!("Test@v{}", from_hash), from_hash, &format!("Test@v{}", to_hash), to_hash, keep as Transform)
        .with_description(&format!("Migrate {} to {}", from_hash, to_hash))
}

fn create_v1_schema() -> TypeInfo {
    TypeInfo::new("Order", 1).with_hash(100).with_fields(vec![
        FieldInfo::new("id", "String"),
        FieldInfo::new("amount", "f64"),
        FieldInfo::new("status", "String"),
    ])
}

fn create_v2_schema_compatible() -> TypeInfo {
    TypeInfo::new("Order", 2).with_hash(200).with_fields(vec![
        FieldInfo::new("id", "String"),
        FieldInfo::new("amount", "f64"),
        FieldInfo::new("status", "String"),
        FieldInfo::new("notes", "String").optional(),
    ])
}

fn create_v2_schema_breaking() -> TypeInfo {
    TypeInfo::new("Order", 2).with_hash(200).with_fields(vec![
        FieldInfo::new("id", "String"),
        FieldInfo::new("total", "f64"),
        FieldInfo::new("status", "i32"),
    ])
}

fn create_test_schema(name: &str, version: u32, hash: u64) -> TypeInfo {
    TypeInfo::new(name, version)
        .with_hash(hash)
        .with_size(32)
        .with_fields(vec![
            FieldInfo::new("id", "String").with_offset(0).with_size(24),
            FieldInfo::new("value", "i32").with_offset(24).with_size(4),
        ])
        .stable()
}

#[test]
fn version_creation() {
    let v = SchemaVersion::new(1, 2);
    assert_eq!(v.major, 1);
    assert_eq!(v.minor, 2);
}

#[test]
fn version_parsing() {
    assert_eq!(SchemaVersion::parse("v1"), Some(SchemaVersion::new(1, 0)));
    assert_eq!(SchemaVersion::parse("v1.2"), Some(SchemaVersion::new(1, 2)));
    assert_eq!(SchemaVersion::parse("1.0"), Some(SchemaVersion::new(1, 0)));
    assert_eq!(SchemaVersion::parse("2"), Some(SchemaVersion::new(2, 0)));
    assert_eq!(SchemaVersion::parse("invalid"), None);
    assert_eq!(SchemaVersion::parse("v"), None);
}

#[test]
fn version_display() {
    assert_eq!(SchemaVersion::new(1, 0).to_version_string(), "v1.0");
    assert_eq!(SchemaVersion::new(2, 3).to_version_string(), "v2.3");
    assert_eq!(SchemaVersion::new(1, 0).to_short_string(), "v1");
    assert_eq!(SchemaVersion::new(1, 1).to_short_string(), "v1.1");
}

#[test]
fn version_text_roundtrip() {
    for v in [SchemaVersion::new(0, 0), SchemaVersion::new(3, 14), SchemaVersion::new(65535, 65535)] {
        assert_eq!(SchemaVersion::parse(&v.to_version_string()), Some(v));
        assert_eq!(SchemaVersion::parse(&v.to_short_string()), Some(v));
    }
    assert_eq!(SchemaVersion::parse("v65536"), None);
    assert_eq!(SchemaVersion::parse("1.2.3"), None);
}

#[test]
fn version_compatibility() {
    let v1_0 = SchemaVersion::new(1, 0);
    let v1_1 = SchemaVersion::new(1, 1);
    let v2_0 = SchemaVersion::new(2, 0);

    assert!(v1_1.is_compatible_with(&v1_0));
    assert!(!v1_0.is_compatible_with(&v1_1));
    assert!(v1_0.is_compatible_with(&v1_0));
    assert!(!v2_0.is_compatible_with(&v1_0));
    assert!(!v1_0.is_compatible_with(&v2_0));
}

#[test]
fn version_ordering() {
    let v1_0 = SchemaVersion::new(1, 0);
    let v1_1 = SchemaVersion::new(1, 1);
    let v2_0 = SchemaVersion::new(2, 0);

    assert!(v1_0 < v1_1);
    assert!(v1_1 < v2_0);
    assert!(v1_0 < v2_0);

    let mut versions = vec![v2_0, v1_0, v1_1];
    versions.sort();
    assert_eq!(versions, vec![v1_0, v1_1, v2_0]);
    assert!(v1_0.is_at_most(&v1_1));
    assert!(!v2_0.is_at_most(&v1_1));
}

#[test]
fn version_successor() {
    let v1_0 = SchemaVersion::new(1, 0);
    let v1_1 = SchemaVersion::new(1, 1);
    let v2_0 = SchemaVersion::new(2, 0);

    assert!(v1_1.is_successor_of(&v1_0));
    assert!(v2_0.is_successor_of(&v1_1));
    assert!(v2_0.is_successor_of(&v1_0));
    assert!(!v1_0.is_successor_of(&v1_1));
    assert_eq!(v1_1.next_minor(), SchemaVersion::new(1, 2));
    assert_eq!(v1_1.next_major(), SchemaVersion::new(2, 0));
}

#[test]
fn version_range_contains() {
    let range = VersionRange::between(SchemaVersion::new(1, 0), SchemaVersion::new(1, 5));

    assert!(range.contains(SchemaVersion::new(1, 0)));
    assert!(range.contains(SchemaVersion::new(1, 3)));
    assert!(range.contains(SchemaVersion::new(1, 5)));
    assert!(!range.contains(SchemaVersion::new(0, 9)));
    assert!(!range.contains(SchemaVersion::new(1, 6)));
    assert!(!range.contains(SchemaVersion::new(2, 0)));
}

#[test]
fn version_range_from() {
    let range = VersionRange::from(SchemaVersion::new(1, 0));

    assert!(!range.contains(SchemaVersion::new(0, 9)));
    assert!(range.contains(SchemaVersion::new(1, 0)));
    assert!(range.contains(SchemaVersion::new(2, 5)));
    assert!(range.contains(SchemaVersion::new(100, 0)));
}

#[test]
fn version_range_exact() {
    let range = VersionRange::exact(SchemaVersion::new(1, 2));

    assert!(!range.contains(SchemaVersion::new(1, 1)));
    assert!(range.contains(SchemaVersion::new(1, 2)));
    assert!(!range.contains(SchemaVersion::new(1, 3)));
}

#[test]
fn version_range_overlaps() {
    let range1 = VersionRange::between(SchemaVersion::new(1, 0), SchemaVersion::new(1, 5));
    let range2 = VersionRange::between(SchemaVersion::new(1, 3), SchemaVersion::new(2, 0));
    let range3 = VersionRange::between(SchemaVersion::new(2, 0), SchemaVersion::new(3, 0));

    assert!(range1.overlaps(&range2));
    assert!(range2.overlaps(&range3));
    assert!(!range1.overlaps(&range3));
    assert!(range3.overlaps(&VersionRange::from(SchemaVersion::new(2, 5))));
}

#[test]
fn change_kind_breaking() {
    assert!(!ChangeKind::AddOptionalField.is_breaking());
    assert!(ChangeKind::AddRequiredField.is_breaking());
    assert!(ChangeKind::RemoveField.is_breaking());
    assert!(ChangeKind::ChangeFieldType.is_breaking());
    assert!(ChangeKind::RenameField.is_breaking());
    assert!(!ChangeKind::DeprecateField.is_breaking());
    assert!(!ChangeKind::ChangeDefault.is_breaking());
    assert!(!ChangeKind::MakeOptional.is_breaking());
    assert!(ChangeKind::MakeRequired.is_breaking());
}

#[test]
fn map_provider_string_default() {
    let provider = MapDefaultProvider::new().with_string("currency", "USD");

    assert!(provider.has_default("currency"));
    assert!(!provider.has_default("other"));

    let bytes = provider.default_bytes("currency", "String").unwrap();
    assert_eq!(String::from_utf8(bytes).unwrap(), "USD");

    let repr = provider.default_string("currency", "String").unwrap();
    assert_eq!(repr, "USD");
}

#[test]
fn map_provider_integer_defaults() {
    let provider = MapDefaultProvider::new().with_i32("count", 42).with_u64("big", 7).with_bool("active", true);

    let count_bytes = provider.default_bytes("count", "i32").unwrap();
    assert_eq!(i32::from_le_bytes(count_bytes.try_into().unwrap()), 42);
    assert_eq!(provider.default_string("count", "i32"), Some("42".to_string()));
    assert_eq!(u64::from_le_bytes(provider.default_bytes("big", "u64").unwrap().try_into().unwrap()), 7);

    let active_bytes = provider.default_bytes("active", "bool").unwrap();
    assert_eq!(active_bytes[0], 1);
    assert!(provider.default_bytes("missing", "i32").is_none());
}

#[test]
fn fields_with_defaults() {
    let provider = MapDefaultProvider::new().with_string("a", "value").with_i32("b", 0).with_bool("c", false);

    let fields = provider.fields_with_defaults();
    assert_eq!(fields.len(), 3);
    assert!(fields.contains(&"a".to_string()));
    assert!(fields.contains(&"b".to_string()));
    assert!(fields.contains(&"c".to_string()));
}

#[test]
fn field_default_builder() {
    let d = FieldDefault::new("currency", "String", "\"USD\"").with_bytes(b"USD".to_vec());
    assert_eq!(d.field, "currency");
    assert_eq!(d.bytes, Some(b"USD".to_vec()));
}

#[test]
fn register_and_find_direct() {
    let mut registry: MigrationRegistry<Transform> = MigrationRegistry::new();

    registry.register(mock_migration(100, 200)).unwrap();

    assert!(registry.find_direct(100, 200).is_some());
    assert!(registry.find_direct(200, 100).is_none());
    assert!(registry.find_direct(100, 300).is_none());
}

#[test]
fn find_path_direct() {
    let mut registry: MigrationRegistry<Transform> = MigrationRegistry::new();

    registry.register(mock_migration(100, 200)).unwrap();

    let path = registry.find_path(100, 200).unwrap();
    assert_eq!(path.len(), 1);
    assert_eq!(path[0].from_hash, 100);
    assert_eq!(path[0].to_hash, 200);
}

#[test]
fn find_path_multi_hop() {
    let mut registry: MigrationRegistry<Transform> = MigrationRegistry::new();

    registry.register(mock_migration(100, 200)).unwrap();
    registry.register(mock_migration(200, 300)).unwrap();
    registry.register(mock_migration(300, 400)).unwrap();

    let path = registry.find_path(100, 200).unwrap();
    assert_eq!(path.len(), 1);

    let path = registry.find_path(100, 400).unwrap();
    assert_eq!(path.len(), 3);
    assert_eq!(path[0].from_hash, 100);
    assert_eq!(path[1].from_hash, 200);
    assert_eq!(path[2].from_hash, 300);
}

#[test]
fn find_path_shortest() {
    let mut registry: MigrationRegistry<Transform> = MigrationRegistry::new();

    registry.register(mock_migration(100, 200)).unwrap();
    registry.register(mock_migration(200, 300)).unwrap();
    registry.register(mock_migration(300, 400)).unwrap();
    registry.register(mock_migration(100, 400)).unwrap();

    let path = registry.find_path(100, 400).unwrap();
    assert_eq!(path.len(), 1);
    assert_eq!(path[0].to_hash, 400);
}

#[test]
fn no_path() {
    let mut registry: MigrationRegistry<Transform> = MigrationRegistry::new();

    registry.register(mock_migration(100, 200)).unwrap();
    registry.register(mock_migration(300, 400)).unwrap();

    assert!(registry.find_path(100, 400).is_none());
    assert!(!registry.has_path(100, 400));
}

#[test]
fn same_version_empty_path() {
    let registry: MigrationRegistry<Transform> = MigrationRegistry::new();

    let path = registry.find_path(100, 100).unwrap();
    assert!(path.is_empty());
    assert!(registry.has_path(100, 100));
}

#[test]
fn replace_migration() {
    let mut registry: MigrationRegistry<Transform> = MigrationRegistry::new();

    let m1 = mock_migration(100, 200).with_description("First");
    let m2 = mock_migration(100, 200).with_description("Second");

    registry.register(m1).unwrap();
    assert_eq!(registry.len(), 1);

    registry.register(m2).unwrap();
    assert_eq!(registry.len(), 1);

    let found = registry.find_direct(100, 200).unwrap();
    assert_eq!(found.description, "Second");
}

#[test]
fn unregister_migration() {
    let mut registry: MigrationRegistry<Transform> = MigrationRegistry::new();
    registry.register(mock_migration(100, 200)).unwrap();
    registry.register(mock_migration(200, 300)).unwrap();
    assert_eq!(registry.unregister(100, 200).unwrap().to_hash, 200);
    assert!(registry.unregister(100, 200).is_none());
    assert!(!registry.has_path(100, 300));
    assert_eq!(registry.len(), 2);
    assert!(!registry.is_empty());
    assert_eq!(registry.list().len(), 2);
}

#[test]
fn migrations_from_and_to() {
    let mut registry: MigrationRegistry<Transform> = MigrationRegistry::new();

    registry.register(mock_migration(100, 200)).unwrap();
    registry.register(mock_migration(100, 300)).unwrap();
    registry.register(mock_migration(200, 300)).unwrap();

    let from_100 = registry.migrations_from(100);
    assert_eq!(from_100.len(), 2);

    let to_300 = registry.migrations_to(300);
    assert_eq!(to_300.len(), 2);
}

#[test]
fn migration_versions_from_names() {
    let m = mock_migration(1, 2);
    assert_eq!(m.from_version, SchemaVersion::new(1, 0));
    assert_eq!(m.to_version, SchemaVersion::new(2, 0));
    let unnamed = Migration::new("Order", 1, "Order", 2, keep as Transform);
    assert_eq!(unnamed.from_version, SchemaVersion::new(1, 0));
    assert_eq!(unnamed.description, "");
}

#[test]
fn extract_version_from_name() {
    assert_eq!(extract_version("OrderInput@v1"), Some(SchemaVersion::new(1, 0)));
    assert_eq!(extract_version("OrderInput@v2.1"), Some(SchemaVersion::new(2, 1)));
    assert_eq!(extract_version("OrderInput"), None);
}

#[test]
fn identical_schemas() {
    let matrix: CompatibilityMatrix<Transform> = CompatibilityMatrix::default();
    let v1 = create_v1_schema();

    let report = matrix.check(&v1, &v1);
    assert!(report.compatible);
    assert!(report.changes.is_empty());
}

#[test]
fn compatible_with_optional_field() {
    let matrix: CompatibilityMatrix<Transform> = CompatibilityMatrix::default();
    let v1 = create_v1_schema();
    let v2 = create_v2_schema_compatible();

    let report = matrix.check(&v1, &v2);
    assert!(report.compatible);
    assert!(!report.migration_required);
    assert_eq!(report.changes.len(), 1);
    assert_eq!(report.changes[0].kind, ChangeKind::AddOptionalField);
    assert_eq!(report.summary, "Compatible with non-breaking changes");
}

#[test]
fn breaking_changes() {
    let matrix: CompatibilityMatrix<Transform> = CompatibilityMatrix::default();
    let v1 = create_v1_schema();
    let v2 = create_v2_schema_breaking();

    let report = matrix.check(&v1, &v2);
    assert!(!report.compatible);
    assert!(report.migration_required);
    assert!(report.has_breaking_changes());

    let breaking = report.breaking_changes();
    assert!(!breaking.is_empty());
    assert_eq!(breaking.len(), 3);
    assert_eq!(report.summary, "3 breaking changes, no migration available");
    assert!(report.non_breaking_changes().is_empty());
}

#[test]
fn detect_changes_removed_field() {
    let matrix: CompatibilityMatrix<Transform> = CompatibilityMatrix::default();

    let v1 = TypeInfo::new("Test", 1).with_fields(vec![FieldInfo::new("a", "i32"), FieldInfo::new("b", "i32")]);
    let v2 = TypeInfo::new("Test", 2).with_fields(vec![FieldInfo::new("a", "i32")]);

    let changes = matrix.detect_changes(&v1, &v2);
    assert_eq!(changes.len(), 1);
    assert_eq!(changes[0].kind, ChangeKind::RemoveField);
    assert_eq!(changes[0].field, "b");
}

#[test]
fn detect_changes_type_change() {
    let matrix: CompatibilityMatrix<Transform> = CompatibilityMatrix::default();

    let v1 = TypeInfo::new("Test", 1).with_fields(vec![FieldInfo::new("value", "i32")]);
    let v2 = TypeInfo::new("Test", 2).with_fields(vec![FieldInfo::new("value", "f64")]);

    let changes = matrix.detect_changes(&v1, &v2);
    assert_eq!(changes.len(), 1);
    assert_eq!(changes[0].kind, ChangeKind::ChangeFieldType);
    assert_eq!(changes[0].old_type, Some("i32".to_string()));
    assert_eq!(changes[0].new_type, Some("f64".to_string()));
}

#[test]
fn detect_changes_optionality() {
    let matrix: CompatibilityMatrix<Transform> = CompatibilityMatrix::default();
    let v1 = TypeInfo::new("T", 1).with_fields(vec![FieldInfo::new("a", "i32").optional(), FieldInfo::new("b", "i32")]);
    let v2 = TypeInfo::new("T", 2).with_fields(vec![FieldInfo::new("a", "i32"), FieldInfo::new("b", "i32").optional(), FieldInfo::new("c", "u8")]);
    let changes = matrix.detect_changes(&v1, &v2);
    let kinds: Vec<ChangeKind> = changes.iter().map(|c| c.kind).collect();
    assert_eq!(kinds, vec![ChangeKind::MakeRequired, ChangeKind::MakeOptional, ChangeKind::AddRequiredField]);
    assert_eq!(changes[0].description, "Made field required: a");
}

#[test]
fn detect_potential_renames() {
    let matrix: CompatibilityMatrix<Transform> = CompatibilityMatrix::default();

    let v1 = TypeInfo::new("Test", 1).with_fields(vec![FieldInfo::new("old_name", "String"), FieldInfo::new("other", "i32")]);
    let v2 = TypeInfo::new("Test", 2).with_fields(vec![FieldInfo::new("new_name", "String"), FieldInfo::new("other", "i32")]);

    let renames = matrix.detect_potential_renames(&v1, &v2);
    assert_eq!(renames.len(), 1);
    assert_eq!(renames[0], ("old_name".to_string(), "new_name".to_string()));
}

#[test]
fn with_migration_available() {
    let mut registry: MigrationRegistry<Transform> = MigrationRegistry::new();
    registry.register(Migration::new("Order@v1", 100, "Order@v2", 200, keep as Transform)).unwrap();

    let matrix = CompatibilityMatrix::new(Arc::new(registry));
    let v1 = create_v1_schema();
    let v2 = create_v2_schema_breaking();

    let report = matrix.check(&v1, &v2);
    assert!(!report.compatible);
    assert!(report.migration_available);
    assert!(matrix.can_migrate(100, 200));
    assert!(!matrix.can_migrate(200, 100));
}

#[test]
fn report_constructors() {
    let ok = CompatibilityReport::compatible();
    assert!(ok.compatible && ok.migration_available && !ok.migration_required);
    assert_eq!(ok.summary, "Schemas are compatible");
    let bad = CompatibilityReport::incompatible(
        vec![SchemaChange::new(ChangeKind::RemoveField, "x"), SchemaChange::new(ChangeKind::MakeOptional, "y")],
        true,
    );
    assert_eq!(bad.summary, "1 breaking changes, migration available");
    assert_eq!(bad.non_breaking_changes().len(), 1);
}

#[test]
fn type_info_names() {
    let t = TypeInfo::new("Order", 3);
    assert_eq!(t.name, "Order@v3");
    assert_eq!(t.short_name, "Order");
    assert_eq!(t.hash, 0);
}

fn register_and_get_case() {
    let mut registry = VersionedSchemaRegistry::new();
    registry.register(create_test_schema("Order", 1, 100));

    assert!(registry.contains("Order@v1"));
    assert!(!registry.contains("Order@v2"));

    let retrieved = registry.get("Order@v1").unwrap();
    assert_eq!(retrieved.hash, 100);
}

fn get_by_hash_case() {
    let mut registry = VersionedSchemaRegistry::new();
    registry.register(create_test_schema("Order", 1, 12345));

    let retrieved = registry.get_by_hash(12345).unwrap();
    assert_eq!(retrieved.short_name, "Order");
}

fn version_history_case() {
    let mut registry = VersionedSchemaRegistry::new();
    registry.register(create_test_schema("Order", 1, 100));
    registry.register(create_test_schema("Order", 2, 200));
    registry.register(create_test_schema("Order", 3, 300));

    let versions = registry.get_versions("Order");
    assert_eq!(versions.len(), 3);
    assert_eq!(versions[0], SchemaVersion::new(1, 0));
    assert_eq!(versions[1], SchemaVersion::new(2, 0));
    assert_eq!(versions[2], SchemaVersion::new(3, 0));
}

fn get_latest_case() {
    let mut registry = VersionedSchemaRegistry::new();
    registry.register(create_test_schema("Order", 1, 100));
    registry.register(create_test_schema("Order", 2, 200));

    let latest = registry.get_latest("Order").unwrap();
    assert_eq!(latest.version, 2);
    assert_eq!(latest.hash, 200);
}

fn get_version_case() {
    let mut registry = VersionedSchemaRegistry::new();
    registry.register(create_test_schema("Order", 1, 100));
    registry.register(create_test_schema("Order", 2, 200));

    let v1 = registry.get_version("Order", SchemaVersion::new(1, 0));
    assert!(v1.is_some());
    assert_eq!(v1.unwrap().hash, 100);

    let v3 = registry.get_version("Order", SchemaVersion::new(3, 0));
    assert!(v3.is_none());
}

fn families_case() {
    let mut registry = VersionedSchemaRegistry::new();
    registry.register(create_test_schema("Order", 1, 100));
    registry.register(create_test_schema("User", 1, 200));

    let families = registry.families();
    assert_eq!(families.len(), 2);
    assert!(families.contains(&"Order".to_string()));
    assert!(families.contains(&"User".to_string()));
}

fn contains_family_case() {
    let mut registry = VersionedSchemaRegistry::new();
    registry.register(create_test_schema("Order", 1, 100));

    assert!(registry.contains_family("Order"));
    assert!(!registry.contains_family("User"));
}

fn clear_case() {
    let mut registry = VersionedSchemaRegistry::new();
    registry.register(create_test_schema("Order", 1, 100));
    assert!(!registry.is_empty());

    registry.clear();
    assert!(registry.is_empty());
    assert!(registry.families().is_empty());
}

#[test]
fn registry_register_and_get() {
    register_and_get_case();
    default_registry_register_and_get_case();
}

fn default_registry_register_and_get_case() {
    let mut registry = DefaultRegistry::new();

    let provider = MapDefaultProvider::new()
        .with_string("currency", "USD")
        .with_bytes("amount", "f64", 0.0f64.to_le_bytes().to_vec(), &0.0f64.to_string());

    registry.register("OrderInput@v2", provider);

    assert!(registry.has_default("OrderInput@v2", "currency"));
    assert!(!registry.has_default("OrderInput@v2", "other"));
    assert!(!registry.has_default("OrderInput@v1", "currency"));

    let default = registry.get_default("OrderInput@v2", "currency", "String");
    assert!(default.is_some());

    let repr = registry.get_default_string("OrderInput@v2", "currency", "String");
    assert_eq!(repr, Some("USD".to_string()));
}

#[test]
fn registry_schemas() {
    let mut registry = DefaultRegistry::new();

    registry.register("Schema1", MapDefaultProvider::new());
    registry.register("Schema2", MapDefaultProvider::new());

    let schemas = registry.schemas();
    assert_eq!(schemas.len(), 2);
    assert!(schemas.contains(&"Schema1".to_string()));
    assert!(schemas.contains(&"Schema2".to_string()));
}

#[test]
fn registry_unregister() {
    let mut registry = DefaultRegistry::new();

    registry.register("Schema1", MapDefaultProvider::new());
    assert!(registry.unregister("Schema1"));
    assert!(!registry.unregister("Schema1"));
    assert!(registry.schemas().is_empty());
}

#[test]
fn default_registry_provider_lookup() {
    let mut registry: DefaultRegistry<MapDefaultProvider> = DefaultRegistry::default();
    assert!(registry.get_provider("Order@v1").is_none());
    assert!(registry.get_default("Order@v1", "x", "i32").is_none());
    registry.register("Order@v1", MapDefaultProvider::new().with_i32("x", 7));
    registry.register("Order@v1", MapDefaultProvider::new().with_i32("y", 9));
    assert_eq!(registry.schemas(), vec!["Order@v1".to_string()]);
    let provider = registry.get_provider("Order@v1").unwrap();
    assert!(!provider.has_default("x"));
    assert_eq!(registry.get_default("Order@v1", "y", "i32"), Some(9i32.to_le_bytes().to_vec()));
}

#[test]
fn registry_get_by_hash() {
    get_by_hash_case();
}

#[test]
fn registry_version_history() {
    version_history_case();
}

#[test]
fn registry_get_latest() {
    get_latest_case();
}

#[test]
fn registry_get_version() {
    get_version_case();
}

#[test]
fn registry_families() {
    families_case();
}

#[test]
fn registry_contains_family() {
    contains_family_case();
}

#[test]
fn registry_clear() {
    clear_case();
}

#[test]
fn mod_register_and_get() {
    register_and_get_case();
}

#[test]
fn mod_get_by_hash() {
    get_by_hash_case();
}

#[test]
fn mod_version_history() {
    version_history_case();
}

#[test]
fn mod_get_latest() {
    get_latest_case();
}

#[test]
fn mod_get_version() {
    get_version_case();
}

#[test]
fn mod_families() {
    families_case();
}

#[test]
fn mod_contains_family() {
    contains_family_case();
}

#[test]
fn mod_clear() {
    clear_case();
}

#[test]
fn registry_out_of_order_versions_are_sorted() {
    let mut registry = VersionedSchemaRegistry::with_persistence("/tmp/registry.json");
    registry.register(create_test_schema("Order", 3, 300));
    registry.register(create_test_schema("Order", 1, 100));
    registry.register(create_test_schema("Order", 2, 200));
    registry.register(create_test_schema("Order", 2, 201));
    assert_eq!(
        registry.get_versions("Order"),
        vec![SchemaVersion::new(1, 0), SchemaVersion::new(2, 0), SchemaVersion::new(3, 0)]
    );
    assert_eq!(registry.get("Order@v2").unwrap().hash, 201);
    assert_eq!(registry.get_by_hash(200).unwrap().hash, 201);
    assert_eq!(registry.len(), 3);
    assert_eq!(registry.names(), vec!["Order@v3".to_string(), "Order@v1".to_string(), "Order@v2".to_string()]);
}

#[test]
fn registry_register_versioned() {
    let mut registry = VersionedSchemaRegistry::new();
    registry.register_versioned(create_test_schema("Order", 9, 500), SchemaVersion::new(4, 0));
    let t = registry.get("Order@v4").unwrap();
    assert_eq!(t.version, 4);
    assert_eq!(registry.get_versions("Order"), vec![SchemaVersion::new(4, 0)]);
    assert!(registry.get_latest("Order").is_some());
    assert!(registry.get_latest("User").is_none());
}

#[test]
fn integration_test_schema_evolution() {
    let migration_registry: Arc<MigrationRegistry<Transform>> = Arc::new(MigrationRegistry::new());
    let mut schema_registry = VersionedSchemaRegistry::new();

    let v1 = TypeInfo::new("Order", 1).with_hash(100).with_fields(vec![FieldInfo::new("id", "String"), FieldInfo::new("amount", "f64")]);
    let v2 = TypeInfo::new("Order", 2).with_hash(200).with_fields(vec![
        FieldInfo::new("id", "String"),
        FieldInfo::new("amount", "f64"),
        FieldInfo::new("currency", "String").optional(),
    ]);

    schema_registry.register(v1.duplicate());
    schema_registry.register(v2.duplicate());

    let defaults = MapDefaultProvider::new().with_string("currency", "USD");
    assert!(defaults.has_default("currency"));

    let compat_matrix = CompatibilityMatrix::new(Arc::clone(&migration_registry));
    let report = compat_matrix.check(&v1, &v2);

    assert!(report.compatible);
    assert!(!report.migration_required);
    assert_eq!(report.changes.len(), 1);
    assert_eq!(report.changes[0].kind, ChangeKind::AddOptionalField);

    let versions = schema_registry.get_versions("Order");
    assert_eq!(versions.len(), 2);
    assert_eq!(versions[0], SchemaVersion::new(1, 0));
    assert_eq!(versions[1], SchemaVersion::new(2, 0));

    let latest = schema_registry.get_latest("Order").unwrap();
    assert_eq!(latest.version, 2);
}

#[test]
fn integration_test_breaking_change_with_migration() {
    let mut migration_registry: Arc<MigrationRegistry<Transform>> = Arc::new(MigrationRegistry::new());

    let v1 = TypeInfo::new("User", 1).with_hash(1000).with_fields(vec![FieldInfo::new("name", "String"), FieldInfo::new("age", "i32")]);
    let v2 = TypeInfo::new("User", 2).with_hash(2000).with_fields(vec![FieldInfo::new("name", "String"), FieldInfo::new("age", "f64")]);

    {
        let compat_matrix = CompatibilityMatrix::new(Arc::clone(&migration_registry));
        let report = compat_matrix.check(&v1, &v2);

        assert!(!report.compatible);
        assert!(report.migration_required);
        assert!(!report.migration_available);
    }

    Arc::get_mut(&mut migration_registry)
        .unwrap()
        .register(Migration::new("User@v1", 1000, "User@v2", 2000, keep as Transform))
        .unwrap();

    let compat_matrix = CompatibilityMatrix::new(Arc::clone(&migration_registry));
    let report = compat_matrix.check(&v1, &v2);
    assert!(!report.compatible);
    assert!(report.migration_required);
    assert!(report.migration_available);
}

#[test]
fn persistence_data_roundtrip() {
    let mut registry = VersionedSchemaRegistry::with_persistence("/tmp/registry.json");
    registry.register(create_test_schema("Order", 1, 100));
    registry.register(create_test_schema("Order", 2, 200));
    registry.register(create_test_schema("User", 1, 300));

    assert_eq!(registry.persistence_target().unwrap(), "/tmp/registry.json");
    let data = registry.to_data();
    assert_eq!(data.schemas.len(), 3);
    assert_eq!(data.families.len(), 2);
    assert_eq!(data.families[0].name, "Order");
    assert_eq!(data.families[0].versions, vec![("v1.0".to_string(), 100), ("v2.0".to_string(), 200)]);

    let loaded = VersionedSchemaRegistry::from_data("/tmp/registry.json", data);
    assert_eq!(loaded.len(), 3);
    assert!(loaded.contains("Order@v1"));
    assert!(loaded.contains("Order@v2"));
    assert!(loaded.contains("User@v1"));
    assert_eq!(loaded.get_by_hash(200).unwrap().short_name, "Order");
}

#[test]
fn persistence_target_needs_a_path() {
    let registry = VersionedSchemaRegistry::new();
    match registry.persistence_target() {
        Err(e) => assert_eq!(e.code(), "E802"),
        Ok(_) => panic!("a registry without a path has no target"),
    }
}

#[test]
fn saved_field_keeps_everything() {
    let field = FieldInfo::new("amount", "f64").with_offset(8).with_size(8).optional();
    let data = FieldData::from(&field);
    let back = data.into_field_info();
    assert_eq!(back.name, "amount");
    assert_eq!(back.type_label, "f64");
    assert_eq!(back.offset, 8);
    assert_eq!(back.size, 8);
    assert!(back.optional);

    let schema = create_test_schema("Order", 1, 100);
    let saved = SchemaData::from(&schema);
    let info = saved.into_type_info();
    assert_eq!(info.name, schema.name);
    assert_eq!(info.hash, 100);
    assert_eq!(info.fields.len(), schema.fields.len());
}

#[test]
fn migration_path_or_error() {
    let mut registry = MigrationRegistry::new();
    registry.register(mock_migration(100, 200)).unwrap();
    registry.register(mock_migration(200, 300)).unwrap();

    let path = registry.migration_path(100, 300).unwrap();
    assert_eq!(path.len(), 2);
    assert_eq!(path[0].to_hash, 200);
    assert_eq!(path[1].to_hash, 300);
    assert!(registry.migration_path(100, 100).unwrap().is_empty());

    match registry.migration_path(300, 100) {
        Err(e) => assert_eq!(e.message(), "E803: Schema validation failed for 'hash:300': No migration path to hash:100"),
        Ok(_) => panic!("no chain leads back"),
    }
}

#[test]
fn version_from_str() {
    let v: SchemaVersion = "v1.2".parse().unwrap();
    assert_eq!(v, SchemaVersion::new(1, 2));
    assert_eq!("bogus".parse::<SchemaVersion>(), Err("Invalid version format"));
}

#[test]
fn reregistering_a_pair_replaces_it() {
    let mut registry: MigrationRegistry<Transform> = MigrationRegistry::new();
    registry.register(mock_migration(100, 200)).unwrap();
    let replacement = Migration::new("Test@v100", 100, "Test@v200", 200, keep as Transform).with_description("second");
    registry.register(replacement).unwrap();

    assert_eq!(registry.len(), 1);
    assert_eq!(registry.find_direct(100, 200).unwrap().description, "second");
    let path = registry.find_path(100, 200).unwrap();
    assert_eq!(path.len(), 1);
    assert_eq!(path[0].description, "second");

    registry.register(mock_migration(200, 300)).unwrap();
    assert_eq!(registry.len(), 2);
}
