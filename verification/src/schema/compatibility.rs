//! Compatibility reports: the changes between two schemas and whether data of the
//! older one needs a migration.
use vstd::prelude::*;
use std::sync::Arc;
use super::version::{ChangeKind, change_description, spec_is_breaking};
use super::type_info::{FieldInfo, TypeInfo};
use super::migration::{MigrationRegistry, reachable};
use crate::text::{decimal_text, owned, str_eq, u64_text};

verus! {

/// Individual schema change.
#[derive(Debug, Clone)]
pub struct SchemaChange {
    /// The kind of change.
    pub kind: ChangeKind,
    /// The name of the field affected by this change.
    pub field: String,
    /// The previous type of the field, if applicable.
    pub old_type: Option<String>,
    /// The new type of the field, if applicable.
    pub new_type: Option<String>,
    /// Human-readable description of what changed.
    pub description: String,
}

impl SchemaChange {
    /// A change of `kind` to `field`, described as `"{kind description}: {field}"`.
    pub fn new(kind: ChangeKind, field: &str) -> (r: Self)
        ensures
            r.kind == kind,
            r.field@ == field@,
            r.old_type is None,
            r.new_type is None,
            r.description@ == change_description(kind) + ": "@ + field@,
    {
        let mut description = owned(kind.description());
        description.append(": ");
        description.append(field);
        SchemaChange { kind, field: owned(field), old_type: None, new_type: None, description }
    }

    /// Set the old type.
    pub fn with_old_type(self, old_type: &str) -> (r: Self)
        ensures
            r.kind == self.kind,
            r.field == self.field,
            r.old_type matches Some(t) && t@ == old_type@,
            r.new_type == self.new_type,
            r.description == self.description,
    {
        SchemaChange { old_type: Some(owned(old_type)), ..self }
    }

    /// Set the new type.
    pub fn with_new_type(self, new_type: &str) -> (r: Self)
        ensures
            r.kind == self.kind,
            r.field == self.field,
            r.old_type == self.old_type,
            r.new_type matches Some(t) && t@ == new_type@,
            r.description == self.description,
    {
        SchemaChange { new_type: Some(owned(new_type)), ..self }
    }

    /// Set a custom description.
    pub fn with_description(self, description: &str) -> (r: Self)
        ensures
            r.kind == self.kind,
            r.field == self.field,
            r.old_type == self.old_type,
            r.new_type == self.new_type,
            r.description@ == description@,
    {
        SchemaChange { description: owned(description), ..self }
    }
}

/// The number of breaking changes in `s`.
pub open spec fn breaking_count(s: Seq<SchemaChange>) -> nat
    decreases s.len(),
{
    if s.len() == 0 {
        0
    } else {
        breaking_count(s.drop_last()) + if spec_is_breaking(s.last().kind) { 1nat } else { 0nat }
    }
}

/// Compatibility check result.
#[derive(Debug, Clone)]
pub struct CompatibilityReport {
    /// Whether the schemas are compatible without a migration.
    pub compatible: bool,
    /// All changes detected between the schemas.
    pub changes: Vec<SchemaChange>,
    /// Whether a migration is required to use old data with the new schema.
    pub migration_required: bool,
    /// Whether a migration function is available for this transformation.
    pub migration_available: bool,
    /// Human-readable summary.
    pub summary: String,
}

/// The summary of an incompatible report.
pub open spec fn incompatible_summary(breaking: nat, migration_available: bool) -> Seq<char> {
    decimal_text(breaking) + if migration_available {
        " breaking changes, migration available"@
    } else {
        " breaking changes, no migration available"@
    }
}

impl CompatibilityReport {
    /// A report of full compatibility: no changes, no migration needed.
    pub fn compatible() -> (r: Self)
        ensures
            r.compatible,
            r.changes@.len() == 0,
            !r.migration_required,
            r.migration_available,
            r.summary@ == "Schemas are compatible"@,
    {
        CompatibilityReport {
            compatible: true,
            changes: Vec::new(),
            migration_required: false,
            migration_available: true,
            summary: owned("Schemas are compatible"),
        }
    }

    /// A report of incompatibility: a migration is required; the summary counts the
    /// breaking changes and says whether a migration is available.
    pub fn incompatible(changes: Vec<SchemaChange>, migration_available: bool) -> (r: Self)
        ensures
            !r.compatible,
            r.changes@ == changes@,
            r.migration_required,
            r.migration_available == migration_available,
            r.summary@ == incompatible_summary(breaking_count(changes@), migration_available),
    {
        let mut count: u64 = 0;
        let mut i: usize = 0;
        while i < changes.len()
            invariant
                i <= changes@.len(),
                count == breaking_count(changes@.take(i as int)),
                count <= i,
            decreases changes@.len() - i,
        {
            assert(changes@.take(i + 1).drop_last() =~= changes@.take(i as int));
            if changes[i].kind.is_breaking() {
                count = count + 1;
            }
            i = i + 1;
        }
        assert(changes@.take(i as int) =~= changes@);
        let mut summary = u64_text(count);
        if migration_available {
            summary.append(" breaking changes, migration available");
        } else {
            summary.append(" breaking changes, no migration available");
        }
        CompatibilityReport { compatible: false, changes, migration_required: true, migration_available, summary }
    }

    /// Whether any change is breaking.
    pub fn has_breaking_changes(&self) -> (r: bool)
        ensures
            r == exists|i: int| 0 <= i < self.changes@.len() && spec_is_breaking(#[trigger] self.changes@[i].kind),
    {
        let mut i: usize = 0;
        while i < self.changes.len()
            invariant
                i <= self.changes@.len(),
                forall|j: int| 0 <= j < i ==> !spec_is_breaking(#[trigger] self.changes@[j].kind),
            decreases self.changes@.len() - i,
        {
            if self.changes[i].kind.is_breaking() {
                return true;
            }
            i = i + 1;
        }
        false
    }

    /// The breaking changes, in order.
    pub fn breaking_changes(&self) -> (r: Vec<&SchemaChange>)
        ensures
            r@.len() == self.changes@.filter(|c: SchemaChange| spec_is_breaking(c.kind)).len(),
            forall|k: int| 0 <= k < r@.len() ==> *r@[k] == self.changes@.filter(|c: SchemaChange| spec_is_breaking(c.kind))[k],
    {
        let mut out: Vec<&SchemaChange> = Vec::new();
        let mut i: usize = 0;
        while i < self.changes.len()
            invariant
                i <= self.changes@.len(),
                out@.len() == self.changes@.take(i as int).filter(|c: SchemaChange| spec_is_breaking(c.kind)).len(),
                forall|k: int| 0 <= k < out@.len() ==> *out@[k] == self.changes@.take(i as int).filter(|c: SchemaChange| spec_is_breaking(c.kind))[k],
            decreases self.changes@.len() - i,
        {
            proof {
                reveal(Seq::filter);
                assert(self.changes@.take(i + 1).drop_last() =~= self.changes@.take(i as int));
            }
            if self.changes[i].kind.is_breaking() {
                out.push(&self.changes[i]);
            }
            i = i + 1;
        }
        assert(self.changes@.take(i as int) =~= self.changes@);
        out
    }

    /// The non-breaking changes, in order.
    pub fn non_breaking_changes(&self) -> (r: Vec<&SchemaChange>)
        ensures
            r@.len() == self.changes@.filter(|c: SchemaChange| !spec_is_breaking(c.kind)).len(),
            forall|k: int| 0 <= k < r@.len() ==> *r@[k] == self.changes@.filter(|c: SchemaChange| !spec_is_breaking(c.kind))[k],
    {
        let mut out: Vec<&SchemaChange> = Vec::new();
        let mut i: usize = 0;
        while i < self.changes.len()
            invariant
                i <= self.changes@.len(),
                out@.len() == self.changes@.take(i as int).filter(|c: SchemaChange| !spec_is_breaking(c.kind)).len(),
                forall|k: int| 0 <= k < out@.len() ==> *out@[k] == self.changes@.take(i as int).filter(|c: SchemaChange| !spec_is_breaking(c.kind))[k],
            decreases self.changes@.len() - i,
        {
            proof {
                reveal(Seq::filter);
                assert(self.changes@.take(i + 1).drop_last() =~= self.changes@.take(i as int));
            }
            if !self.changes[i].kind.is_breaking() {
                out.push(&self.changes[i]);
            }
            i = i + 1;
        }
        assert(self.changes@.take(i as int) =~= self.changes@);
        out
    }
}

/// What a change says: kind, field, old type, new type, description.
pub type ChangeView = (ChangeKind, Seq<char>, Option<Seq<char>>, Option<Seq<char>>, Seq<char>);

/// The view of an optional text.
pub open spec fn opt_text(t: Option<String>) -> Option<Seq<char>> {
    match t {
        Some(s) => Some(s@),
        None => None,
    }
}

/// What a change says.
pub open spec fn change_view(c: SchemaChange) -> ChangeView {
    (c.kind, c.field@, opt_text(c.old_type), opt_text(c.new_type), c.description@)
}

/// What a list of changes says, in order.
pub open spec fn changes_view(s: Seq<SchemaChange>) -> Seq<ChangeView> {
    s.map_values(|c: SchemaChange| change_view(c))
}

/// The change of `kind` to `field` with the given types, as `SchemaChange::new` describes it.
pub open spec fn made_change(kind: ChangeKind, field: Seq<char>, old: Option<Seq<char>>, new: Option<Seq<char>>) -> ChangeView {
    (kind, field, old, new, change_description(kind) + ": "@ + field)
}

/// The position of the last field of `fs` named `n`, if any.
pub open spec fn last_named(fs: Seq<FieldInfo>, n: Seq<char>) -> Option<int>
    decreases fs.len(),
{
    if fs.len() == 0 {
        None
    } else if fs.last().name@ == n {
        Some(fs.len() - 1)
    } else {
        last_named(fs.drop_last(), n)
    }
}

/// Some field of `fs` is named `n`.
pub open spec fn has_named(fs: Seq<FieldInfo>, n: Seq<char>) -> bool {
    exists|i: int| 0 <= i < fs.len() && (#[trigger] fs[i]).name@ == n
}

/// The changes for fields of `from` (among its first `k`) that `to` lacks: each name
/// once, at its last field.
pub open spec fn removed_changes(from: Seq<FieldInfo>, to: Seq<FieldInfo>, k: int) -> Seq<ChangeView>
    decreases k,
{
    if k <= 0 {
        Seq::empty()
    } else {
        let f = from[k - 1];
        removed_changes(from, to, k - 1) + if last_named(from, f.name@) == Some(k - 1) && !has_named(to, f.name@) {
            seq![made_change(ChangeKind::RemoveField, f.name@, Some(f.type_label@), None)]
        } else {
            Seq::empty()
        }
    }
}

/// The changes for a field `t` of the newer schema against the last field of `from` with
/// its name: added (optional or required), or a changed type, then a change of optionality.
pub open spec fn field_changes(from: Seq<FieldInfo>, t: FieldInfo) -> Seq<ChangeView> {
    match last_named(from, t.name@) {
        None => seq![made_change(
            if t.optional { ChangeKind::AddOptionalField } else { ChangeKind::AddRequiredField },
            t.name@, None, Some(t.type_label@))],
        Some(j) => {
            let f = from[j];
            (if f.type_label@ != t.type_label@ {
                seq![made_change(ChangeKind::ChangeFieldType, t.name@, Some(f.type_label@), Some(t.type_label@))]
            } else {
                Seq::empty()
            }) + (if f.optional && !t.optional {
                seq![made_change(ChangeKind::MakeRequired, t.name@, None, None)]
            } else {
                Seq::empty()
            }) + (if !f.optional && t.optional {
                seq![made_change(ChangeKind::MakeOptional, t.name@, None, None)]
            } else {
                Seq::empty()
            })
        },
    }
}

/// The changes for the first `k` fields of `to`: each name once, at its last field.
pub open spec fn added_changes(from: Seq<FieldInfo>, to: Seq<FieldInfo>, k: int) -> Seq<ChangeView>
    decreases k,
{
    if k <= 0 {
        Seq::empty()
    } else {
        added_changes(from, to, k - 1) + if last_named(to, to[k - 1].name@) == Some(k - 1) {
            field_changes(from, to[k - 1])
        } else {
            Seq::empty()
        }
    }
}

/// Every change from `from`'s fields to `to`'s: the removed fields first, then the added
/// and changed ones, each group in field order.
pub open spec fn schema_changes(from: Seq<FieldInfo>, to: Seq<FieldInfo>) -> Seq<ChangeView> {
    removed_changes(from, to, from.len() as int) + added_changes(from, to, to.len() as int)
}

/// The pairs (removed field, added field) of the same type and optionality, for the
/// first `k` added fields.
pub open spec fn pairs_for(r: FieldInfo, added: Seq<FieldInfo>, k: int) -> Seq<(Seq<char>, Seq<char>)>
    decreases k,
{
    if k <= 0 {
        Seq::empty()
    } else {
        let a = added[k - 1];
        pairs_for(r, added, k - 1) + if r.type_label@ == a.type_label@ && r.optional == a.optional {
            seq![(r.name@, a.name@)]
        } else {
            Seq::empty()
        }
    }
}

/// The rename candidates of the first `k` removed fields, in order.
pub open spec fn rename_pairs(removed: Seq<FieldInfo>, added: Seq<FieldInfo>, k: int) -> Seq<(Seq<char>, Seq<char>)>
    decreases k,
{
    if k <= 0 {
        Seq::empty()
    } else {
        rename_pairs(removed, added, k - 1) + pairs_for(removed[k - 1], added, added.len() as int)
    }
}

/// Each pair for `r` names `r` and one of the first `k` added fields of its type and
/// optionality, and each such added field gives a pair.
proof fn lemma_pairs_for_members(r: FieldInfo, added: Seq<FieldInfo>, k: int)
    requires
        0 <= k <= added.len(),
    ensures
        forall|i: int| 0 <= i < pairs_for(r, added, k).len() ==> exists|y: int|
            0 <= y < k && #[trigger] pairs_for(r, added, k)[i] == (r.name@, added[y].name@)
            && r.type_label@ == added[y].type_label@ && r.optional == added[y].optional,
        forall|y: int| 0 <= y < k && r.type_label@ == (#[trigger] added[y]).type_label@ && r.optional == added[y].optional
            ==> pairs_for(r, added, k).contains((r.name@, added[y].name@)),
    decreases k,
{
    if k > 0 {
        lemma_pairs_for_members(r, added, k - 1);
        let prev = pairs_for(r, added, k - 1);
        let a = added[k - 1];
        let tail = if r.type_label@ == a.type_label@ && r.optional == a.optional {
            seq![(r.name@, a.name@)]
        } else {
            Seq::empty()
        };
        let all = pairs_for(r, added, k);
        assert(all == prev + tail);
        assert forall|i: int| 0 <= i < all.len() implies exists|y: int|
            0 <= y < k && #[trigger] all[i] == (r.name@, added[y].name@)
            && r.type_label@ == added[y].type_label@ && r.optional == added[y].optional by {
            if i < prev.len() {
                assert(all[i] == prev[i]);
            } else {
                assert(all[i] == tail[i - prev.len()]);
                assert(all[i] == (r.name@, added[k - 1].name@));
            }
        }
        assert forall|y: int| 0 <= y < k && r.type_label@ == (#[trigger] added[y]).type_label@ && r.optional == added[y].optional
            implies all.contains((r.name@, added[y].name@)) by {
            if y < k - 1 {
                assert(prev.contains((r.name@, added[y].name@)));
                let i = choose|i: int| 0 <= i < prev.len() && prev[i] == (r.name@, added[y].name@);
                assert(all[i] == prev[i]);
            } else {
                assert(all[prev.len() as int] == (r.name@, added[y].name@));
            }
        }
    }
}

/// The rename candidates of the first `k` removed fields are exactly the pairs of one of
/// them and an added field of the same type and optionality.
proof fn lemma_rename_pairs_members(removed: Seq<FieldInfo>, added: Seq<FieldInfo>, k: int)
    requires
        0 <= k <= removed.len(),
    ensures
        forall|i: int| 0 <= i < rename_pairs(removed, added, k).len() ==> exists|x: int, y: int|
            0 <= x < k && 0 <= y < added.len()
            && #[trigger] rename_pairs(removed, added, k)[i] == (removed[x].name@, added[y].name@)
            && removed[x].type_label@ == added[y].type_label@ && removed[x].optional == added[y].optional,
        forall|x: int, y: int| 0 <= x < k && 0 <= y < added.len()
            && (#[trigger] removed[x]).type_label@ == (#[trigger] added[y]).type_label@
            && removed[x].optional == added[y].optional
            ==> rename_pairs(removed, added, k).contains((removed[x].name@, added[y].name@)),
    decreases k,
{
    if k > 0 {
        lemma_rename_pairs_members(removed, added, k - 1);
        let r = removed[k - 1];
        lemma_pairs_for_members(r, added, added.len() as int);
        let prev = rename_pairs(removed, added, k - 1);
        let tail = pairs_for(r, added, added.len() as int);
        let all = rename_pairs(removed, added, k);
        assert(all == prev + tail);
        assert forall|i: int| 0 <= i < all.len() implies exists|x: int, y: int|
            0 <= x < k && 0 <= y < added.len() && #[trigger] all[i] == (removed[x].name@, added[y].name@)
            && removed[x].type_label@ == added[y].type_label@ && removed[x].optional == added[y].optional by {
            if i < prev.len() {
                assert(all[i] == prev[i]);
            } else {
                assert(all[i] == tail[i - prev.len()]);
                let y = choose|y: int| 0 <= y < added.len() && #[trigger] tail[i - prev.len()] == (r.name@, added[y].name@)
                    && r.type_label@ == added[y].type_label@ && r.optional == added[y].optional;
                assert(all[i] == (removed[k - 1].name@, added[y].name@));
            }
        }
        assert forall|x: int, y: int| 0 <= x < k && 0 <= y < added.len()
            && (#[trigger] removed[x]).type_label@ == (#[trigger] added[y]).type_label@
            && removed[x].optional == added[y].optional
            implies all.contains((removed[x].name@, added[y].name@)) by {
            if x < k - 1 {
                assert(prev.contains((removed[x].name@, added[y].name@)));
                let i = choose|i: int| 0 <= i < prev.len() && prev[i] == (removed[x].name@, added[y].name@);
                assert(all[i] == prev[i]);
            } else {
                assert(tail.contains((r.name@, added[y].name@)));
                let i = choose|i: int| 0 <= i < tail.len() && tail[i] == (r.name@, added[y].name@);
                assert(all[prev.len() + i] == tail[i]);
            }
        }
    }
}

/// Rename candidates between two schemas: every candidate pairs a field of `from` that
/// `to` lacks with a field of `to` that `from` lacks, of the same type and the same
/// optionality; and every such pair of removed and added fields is a candidate.
pub proof fn lemma_rename_candidates(from: Seq<FieldInfo>, to: Seq<FieldInfo>)
    ensures
        ({
            let rs = unmatched_fields(from, to);
            let ads = unmatched_fields(to, from);
            let ps = rename_pairs(rs, ads, rs.len() as int);
            &&& forall|i: int| 0 <= i < ps.len() ==> exists|x: int, y: int|
                0 <= x < rs.len() && 0 <= y < ads.len()
                && #[trigger] ps[i] == (rs[x].name@, ads[y].name@)
                && from.contains(rs[x]) && !has_named(to, rs[x].name@)
                && to.contains(ads[y]) && !has_named(from, ads[y].name@)
                && rs[x].type_label@ == ads[y].type_label@ && rs[x].optional == ads[y].optional
            &&& forall|x: int, y: int| 0 <= x < rs.len() && 0 <= y < ads.len()
                && (#[trigger] rs[x]).type_label@ == (#[trigger] ads[y]).type_label@
                && rs[x].optional == ads[y].optional
                ==> ps.contains((rs[x].name@, ads[y].name@))
        }),
{
    let rs = unmatched_fields(from, to);
    let ads = unmatched_fields(to, from);
    let ps = rename_pairs(rs, ads, rs.len() as int);
    lemma_rename_pairs_members(rs, ads, rs.len() as int);
    assert forall|i: int| 0 <= i < ps.len() implies exists|x: int, y: int|
        0 <= x < rs.len() && 0 <= y < ads.len()
        && #[trigger] ps[i] == (rs[x].name@, ads[y].name@)
        && from.contains(rs[x]) && !has_named(to, rs[x].name@)
        && to.contains(ads[y]) && !has_named(from, ads[y].name@)
        && rs[x].type_label@ == ads[y].type_label@ && rs[x].optional == ads[y].optional by {
        let (x, y) = choose|x: int, y: int| 0 <= x < rs.len() && 0 <= y < ads.len()
            && #[trigger] ps[i] == (rs[x].name@, ads[y].name@)
            && rs[x].type_label@ == ads[y].type_label@ && rs[x].optional == ads[y].optional;
        let pr = |f: FieldInfo| !has_named(to, f.name@);
        let pa = |f: FieldInfo| !has_named(from, f.name@);
        from.lemma_filter_pred(pr, x);
        to.lemma_filter_pred(pa, y);
        assert(rs.contains(rs[x]));
        assert(ads.contains(ads[y]));
        from.lemma_filter_contains_rev(pr, rs[x]);
        to.lemma_filter_contains_rev(pa, ads[y]);
    }
}

/// Fields of `a` whose name no field of `b` has, in order.
pub open spec fn unmatched_fields(a: Seq<FieldInfo>, b: Seq<FieldInfo>) -> Seq<FieldInfo> {
    a.filter(|f: FieldInfo| !has_named(b, f.name@))
}

/// Some change of `cs` is breaking.
pub open spec fn any_breaking(cs: Seq<ChangeView>) -> bool {
    exists|i: int| 0 <= i < cs.len() && spec_is_breaking((#[trigger] cs[i]).0)
}

/// The position of the last field named `n`.
fn find_last_named(fs: &Vec<FieldInfo>, n: &str) -> (r: Option<usize>)
    ensures
        match r {
            Some(i) => last_named(fs@, n@) == Some(i as int),
            None => last_named(fs@, n@) is None,
        },
{
    let mut found: Option<usize> = None;
    let mut i: usize = 0;
    assert(fs@.take(0) =~= Seq::<FieldInfo>::empty());
    while i < fs.len()
        invariant
            i <= fs@.len(),
            match found {
                Some(k) => last_named(fs@.take(i as int), n@) == Some(k as int),
                None => last_named(fs@.take(i as int), n@) is None,
            },
        decreases fs@.len() - i,
    {
        proof {
            assert(fs@.take(i + 1).drop_last() =~= fs@.take(i as int));
        }
        if str_eq(fs[i].name.as_str(), n) {
            found = Some(i);
        }
        i = i + 1;
    }
    assert(fs@.take(i as int) =~= fs@);
    found
}

/// `last_named` finds a field of that name, and it is `None` exactly when none has it.
proof fn lemma_last_named(fs: Seq<FieldInfo>, n: Seq<char>)
    ensures
        last_named(fs, n) is None <==> !has_named(fs, n),
        last_named(fs, n) matches Some(k) ==> 0 <= k < fs.len() && fs[k].name@ == n,
    decreases fs.len(),
{
    if fs.len() > 0 {
        lemma_last_named(fs.drop_last(), n);
        if fs.last().name@ != n {
            if has_named(fs, n) {
                let i = choose|i: int| 0 <= i < fs.len() && (#[trigger] fs[i]).name@ == n;
                assert(fs.drop_last()[i].name@ == n);
            }
            if has_named(fs.drop_last(), n) {
                let i = choose|i: int| 0 <= i < fs.drop_last().len() && (#[trigger] fs.drop_last()[i]).name@ == n;
                assert(fs[i].name@ == n);
            }
        } else {
            assert(fs[fs.len() - 1].name@ == n);
        }
    }
}

/// What a list of name pairs says, in order.
pub open spec fn pairs_view(v: Seq<(String, String)>) -> Seq<(Seq<char>, Seq<char>)> {
    v.map_values(|p: (String, String)| (p.0@, p.1@))
}

/// Adding a pair to a list adds its view to the list's view.
proof fn lemma_pairs_view_push(v: Seq<(String, String)>, p: (String, String))
    ensures
        pairs_view(v.push(p)) == pairs_view(v) + seq![(p.0@, p.1@)],
{
    assert(pairs_view(v.push(p)) =~= pairs_view(v) + seq![(p.0@, p.1@)]);
}

/// Adding a change to a list adds its view to the list's view.
proof fn lemma_changes_view_push(v: Seq<SchemaChange>, c: SchemaChange)
    ensures
        changes_view(v.push(c)) == changes_view(v) + seq![change_view(c)],
{
    assert(changes_view(v.push(c)) =~= changes_view(v) + seq![change_view(c)]);
}

/// Compatibility checks between schemas, with the migrations known.
pub struct CompatibilityMatrix<F> {
    migrations: Arc<MigrationRegistry<F>>,
}

impl<F> CompatibilityMatrix<F> {
    #[verifier::type_invariant]
    spec fn inv(self) -> bool {
        self.migrations.wf()
    }

    /// The migrations between schema hashes that it knows.
    pub closed spec fn spec_edges(&self) -> Seq<(u64, u64)> {
        self.migrations.spec_edges()
    }

    /// A matrix that checks with the migrations of `migrations`.
    pub fn new(migrations: Arc<MigrationRegistry<F>>) -> (r: Self)
        requires
            migrations.wf(),
        ensures
            r.spec_edges() == migrations.spec_edges(),
    {
        CompatibilityMatrix { migrations }
    }

    /// Whether a chain of migrations leads from `from_hash` to `to_hash`.
    pub fn can_migrate(&self, from_hash: u64, to_hash: u64) -> (r: bool)
        ensures
            r == reachable(self.spec_edges(), from_hash, to_hash),
    {
        proof {
            use_type_invariant(self);
        }
        self.migrations.has_path(from_hash, to_hash)
    }

    /// Every change from `from` to `to`: removed fields, then added and changed ones.
    pub fn detect_changes(&self, from: &TypeInfo, to: &TypeInfo) -> (r: Vec<SchemaChange>)
        ensures
            changes_view(r@) == schema_changes(from.fields@, to.fields@),
    {
        let mut changes: Vec<SchemaChange> = Vec::new();
        let ghost ff = from.fields@;
        let ghost tf = to.fields@;
        let mut i: usize = 0;
        while i < from.fields.len()
            invariant
                i <= ff.len(),
                ff == from.fields@,
                tf == to.fields@,
                changes_view(changes@) == removed_changes(ff, tf, i as int),
            decreases ff.len() - i,
        {
            let f = &from.fields[i];
            let last = find_last_named(&from.fields, f.name.as_str());
            let in_to = find_last_named(&to.fields, f.name.as_str());
            proof {
                lemma_last_named(tf, f.name@);
            }
            if last == Some(i) && in_to.is_none() {
                let c = SchemaChange::new(ChangeKind::RemoveField, f.name.as_str()).with_old_type(f.type_label.as_str());
                proof {
                    lemma_changes_view_push(changes@, c);
                }
                changes.push(c);
            }
            proof {
                assert(changes_view(changes@) =~= removed_changes(ff, tf, i + 1));
            }
            i = i + 1;
        }
        let ghost removed = changes_view(changes@);
        let mut k: usize = 0;
        assert(removed + added_changes(ff, tf, 0) =~= removed);
        while k < to.fields.len()
            invariant
                k <= tf.len(),
                ff == from.fields@,
                tf == to.fields@,
                removed == removed_changes(ff, tf, ff.len() as int),
                changes_view(changes@) == removed + added_changes(ff, tf, k as int),
            decreases tf.len() - k,
        {
            let t = &to.fields[k];
            let ghost at_k = changes_view(changes@);
            let last = find_last_named(&to.fields, t.name.as_str());
            if last == Some(k) {
                match find_last_named(&from.fields, t.name.as_str()) {
                    None => {
                        let kind = if t.optional { ChangeKind::AddOptionalField } else { ChangeKind::AddRequiredField };
                        let c = SchemaChange::new(kind, t.name.as_str()).with_new_type(t.type_label.as_str());
                        proof {
                            lemma_changes_view_push(changes@, c);
                        }
                        changes.push(c);
                    },
                    Some(j) => {
                        proof {
                            lemma_last_named(ff, t.name@);
                        }
                        let f = &from.fields[j];
                        if !str_eq(f.type_label.as_str(), t.type_label.as_str()) {
                            let c = SchemaChange::new(ChangeKind::ChangeFieldType, t.name.as_str())
                                .with_old_type(f.type_label.as_str())
                                .with_new_type(t.type_label.as_str());
                            proof {
                                lemma_changes_view_push(changes@, c);
                            }
                            changes.push(c);
                        }
                        if f.optional && !t.optional {
                            let c = SchemaChange::new(ChangeKind::MakeRequired, t.name.as_str());
                            proof {
                                lemma_changes_view_push(changes@, c);
                            }
                            changes.push(c);
                        }
                        if !f.optional && t.optional {
                            let c = SchemaChange::new(ChangeKind::MakeOptional, t.name.as_str());
                            proof {
                                lemma_changes_view_push(changes@, c);
                            }
                            changes.push(c);
                        }
                    },
                }
            }
            proof {
                assert(changes_view(changes@) =~= at_k + (if last_named(tf, tf[k as int].name@) == Some(k as int) {
                    field_changes(ff, tf[k as int])
                } else {
                    Seq::empty()
                }));
                assert(changes_view(changes@) =~= removed + added_changes(ff, tf, k + 1));
            }
            k = k + 1;
        }
        changes
    }

    /// Compatibility of `to` with data of `from`: identical hashes (other than 0) or no
    /// change is full compatibility; non-breaking changes alone are compatible without a
    /// migration; breaking changes need one, available when a chain of migrations leads
    /// from `from`'s hash to `to`'s.
    pub fn check(&self, from: &TypeInfo, to: &TypeInfo) -> (r: CompatibilityReport)
        ensures
            ({
                let cs = schema_changes(from.fields@, to.fields@);
                let unchanged = (from.hash != 0 && from.hash == to.hash) || cs.len() == 0;
                &&& unchanged ==> {
                    &&& r.compatible
                    &&& r.changes@.len() == 0
                    &&& !r.migration_required
                    &&& r.migration_available
                    &&& r.summary@ == "Schemas are compatible"@
                }
                &&& !unchanged ==> changes_view(r.changes@) == cs
                &&& !unchanged && !any_breaking(cs) ==> {
                    &&& r.compatible
                    &&& !r.migration_required
                    &&& r.migration_available
                    &&& r.summary@ == "Compatible with non-breaking changes"@
                }
                &&& !unchanged && any_breaking(cs) ==> {
                    &&& !r.compatible
                    &&& r.migration_required
                    &&& r.migration_available == reachable(self.spec_edges(), from.hash, to.hash)
                    &&& r.summary@ == incompatible_summary(breaking_count(r.changes@), r.migration_available)
                }
            }),
    {
        if from.hash != 0 && from.hash == to.hash {
            return CompatibilityReport::compatible();
        }
        let changes = self.detect_changes(from, to);
        if changes.len() == 0 {
            return CompatibilityReport::compatible();
        }
        let ghost cs = changes_view(changes@);
        let mut has_breaking = false;
        let mut i: usize = 0;
        while i < changes.len()
            invariant
                i <= changes@.len(),
                cs == changes_view(changes@),
                has_breaking <==> exists|j: int| 0 <= j < i && spec_is_breaking((#[trigger] cs[j]).0),
            decreases changes@.len() - i,
        {
            assert(cs[i as int].0 == changes@[i as int].kind);
            if changes[i].kind.is_breaking() {
                has_breaking = true;
            }
            i = i + 1;
        }
        if !has_breaking {
            return CompatibilityReport {
                compatible: true,
                changes,
                migration_required: false,
                migration_available: true,
                summary: owned("Compatible with non-breaking changes"),
            };
        }
        let migration_available = self.can_migrate(from.hash, to.hash);
        CompatibilityReport::incompatible(changes, migration_available)
    }

    /// Candidate renames: pairs (removed field, added field) of the same type and
    /// optionality, for each removed field in order, each added field in order.
    pub fn detect_potential_renames(&self, from: &TypeInfo, to: &TypeInfo) -> (r: Vec<(String, String)>)
        ensures
            pairs_view(r@) == rename_pairs(
                unmatched_fields(from.fields@, to.fields@),
                unmatched_fields(to.fields@, from.fields@),
                unmatched_fields(from.fields@, to.fields@).len() as int,
            ),
    {
        let removed = unmatched(&from.fields, &to.fields);
        let added = unmatched(&to.fields, &from.fields);
        let ghost rs = unmatched_fields(from.fields@, to.fields@);
        let ghost ads = unmatched_fields(to.fields@, from.fields@);
        let mut out: Vec<(String, String)> = Vec::new();
        let mut i: usize = 0;
        assert(pairs_view(out@) =~= rename_pairs(rs, ads, 0));
        while i < removed.len()
            invariant
                i <= removed@.len(),
                removed@.len() == rs.len(),
                added@.len() == ads.len(),
                forall|k: int| 0 <= k < rs.len() ==> *removed@[k] == rs[k],
                forall|k: int| 0 <= k < ads.len() ==> *added@[k] == ads[k],
                pairs_view(out@) == rename_pairs(rs, ads, i as int),
            decreases removed@.len() - i,
        {
            let rf = removed[i];
            let ghost before = pairs_view(out@);
            let mut j: usize = 0;
            assert(before + pairs_for(rs[i as int], ads, 0) =~= before);
            while j < added.len()
                invariant
                    j <= added@.len(),
                    i < removed@.len(),
                    removed@.len() == rs.len(),
                    added@.len() == ads.len(),
                    forall|k: int| 0 <= k < ads.len() ==> *added@[k] == ads[k],
                    *rf == rs[i as int],
                    pairs_view(out@) == before + pairs_for(rs[i as int], ads, j as int),
                decreases added@.len() - j,
            {
                let af = added[j];
                let ghost at_j = pairs_view(out@);
                if str_eq(rf.type_label.as_str(), af.type_label.as_str()) && rf.optional == af.optional {
                    let pair = (owned(rf.name.as_str()), owned(af.name.as_str()));
                    proof {
                        lemma_pairs_view_push(out@, pair);
                    }
                    out.push(pair);
                }
                proof {
                    assert(pairs_view(out@)
                        =~= before + pairs_for(rs[i as int], ads, j + 1));
                }
                j = j + 1;
            }
            proof {
                assert(pairs_view(out@) =~= rename_pairs(rs, ads, i + 1));
            }
            i = i + 1;
        }
        out
    }
}

/// The fields of `a` whose name no field of `b` has, in order.
fn unmatched<'a>(a: &'a Vec<FieldInfo>, b: &Vec<FieldInfo>) -> (r: Vec<&'a FieldInfo>)
    ensures
        r@.len() == unmatched_fields(a@, b@).len(),
        forall|k: int| 0 <= k < r@.len() ==> *r@[k] == unmatched_fields(a@, b@)[k],
{
    let ghost p = |f: FieldInfo| !has_named(b@, f.name@);
    let mut out: Vec<&FieldInfo> = Vec::new();
    let mut i: usize = 0;
    assert(a@.take(0).filter(p) =~= Seq::<FieldInfo>::empty()) by {
        reveal(Seq::filter);
    }
    while i < a.len()
        invariant
            i <= a@.len(),
            p == (|f: FieldInfo| !has_named(b@, f.name@)),
            out@.len() == a@.take(i as int).filter(p).len(),
            forall|k: int| 0 <= k < out@.len() ==> *out@[k] == a@.take(i as int).filter(p)[k],
        decreases a@.len() - i,
    {
        let f = &a[i];
        proof {
            assert(a@.take(i + 1) =~= a@.take(i as int).push(*f));
            a@.take(i as int).lemma_filter_push(*f, p);
            lemma_last_named(b@, f.name@);
        }
        if find_last_named(b, f.name.as_str()).is_none() {
            out.push(f);
        }
        i = i + 1;
    }
    assert(a@.take(i as int) =~= a@);
    out
}

impl<F> Default for CompatibilityMatrix<F> {
    /// A matrix with no migrations.
    fn default() -> (r: Self)
        ensures
            r.spec_edges().len() == 0,
    {
        let reg: MigrationRegistry<F> = MigrationRegistry::new();
        assert(reg.spec_edges().len() == 0);
        CompatibilityMatrix::new(Arc::new(reg))
    }
}

/// A predicate and its negation split a sequence: the two filtered parts make up its length.
proof fn lemma_filter_split<A>(s: Seq<A>, p: spec_fn(A) -> bool)
    ensures
        s.filter(p).len() + s.filter(|x: A| !p(x)).len() == s.len(),
    decreases s.len(),
{
    reveal(Seq::filter);
    if s.len() > 0 {
        lemma_filter_split(s.drop_last(), p);
    }
}

/// Every change of a report is either breaking or not: the breaking and the non-breaking
/// changes together are as many as the changes.
pub proof fn lemma_breaking_partition(changes: Seq<SchemaChange>)
    ensures
        changes.filter(|c: SchemaChange| spec_is_breaking(c.kind)).len()
            + changes.filter(|c: SchemaChange| !spec_is_breaking(c.kind)).len() == changes.len(),
{
    let p = |c: SchemaChange| spec_is_breaking(c.kind);
    lemma_filter_split(changes, p);
    assert((|x: SchemaChange| !p(x)) =~= (|c: SchemaChange| !spec_is_breaking(c.kind)));
}

/// Comparing a schema's fields with themselves finds no change.
pub proof fn lemma_no_changes_to_self(fs: Seq<FieldInfo>)
    ensures
        schema_changes(fs, fs) == Seq::<ChangeView>::empty(),
{
    assert forall|k: int| 0 <= k <= fs.len() implies removed_changes(fs, fs, k) == Seq::<ChangeView>::empty() by {
        lemma_removed_none(fs, k);
    }
    assert forall|k: int| 0 <= k <= fs.len() implies added_changes(fs, fs, k) == Seq::<ChangeView>::empty() by {
        lemma_added_none(fs, k);
    }
    assert(schema_changes(fs, fs) =~= Seq::<ChangeView>::empty());
}

proof fn lemma_removed_none(fs: Seq<FieldInfo>, k: int)
    requires
        0 <= k <= fs.len(),
    ensures
        removed_changes(fs, fs, k) == Seq::<ChangeView>::empty(),
    decreases k,
{
    if k > 0 {
        lemma_removed_none(fs, k - 1);
        assert(has_named(fs, fs[k - 1].name@));
        assert(removed_changes(fs, fs, k) =~= Seq::<ChangeView>::empty());
    }
}

proof fn lemma_added_none(fs: Seq<FieldInfo>, k: int)
    requires
        0 <= k <= fs.len(),
    ensures
        added_changes(fs, fs, k) == Seq::<ChangeView>::empty(),
    decreases k,
{
    if k > 0 {
        lemma_added_none(fs, k - 1);
        if last_named(fs, fs[k - 1].name@) == Some(k - 1) {
            assert(field_changes(fs, fs[k - 1]) =~= Seq::<ChangeView>::empty());
        }
        assert(added_changes(fs, fs, k) =~= Seq::<ChangeView>::empty());
    }
}

} // verus!
