//! The validator of flow documents: limits, metadata, triggers, nodes, edges and references.
use vstd::prelude::*;
use super::error::{ValidationError, ValidationErrorKind, error_view};
use super::limits::{ValidationLimits, default_limits};
use crate::text::{decimal_text, signed_decimal_text, owned, concat2, str_eq, u64_text, i64_text, chars_of};
use crate::flow::yaml::{lookup, string_at, int_at};
use crate::flow::trigger::{TriggerDefinition, trigger_type_of};
use crate::flow::node::NodeDefinition;
use crate::flow::edge::EdgeDefinition;
use crate::flow::definition::{FlowDefinition, edge_source, edge_target, has_trigger_id};

verus! {

/// What an error says: its kind, location and message.
pub type ErrorView = (ValidationErrorKind, Seq<char>, Seq<char>);

/// What a list of errors says, in order.
pub open spec fn errors_view(v: Seq<ValidationError>) -> Seq<ErrorView> {
    v.map_values(|e: ValidationError| error_view(e))
}

/// The view of a missing field error.
pub open spec fn missing_view(location: Seq<char>, field: Seq<char>) -> ErrorView {
    (ValidationErrorKind::MissingField, location, "missing required field '"@ + field + "'"@)
}

/// One error when `cond` holds, none otherwise.
pub open spec fn one_if(cond: bool, e: ErrorView) -> Seq<ErrorView> {
    if cond {
        seq![e]
    } else {
        Seq::empty()
    }
}

/// The error for a count over its limit.
pub open spec fn count_error(location: Seq<char>, what: Seq<char>, count: nat, max: nat) -> Seq<ErrorView> {
    one_if(count > max, (ValidationErrorKind::LimitExceeded, location,
        what + " count ("@ + decimal_text(count) + ") exceeds maximum allowed ("@ + decimal_text(max) + ")"@))
}

/// The errors for node, edge and trigger counts over their limits.
pub open spec fn limit_errors(limits: ValidationLimits, flow: FlowDefinition) -> Seq<ErrorView> {
    count_error("nodes"@, "node"@, flow.nodes.spec_entries().len(), limits.max_node_count as nat)
        + count_error("edges"@, "edge"@, flow.edges@.len(), limits.max_edge_count as nat)
        + count_error("triggers"@, "trigger"@, flow.triggers@.len(), limits.max_trigger_count as nat)
}

/// The errors for an empty name and an empty version.
pub open spec fn metadata_errors(flow: FlowDefinition) -> Seq<ErrorView> {
    one_if(flow.name@.len() == 0, missing_view("flow"@, "name"@))
        + one_if(flow.version matches Some(v) && v@.len() == 0,
            (ValidationErrorKind::InvalidValue, "flow.version"@, "version cannot be empty string"@))
}

/// Where trigger `i` stands: `triggers[i]`.
pub open spec fn trigger_location(i: nat) -> Seq<char> {
    "triggers["@ + decimal_text(i) + "]"@
}

/// Trigger `i` repeats the ID of an earlier trigger.
pub open spec fn repeats_earlier_id(triggers: Seq<TriggerDefinition>, i: int) -> bool {
    exists|j: int| 0 <= j < i && (#[trigger] triggers[j]).id@ == triggers[i].id@
}

/// The errors of a trigger's parameters: a webhook port out of 1..=65535, a cron trigger
/// without a string `schedule`, a filesystem trigger without a string `path`.
pub open spec fn trigger_param_errors(t: TriggerDefinition, location: Seq<char>) -> Seq<ErrorView> {
    let ty = t.trigger_type@;
    if ty == "webhook"@ || ty == "trigger::webhook"@ {
        match int_at(t.params, "port"@) {
            Some(p) => one_if(p < 1 || p > 65535, (ValidationErrorKind::InvalidValue,
                location + ".params.port"@, "port must be between 1 and 65535, got "@ + signed_decimal_text(p as int))),
            None => Seq::empty(),
        }
    } else if ty == "cron"@ || ty == "trigger::cron"@ {
        one_if(string_at(t.params, "schedule"@) is None, missing_view(location + ".params"@, "schedule"@))
    } else if ty == "filesystem"@ || ty == "trigger::filesystem"@ {
        one_if(string_at(t.params, "path"@) is None, missing_view(location + ".params"@, "path"@))
    } else {
        Seq::empty()
    }
}

/// The errors of trigger `i`: a repeated ID, an empty ID, an unknown type, then its parameters.
pub open spec fn one_trigger_errors(triggers: Seq<TriggerDefinition>, i: int) -> Seq<ErrorView> {
    let t = triggers[i];
    let loc = trigger_location(i as nat);
    one_if(repeats_earlier_id(triggers, i), (ValidationErrorKind::DuplicateId, loc, "duplicate identifier '"@ + t.id@ + "'"@))
        + one_if(t.id@.len() == 0, missing_view(loc, "id"@))
        + one_if(trigger_type_of(t.trigger_type@) is None,
            (ValidationErrorKind::InvalidTriggerType, loc, "unknown trigger type '"@ + t.trigger_type@ + "'"@))
        + trigger_param_errors(t, loc)
}

/// The errors of the first `n` triggers, in order.
pub open spec fn trigger_errors(triggers: Seq<TriggerDefinition>, n: int) -> Seq<ErrorView>
    decreases n,
{
    if n <= 0 {
        Seq::empty()
    } else {
        trigger_errors(triggers, n - 1) + one_trigger_errors(triggers, n - 1)
    }
}

/// Where the node `id` stands: `nodes.id`.
pub open spec fn node_location(id: Seq<char>) -> Seq<char> {
    "nodes."@ + id
}

/// One error for each of the first `m` triggers whose ID is the node ID `id`.
pub open spec fn conflict_errors(triggers: Seq<TriggerDefinition>, id: Seq<char>, m: int) -> Seq<ErrorView>
    decreases m,
{
    if m <= 0 {
        Seq::empty()
    } else {
        conflict_errors(triggers, id, m - 1) + one_if(triggers[m - 1].id@ == id,
            (ValidationErrorKind::DuplicateId, node_location(id), "node ID conflicts with trigger ID '"@ + id + "'"@))
    }
}

/// The errors of a node's configuration: a switch without `condition` or a string
/// `expression`, a loop without an integer `max_iterations` or a `condition`, an aggregate
/// without a string `operation`.
pub open spec fn node_config_errors(n: NodeDefinition, location: Seq<char>) -> Seq<ErrorView> {
    let ty = n.node_type@;
    let loc = location + ".config"@;
    if ty == "std::switch"@ {
        one_if(lookup(n.config, "condition"@) is None && string_at(n.config, "expression"@) is None,
            missing_view(loc, "condition or expression"@))
    } else if ty == "std::loop"@ {
        one_if(int_at(n.config, "max_iterations"@) is None && lookup(n.config, "condition"@) is None,
            missing_view(loc, "max_iterations or condition"@))
    } else if ty == "std::aggregate"@ {
        one_if(string_at(n.config, "operation"@) is None, missing_view(loc, "operation"@))
    } else {
        Seq::empty()
    }
}

/// What each standard node type needs in its configuration, and nothing more: a switch
/// node is accepted exactly when its configuration has a `condition` entry (of any kind)
/// or a string `expression`; a loop node exactly when it has an integer `max_iterations`
/// or a `condition`; an aggregate node exactly when it has a string `operation`; any other
/// node always. A rejected configuration gets one missing-field error under `.config`.
pub proof fn lemma_node_config_requirements(n: NodeDefinition, location: Seq<char>)
    ensures
        n.node_type@ == "std::switch"@ ==> (node_config_errors(n, location).len() == 0
            <==> (lookup(n.config, "condition"@) is Some || string_at(n.config, "expression"@) is Some)),
        n.node_type@ == "std::loop"@ ==> (node_config_errors(n, location).len() == 0
            <==> (int_at(n.config, "max_iterations"@) is Some || lookup(n.config, "condition"@) is Some)),
        n.node_type@ == "std::aggregate"@ ==> (node_config_errors(n, location).len() == 0
            <==> string_at(n.config, "operation"@) is Some),
        n.node_type@ != "std::switch"@ && n.node_type@ != "std::loop"@ && n.node_type@ != "std::aggregate"@
            ==> node_config_errors(n, location).len() == 0,
        node_config_errors(n, location).len() <= 1,
        forall|i: int| 0 <= i < node_config_errors(n, location).len() ==> {
            &&& (#[trigger] node_config_errors(n, location)[i]).0 == ValidationErrorKind::MissingField
            &&& node_config_errors(n, location)[i].1 == location + ".config"@
        },
{
    reveal_strlit("std::switch");
    reveal_strlit("std::loop");
    reveal_strlit("std::aggregate");
    assert("std::switch"@[5] != "std::loop"@[5]);
    assert("std::switch"@[5] != "std::aggregate"@[5]);
    assert("std::loop"@[5] != "std::aggregate"@[5]);
}

/// The errors of node entry `i`: conflicts with trigger IDs, an empty type, then its configuration.
pub open spec fn one_node_errors(nodes: Seq<(String, NodeDefinition)>, triggers: Seq<TriggerDefinition>, i: int) -> Seq<ErrorView> {
    let id = nodes[i].0@;
    let n = nodes[i].1;
    let loc = node_location(id);
    conflict_errors(triggers, id, triggers.len() as int)
        + one_if(n.node_type@.len() == 0, missing_view(loc, "type"@))
        + node_config_errors(n, loc)
}

/// The errors of the first `k` node entries, in order.
pub open spec fn node_errors(nodes: Seq<(String, NodeDefinition)>, triggers: Seq<TriggerDefinition>, k: int) -> Seq<ErrorView>
    decreases k,
{
    if k <= 0 {
        Seq::empty()
    } else {
        node_errors(nodes, triggers, k - 1) + one_node_errors(nodes, triggers, k - 1)
    }
}

/// Where edge `i` stands: `edges[i]`.
pub open spec fn edge_location(i: nat) -> Seq<char> {
    "edges["@ + decimal_text(i) + "]"@
}

/// The text holds `${`.
pub open spec fn has_selector_start(s: Seq<char>) -> bool {
    exists|i: int| 0 <= i && i + 1 < s.len() && s[i] == '$' && #[trigger] s[i + 1] == '{'
}

/// The brace depth after the first `n` characters: `{` opens, `}` closes an open brace
/// (a `}` with none open is passed over).
pub open spec fn brace_depth(s: Seq<char>, n: int) -> nat
    decreases n,
{
    if n <= 0 {
        0
    } else {
        let d = brace_depth(s, n - 1);
        if s[n - 1] == '{' {
            d + 1
        } else if s[n - 1] == '}' && d > 0 {
            (d - 1) as nat
        } else {
            d
        }
    }
}

/// A selector is unbalanced when it holds `${` and leaves braces open.
pub open spec fn unbalanced_selector(s: Seq<char>) -> bool {
    has_selector_start(s) && brace_depth(s, s.len() as int) > 0
}

/// The errors of edge `i`: an empty source, an empty target, an unbalanced condition.
pub open spec fn one_edge_errors(edges: Seq<EdgeDefinition>, i: int) -> Seq<ErrorView> {
    let e = edges[i];
    let loc = edge_location(i as nat);
    one_if(e.from@.len() == 0, missing_view(loc, "from"@))
        + one_if(e.to@.len() == 0, missing_view(loc, "to"@))
        + one_if(e.condition matches Some(c) && unbalanced_selector(c@),
            (ValidationErrorKind::InvalidSelector, loc + ".condition"@, "unbalanced braces in selector"@))
}

/// The errors of the first `n` edges, in order.
pub open spec fn edge_errors(edges: Seq<EdgeDefinition>, n: int) -> Seq<ErrorView>
    decreases n,
{
    if n <= 0 {
        Seq::empty()
    } else {
        edge_errors(edges, n - 1) + one_edge_errors(edges, n - 1)
    }
}

/// `id` names a node or a trigger of the flow.
pub open spec fn known_id(flow: FlowDefinition, id: Seq<char>) -> bool {
    flow.nodes.spec_map().dom().contains(id) || has_trigger_id(flow.triggers@, id)
}

/// The view of an invalid reference error.
pub open spec fn reference_view(location: Seq<char>, reference: Seq<char>) -> ErrorView {
    (ValidationErrorKind::InvalidReference, location, "reference to non-existent node '"@ + reference + "'"@)
}

/// The errors of edge `i`'s references: an unknown source node, an unknown target node.
pub open spec fn one_reference_errors(flow: FlowDefinition, i: int) -> Seq<ErrorView> {
    let e = flow.edges@[i];
    let loc = edge_location(i as nat);
    one_if(!known_id(flow, edge_source(e)), reference_view(loc + ".from"@, edge_source(e)))
        + one_if(!known_id(flow, edge_target(e)), reference_view(loc + ".to"@, edge_target(e)))
}

/// The reference errors of the first `n` edges, in order.
pub open spec fn reference_errors(flow: FlowDefinition, n: int) -> Seq<ErrorView>
    decreases n,
{
    if n <= 0 {
        Seq::empty()
    } else {
        reference_errors(flow, n - 1) + one_reference_errors(flow, n - 1)
    }
}

/// Every error of a flow under `limits`, in the order the validator reports them: limits,
/// metadata, triggers, nodes, edges, references.
pub open spec fn flow_errors(limits: ValidationLimits, flow: FlowDefinition) -> Seq<ErrorView> {
    limit_errors(limits, flow)
        + metadata_errors(flow)
        + trigger_errors(flow.triggers@, flow.triggers@.len() as int)
        + node_errors(flow.nodes.spec_entries(), flow.triggers@, flow.nodes.spec_entries().len() as int)
        + edge_errors(flow.edges@, flow.edges@.len() as int)
        + reference_errors(flow, flow.edges@.len() as int)
}

/// A flow without errors keeps to its limits, has a name, every trigger has an ID and a
/// known type, no two triggers share an ID, and every edge joins known nodes or triggers.
pub proof fn lemma_valid_flow(limits: ValidationLimits, flow: FlowDefinition)
    requires
        flow_errors(limits, flow).len() == 0,
    ensures
        flow.nodes.spec_entries().len() <= limits.max_node_count,
        flow.edges@.len() <= limits.max_edge_count,
        flow.triggers@.len() <= limits.max_trigger_count,
        flow.name@.len() > 0,
        forall|i: int| 0 <= i < flow.triggers@.len() ==> {
            &&& (#[trigger] flow.triggers@[i]).id@.len() > 0
            &&& trigger_type_of(flow.triggers@[i].trigger_type@) is Some
            &&& !repeats_earlier_id(flow.triggers@, i)
        },
        forall|i: int| 0 <= i < flow.edges@.len() ==>
            known_id(flow, edge_source(#[trigger] flow.edges@[i])) && known_id(flow, edge_target(flow.edges@[i])),
{
    let t = trigger_errors(flow.triggers@, flow.triggers@.len() as int);
    let r = reference_errors(flow, flow.edges@.len() as int);
    assert(limit_errors(limits, flow).len() == 0);
    assert(metadata_errors(flow).len() == 0);
    assert(t.len() == 0);
    assert(r.len() == 0);
    assert forall|i: int| 0 <= i < flow.triggers@.len() implies {
        &&& (#[trigger] flow.triggers@[i]).id@.len() > 0
        &&& trigger_type_of(flow.triggers@[i].trigger_type@) is Some
        &&& !repeats_earlier_id(flow.triggers@, i)
    } by {
        lemma_trigger_errors_empty(flow.triggers@, flow.triggers@.len() as int, i);
    }
    assert forall|i: int| 0 <= i < flow.edges@.len() implies
        known_id(flow, edge_source(#[trigger] flow.edges@[i])) && known_id(flow, edge_target(flow.edges@[i])) by {
        lemma_reference_errors_empty(flow, flow.edges@.len() as int, i);
    }
}

proof fn lemma_trigger_errors_empty(triggers: Seq<TriggerDefinition>, n: int, i: int)
    requires
        trigger_errors(triggers, n).len() == 0,
        0 <= i < n,
    ensures
        one_trigger_errors(triggers, i).len() == 0,
    decreases n,
{
    if i < n - 1 {
        lemma_trigger_errors_empty(triggers, n - 1, i);
    }
}

proof fn lemma_reference_errors_empty(flow: FlowDefinition, n: int, i: int)
    requires
        reference_errors(flow, n).len() == 0,
        0 <= i < n,
    ensures
        one_reference_errors(flow, i).len() == 0,
    decreases n,
{
    if i < n - 1 {
        lemma_reference_errors_empty(flow, n - 1, i);
    }
}

/// Adding an error to a list adds its view to the list's view.
proof fn lemma_errors_view_push(v: Seq<ValidationError>, e: ValidationError)
    ensures
        errors_view(v.push(e)) == errors_view(v) + seq![error_view(e)],
{
    assert(errors_view(v.push(e)) =~= errors_view(v) + seq![error_view(e)]);
}

/// A text made of `a`, the decimal text of `n`, and `b`.
fn numbered(a: &str, n: usize, b: &str) -> (r: String)
    ensures
        r@ == a@ + decimal_text(n as nat) + b@,
{
    let mut r = owned(a);
    let t = u64_text(n as u64);
    r.append(t.as_str());
    r.append(b);
    r
}

/// Whether a selector leaves braces open after a `${`.
fn selector_unbalanced(selector: &str) -> (r: bool)
    ensures
        r == unbalanced_selector(selector@),
{
    let cs = chars_of(selector);
    let mut has_start = false;
    let mut k: usize = 0;
    while k < cs.len()
        invariant
            cs@ == selector@,
            k <= cs@.len(),
            has_start <==> exists|i: int| 0 <= i < k && i + 1 < cs@.len() && cs@[i] == '$' && #[trigger] cs@[i + 1] == '{',
        decreases cs@.len() - k,
    {
        if k + 1 < cs.len() && cs[k] == '$' && cs[k + 1] == '{' {
            has_start = true;
        }
        k = k + 1;
    }
    assert(has_start == has_selector_start(selector@)) by {
        if has_selector_start(selector@) {
            let i = choose|i: int| 0 <= i && i + 1 < selector@.len() && selector@[i] == '$' && #[trigger] selector@[i + 1] == '{';
            assert(i < k);
        }
    }
    let mut in_selector = false;
    let mut depth: usize = 0;
    let mut i: usize = 0;
    while i < cs.len()
        invariant
            cs@ == selector@,
            i <= cs@.len(),
            depth == brace_depth(selector@, i as int) || !has_start,
            !has_start ==> depth == 0,
            in_selector <==> depth > 0,
            depth <= i,
        decreases cs@.len() - i,
    {
        let c = cs[i];
        if c == '{' && (in_selector || has_start) {
            depth = depth + 1;
            in_selector = true;
        } else if c == '}' && in_selector {
            depth = depth - 1;
            if depth == 0 {
                in_selector = false;
            }
        }
        i = i + 1;
    }
    depth != 0
}

/// Validator for flow documents: collects every error it finds.
pub struct FlowValidator {
    errors: Vec<ValidationError>,
    limits: ValidationLimits,
}

impl FlowValidator {
    /// The errors collected so far.
    pub closed spec fn spec_errors(&self) -> Seq<ErrorView> {
        errors_view(self.errors@)
    }

    /// The limits it checks.
    pub closed spec fn spec_limits(&self) -> ValidationLimits {
        self.limits
    }

    /// A validator with the default limits and no errors.
    pub fn new() -> (r: Self)
        ensures
            r.spec_limits() == default_limits(),
            r.spec_errors().len() == 0,
    {
        FlowValidator { errors: Vec::new(), limits: ValidationLimits::new() }
    }

    /// A validator with `limits` and no errors.
    pub fn with_limits(limits: ValidationLimits) -> (r: Self)
        ensures
            r.spec_limits() == limits,
            r.spec_errors().len() == 0,
    {
        FlowValidator { errors: Vec::new(), limits }
    }

    fn add_error(&mut self, error: ValidationError)
        ensures
            final(self).limits == old(self).limits,
            errors_view(final(self).errors@) == errors_view(old(self).errors@) + seq![error_view(error)],
    {
        proof {
            lemma_errors_view_push(self.errors@, error);
        }
        self.errors.push(error);
    }

    fn check_count(&mut self, location: &str, what: &str, count: usize, max: usize)
        ensures
            final(self).limits == old(self).limits,
            errors_view(final(self).errors@) == errors_view(old(self).errors@)
                + count_error(location@, what@, count as nat, max as nat),
    {
        if count > max {
            let mut m = owned(what);
            m.append(" count (");
            let t = u64_text(count as u64);
            m.append(t.as_str());
            m.append(") exceeds maximum allowed (");
            let u = u64_text(max as u64);
            m.append(u.as_str());
            m.append(")");
            self.add_error(ValidationError::new(ValidationErrorKind::LimitExceeded, location, m.as_str()));
        } else {
            assert(errors_view(self.errors@) + count_error(location@, what@, count as nat, max as nat)
                =~= errors_view(self.errors@));
        }
    }

    fn validate_limits(&mut self, flow: &FlowDefinition)
        ensures
            final(self).limits == old(self).limits,
            errors_view(final(self).errors@) == errors_view(old(self).errors@) + limit_errors(old(self).limits, *flow),
    {
        let ghost before = errors_view(self.errors@);
        let max_nodes = self.limits.max_node_count;
        let max_edges = self.limits.max_edge_count;
        let max_triggers = self.limits.max_trigger_count;
        self.check_count("nodes", "node", flow.nodes.len(), max_nodes);
        self.check_count("edges", "edge", flow.edges.len(), max_edges);
        self.check_count("triggers", "trigger", flow.triggers.len(), max_triggers);
        assert(errors_view(self.errors@) =~= before + limit_errors(self.limits, *flow));
    }

    fn validate_metadata(&mut self, flow: &FlowDefinition)
        ensures
            final(self).limits == old(self).limits,
            errors_view(final(self).errors@) == errors_view(old(self).errors@) + metadata_errors(*flow),
    {
        let ghost before = errors_view(self.errors@);
        if flow.name.as_str().is_empty() {
            self.add_error(ValidationError::missing_field("flow", "name"));
        }
        let ghost mid = errors_view(self.errors@);
        assert(mid =~= before + one_if(flow.name@.len() == 0, missing_view("flow"@, "name"@)));
        match &flow.version {
            Some(v) => {
                if v.as_str().is_empty() {
                    self.add_error(ValidationError::invalid_value("flow.version", "version cannot be empty string"));
                }
            },
            None => {},
        }
        assert(errors_view(self.errors@) =~= before + metadata_errors(*flow));
    }

    fn validate_trigger_params(&mut self, trigger: &TriggerDefinition, location: &str)
        ensures
            final(self).limits == old(self).limits,
            errors_view(final(self).errors@) == errors_view(old(self).errors@) + trigger_param_errors(*trigger, location@),
    {
        let ghost before = errors_view(self.errors@);
        let ty = trigger.trigger_type.as_str();
        if str_eq(ty, "webhook") || str_eq(ty, "trigger::webhook") {
            match trigger.get_i64("port") {
                Some(port) => {
                    if port < 1 || port > 65535 {
                        let loc = concat2(location, ".params.port");
                        let mut m = owned("port must be between 1 and 65535, got ");
                        let t = i64_text(port);
                        m.append(t.as_str());
                        self.add_error(ValidationError::invalid_value(loc.as_str(), m.as_str()));
                    }
                },
                None => {},
            }
        } else if str_eq(ty, "cron") || str_eq(ty, "trigger::cron") {
            if trigger.get_string("schedule").is_none() {
                let loc = concat2(location, ".params");
                self.add_error(ValidationError::missing_field(loc.as_str(), "schedule"));
            }
        } else if str_eq(ty, "filesystem") || str_eq(ty, "trigger::filesystem") {
            if trigger.get_string("path").is_none() {
                let loc = concat2(location, ".params");
                self.add_error(ValidationError::missing_field(loc.as_str(), "path"));
            }
        }
        assert(errors_view(self.errors@) =~= before + trigger_param_errors(*trigger, location@));
    }

    fn validate_triggers(&mut self, flow: &FlowDefinition)
        ensures
            final(self).limits == old(self).limits,
            errors_view(final(self).errors@) == errors_view(old(self).errors@)
                + trigger_errors(flow.triggers@, flow.triggers@.len() as int),
    {
        let ghost before = errors_view(self.errors@);
        let ghost limits0 = self.limits;
        let ghost triggers = flow.triggers@;
        let mut i: usize = 0;
        assert(before + trigger_errors(triggers, 0) =~= before);
        while i < flow.triggers.len()
            invariant
                i <= triggers.len(),
                triggers == flow.triggers@,
                self.limits == limits0,
                errors_view(self.errors@) == before + trigger_errors(triggers, i as int),
            decreases triggers.len() - i,
        {
            let trigger = &flow.triggers[i];
            let location = numbered("triggers[", i, "]");
            let ghost at_start = errors_view(self.errors@);
            let mut seen = false;
            let mut j: usize = 0;
            while j < i
                invariant
                    j <= i,
                    i < triggers.len(),
                    triggers == flow.triggers@,
                    *trigger == triggers[i as int],
                    seen <==> exists|k: int| 0 <= k < j && (#[trigger] triggers[k]).id@ == triggers[i as int].id@,
                decreases i - j,
            {
                if str_eq(flow.triggers[j].id.as_str(), trigger.id.as_str()) {
                    seen = true;
                }
                j = j + 1;
            }
            if seen {
                self.add_error(ValidationError::duplicate_id(location.as_str(), trigger.id.as_str()));
            }
            if trigger.id.as_str().is_empty() {
                self.add_error(ValidationError::missing_field(location.as_str(), "id"));
            }
            if trigger.parsed_type().is_none() {
                let mut m = owned("unknown trigger type '");
                m.append(trigger.trigger_type.as_str());
                m.append("'");
                self.add_error(ValidationError::new(ValidationErrorKind::InvalidTriggerType, location.as_str(), m.as_str()));
            }
            self.validate_trigger_params(trigger, location.as_str());
            proof {
                assert(errors_view(self.errors@) =~= at_start + one_trigger_errors(triggers, i as int));
                assert(trigger_errors(triggers, i + 1) == trigger_errors(triggers, i as int) + one_trigger_errors(triggers, i as int));
                assert(errors_view(self.errors@) =~= before + trigger_errors(triggers, i + 1));
            }
            i = i + 1;
        }
    }

    fn validate_node_config(&mut self, node: &NodeDefinition, location: &str)
        ensures
            final(self).limits == old(self).limits,
            errors_view(final(self).errors@) == errors_view(old(self).errors@) + node_config_errors(*node, location@),
    {
        let ghost before = errors_view(self.errors@);
        let ty = node.node_type.as_str();
        if str_eq(ty, "std::switch") {
            if node.config.get("condition").is_none() && node.get_string("expression").is_none() {
                let loc = concat2(location, ".config");
                self.add_error(ValidationError::missing_field(loc.as_str(), "condition or expression"));
            }
        } else if str_eq(ty, "std::loop") {
            if node.get_i64("max_iterations").is_none() && node.config.get("condition").is_none() {
                let loc = concat2(location, ".config");
                self.add_error(ValidationError::missing_field(loc.as_str(), "max_iterations or condition"));
            }
        } else if str_eq(ty, "std::aggregate") {
            if node.get_string("operation").is_none() {
                let loc = concat2(location, ".config");
                self.add_error(ValidationError::missing_field(loc.as_str(), "operation"));
            }
        }
        assert(errors_view(self.errors@) =~= before + node_config_errors(*node, location@));
    }

    fn validate_nodes(&mut self, flow: &FlowDefinition)
        ensures
            final(self).limits == old(self).limits,
            errors_view(final(self).errors@) == errors_view(old(self).errors@)
                + node_errors(flow.nodes.spec_entries(), flow.triggers@, flow.nodes.spec_entries().len() as int),
    {
        let ghost before = errors_view(self.errors@);
        let ghost limits0 = self.limits;
        let ghost nodes = flow.nodes.spec_entries();
        let ghost triggers = flow.triggers@;
        let mut i: usize = 0;
        assert(before + node_errors(nodes, triggers, 0) =~= before);
        while i < flow.nodes.len()
            invariant
                i <= nodes.len(),
                nodes == flow.nodes.spec_entries(),
                triggers == flow.triggers@,
                self.limits == limits0,
                errors_view(self.errors@) == before + node_errors(nodes, triggers, i as int),
            decreases nodes.len() - i,
        {
            let entry = flow.nodes.entry(i);
            let node_id = entry.0.as_str();
            let node = &entry.1;
            let location = concat2("nodes.", node_id);
            let ghost at_start = errors_view(self.errors@);
            let mut j: usize = 0;
            assert(at_start + conflict_errors(triggers, node_id@, 0) =~= at_start);
            while j < flow.triggers.len()
                invariant
                    j <= triggers.len(),
                    triggers == flow.triggers@,
                    location@ == node_location(node_id@),
                    self.limits == limits0,
                    errors_view(self.errors@) == at_start + conflict_errors(triggers, node_id@, j as int),
                decreases triggers.len() - j,
            {
                let ghost at_j = errors_view(self.errors@);
                if str_eq(flow.triggers[j].id.as_str(), node_id) {
                    let mut m = owned("node ID conflicts with trigger ID '");
                    m.append(node_id);
                    m.append("'");
                    self.add_error(ValidationError::new(ValidationErrorKind::DuplicateId, location.as_str(), m.as_str()));
                }
                proof {
                    assert(errors_view(self.errors@) =~= at_start + conflict_errors(triggers, node_id@, j + 1));
                }
                j = j + 1;
            }
            let ghost after_conflicts = errors_view(self.errors@);
            if node.node_type.as_str().is_empty() {
                self.add_error(ValidationError::missing_field(location.as_str(), "type"));
            }
            self.validate_node_config(node, location.as_str());
            proof {
                assert(errors_view(self.errors@) =~= at_start + one_node_errors(nodes, triggers, i as int));
                assert(node_errors(nodes, triggers, i + 1) == node_errors(nodes, triggers, i as int) + one_node_errors(nodes, triggers, i as int));
                assert(errors_view(self.errors@) =~= before + node_errors(nodes, triggers, i + 1));
            }
            i = i + 1;
        }
    }

    fn validate_selector_syntax(&mut self, selector: &str, location: &str)
        ensures
            final(self).limits == old(self).limits,
            errors_view(final(self).errors@) == errors_view(old(self).errors@)
                + one_if(unbalanced_selector(selector@),
                    (ValidationErrorKind::InvalidSelector, location@, "unbalanced braces in selector"@)),
    {
        let ghost before = errors_view(self.errors@);
        if selector_unbalanced(selector) {
            self.add_error(ValidationError::new(ValidationErrorKind::InvalidSelector, location, "unbalanced braces in selector"));
        }
        assert(errors_view(self.errors@) =~= before + one_if(unbalanced_selector(selector@),
            (ValidationErrorKind::InvalidSelector, location@, "unbalanced braces in selector"@)));
    }

    fn validate_edges(&mut self, flow: &FlowDefinition)
        ensures
            final(self).limits == old(self).limits,
            errors_view(final(self).errors@) == errors_view(old(self).errors@)
                + edge_errors(flow.edges@, flow.edges@.len() as int),
    {
        let ghost before = errors_view(self.errors@);
        let ghost limits0 = self.limits;
        let ghost edges = flow.edges@;
        let mut i: usize = 0;
        assert(before + edge_errors(edges, 0) =~= before);
        while i < flow.edges.len()
            invariant
                i <= edges.len(),
                edges == flow.edges@,
                self.limits == limits0,
                errors_view(self.errors@) == before + edge_errors(edges, i as int),
            decreases edges.len() - i,
        {
            let edge = &flow.edges[i];
            let location = numbered("edges[", i, "]");
            let ghost at_start = errors_view(self.errors@);
            if edge.from.as_str().is_empty() {
                self.add_error(ValidationError::missing_field(location.as_str(), "from"));
            }
            if edge.to.as_str().is_empty() {
                self.add_error(ValidationError::missing_field(location.as_str(), "to"));
            }
            let ghost mid = errors_view(self.errors@);
            match &edge.condition {
                Some(c) => {
                    let loc = concat2(location.as_str(), ".condition");
                    self.validate_selector_syntax(c.as_str(), loc.as_str());
                },
                None => {},
            }
            proof {
                assert(errors_view(self.errors@) =~= at_start + one_edge_errors(edges, i as int));
                assert(edge_errors(edges, i + 1) == edge_errors(edges, i as int) + one_edge_errors(edges, i as int));
                assert(errors_view(self.errors@) =~= before + edge_errors(edges, i + 1));
            }
            i = i + 1;
        }
    }

    fn validate_references(&mut self, flow: &FlowDefinition)
        ensures
            final(self).limits == old(self).limits,
            errors_view(final(self).errors@) == errors_view(old(self).errors@)
                + reference_errors(*flow, flow.edges@.len() as int),
    {
        let ghost before = errors_view(self.errors@);
        let ghost limits0 = self.limits;
        let mut i: usize = 0;
        assert(before + reference_errors(*flow, 0) =~= before);
        while i < flow.edges.len()
            invariant
                i <= flow.edges@.len(),
                self.limits == limits0,
                errors_view(self.errors@) == before + reference_errors(*flow, i as int),
            decreases flow.edges@.len() - i,
        {
            let edge = &flow.edges[i];
            let location = numbered("edges[", i, "]");
            let ghost at_start = errors_view(self.errors@);
            let from_node = edge.from_node();
            if !(flow.has_node(from_node) || flow.has_trigger(from_node)) {
                let loc = concat2(location.as_str(), ".from");
                self.add_error(ValidationError::invalid_reference(loc.as_str(), from_node));
            }
            let to_node = edge.to_node();
            if !(flow.has_node(to_node) || flow.has_trigger(to_node)) {
                let loc = concat2(location.as_str(), ".to");
                self.add_error(ValidationError::invalid_reference(loc.as_str(), to_node));
            }
            proof {
                assert(errors_view(self.errors@) =~= at_start + one_reference_errors(*flow, i as int));
                assert(reference_errors(*flow, i + 1) == reference_errors(*flow, i as int) + one_reference_errors(*flow, i as int));
                assert(errors_view(self.errors@) =~= before + reference_errors(*flow, i + 1));
            }
            i = i + 1;
        }
    }

    /// Validate a flow: `Ok` when neither earlier errors nor the flow give any error, else
    /// every error, in the order of `flow_errors`.
    pub fn validate(self, flow: &FlowDefinition) -> (r: Result<(), Vec<ValidationError>>)
        ensures
            r is Ok <==> self.spec_errors() + flow_errors(self.spec_limits(), *flow) == Seq::<ErrorView>::empty(),
            r matches Err(es) ==> errors_view(es@) == self.spec_errors() + flow_errors(self.spec_limits(), *flow),
    {
        let mut v = self;
        let ghost start = errors_view(v.errors@);
        v.validate_limits(flow);
        v.validate_metadata(flow);
        v.validate_triggers(flow);
        v.validate_nodes(flow);
        v.validate_edges(flow);
        v.validate_references(flow);
        assert(errors_view(v.errors@) =~= start + flow_errors(v.limits, *flow));
        if v.errors.len() == 0 {
            assert(errors_view(v.errors@).len() == 0);
            Ok(())
        } else {
            Err(v.errors)
        }
    }
}

impl Default for FlowValidator {
    /// A validator with the default limits.
    fn default() -> (r: Self)
        ensures
            r.spec_limits() == default_limits(),
            r.spec_errors().len() == 0,
    {
        FlowValidator::new()
    }
}

} // verus!
