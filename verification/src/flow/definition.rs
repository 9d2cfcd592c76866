//! A flow document: its name, triggers, nodes and edges.
use vstd::prelude::*;
use crate::text::{owned, str_eq};
use crate::keyed::KeyedList;
use crate::flow::edge::{EdgeDefinition, node_port};
use crate::flow::node::NodeDefinition;
use crate::flow::trigger::TriggerDefinition;
use crate::flow::validation::error::ValidationError;
use crate::flow::validation::limits::default_limits;
use crate::flow::validation::validator::{FlowValidator, flow_errors, errors_view, ErrorView};

verus! {

/// A flow document. Nodes are held under their IDs, in the order IDs were first added.
#[derive(Debug)]
pub struct FlowDefinition {
    /// Flow name (required).
    pub name: String,
    /// Flow version (`1.0` when absent).
    pub version: Option<String>,
    /// Human-readable description.
    pub description: Option<String>,
    /// Triggers that start this flow.
    pub triggers: Vec<TriggerDefinition>,
    /// Nodes, under their IDs.
    pub nodes: KeyedList<NodeDefinition>,
    /// Edges connecting nodes.
    pub edges: Vec<EdgeDefinition>,
}

/// The node an edge leaves.
pub open spec fn edge_source(e: EdgeDefinition) -> Seq<char> {
    node_port(e.from@, "out"@).0
}

/// The node an edge enters.
pub open spec fn edge_target(e: EdgeDefinition) -> Seq<char> {
    node_port(e.to@, "in"@).0
}

/// Some trigger of `triggers` has the ID `id`.
pub open spec fn has_trigger_id(triggers: Seq<TriggerDefinition>, id: Seq<char>) -> bool {
    exists|i: int| 0 <= i < triggers.len() && (#[trigger] triggers[i]).id@ == id
}

impl FlowDefinition {
    /// An empty flow named `name`, at version `1.0`.
    pub fn new(name: &str) -> (r: Self)
        ensures
            r.name@ == name@,
            r.version matches Some(v) && v@ == "1.0"@,
            r.description is None,
            r.triggers@.len() == 0,
            r.nodes.spec_entries().len() == 0,
            r.edges@.len() == 0,
    {
        FlowDefinition {
            name: owned(name),
            version: Some(owned("1.0")),
            description: None,
            triggers: Vec::new(),
            nodes: KeyedList::new(),
            edges: Vec::new(),
        }
    }

    /// The same flow with a version.
    pub fn with_version(self, version: &str) -> (r: Self)
        ensures
            r.version matches Some(v) && v@ == version@,
            r.name == self.name,
            r.description == self.description,
            r.triggers == self.triggers,
            r.nodes == self.nodes,
            r.edges == self.edges,
    {
        FlowDefinition { version: Some(owned(version)), ..self }
    }

    /// The same flow with a description.
    pub fn with_description(self, desc: &str) -> (r: Self)
        ensures
            r.description matches Some(d) && d@ == desc@,
            r.name == self.name,
            r.version == self.version,
            r.triggers == self.triggers,
            r.nodes == self.nodes,
            r.edges == self.edges,
    {
        FlowDefinition { description: Some(owned(desc)), ..self }
    }

    /// The same flow with one more trigger, last.
    pub fn with_trigger(self, trigger: TriggerDefinition) -> (r: Self)
        ensures
            r.triggers@ == self.triggers@.push(trigger),
            r.name == self.name,
            r.version == self.version,
            r.description == self.description,
            r.nodes == self.nodes,
            r.edges == self.edges,
    {
        let mut r = self;
        r.triggers.push(trigger);
        r
    }

    /// The same flow with `node` under `id` (replacing a node already there).
    pub fn with_node(self, id: &str, node: NodeDefinition) -> (r: Self)
        ensures
            r.nodes.spec_map() == self.nodes.spec_map().insert(id@, node),
            self.nodes.spec_map().dom().contains(id@) ==> r.nodes.spec_keys() == self.nodes.spec_keys(),
            !self.nodes.spec_map().dom().contains(id@) ==> r.nodes.spec_keys() == self.nodes.spec_keys().push(id@),
            r.name == self.name,
            r.version == self.version,
            r.description == self.description,
            r.triggers == self.triggers,
            r.edges == self.edges,
    {
        let mut r = self;
        r.nodes.insert(id, node);
        r
    }

    /// The same flow with one more edge, last.
    pub fn with_edge(self, edge: EdgeDefinition) -> (r: Self)
        ensures
            r.edges@ == self.edges@.push(edge),
            r.name == self.name,
            r.version == self.version,
            r.description == self.description,
            r.triggers == self.triggers,
            r.nodes == self.nodes,
    {
        let mut r = self;
        r.edges.push(edge);
        r
    }

    /// The version, `1.0` when none is set.
    pub fn effective_version(&self) -> (r: &str)
        ensures
            r@ == (match self.version {
                Some(v) => v@,
                None => "1.0"@,
            }),
    {
        match &self.version {
            Some(v) => v.as_str(),
            None => "1.0",
        }
    }

    /// The node IDs, in order.
    pub fn node_ids(&self) -> (r: Vec<&str>)
        ensures
            r@.map_values(|s: &str| s@) == self.nodes.spec_keys(),
    {
        let mut out: Vec<&str> = Vec::new();
        let mut i: usize = 0;
        while i < self.nodes.len()
            invariant
                i <= self.nodes.spec_entries().len(),
                out@.len() == i,
                forall|j: int| 0 <= j < i ==> (#[trigger] out@[j])@ == self.nodes.spec_entries()[j].0@,
            decreases self.nodes.spec_entries().len() - i,
        {
            let e = self.nodes.entry(i);
            out.push(e.0.as_str());
            i = i + 1;
        }
        assert(out@.map_values(|s: &str| s@) =~= self.nodes.spec_keys());
        out
    }

    /// The trigger IDs, in order.
    pub fn trigger_ids(&self) -> (r: Vec<&str>)
        ensures
            r@.map_values(|s: &str| s@) == self.triggers@.map_values(|t: TriggerDefinition| t.id@),
    {
        let mut out: Vec<&str> = Vec::new();
        let mut i: usize = 0;
        while i < self.triggers.len()
            invariant
                i <= self.triggers@.len(),
                out@.len() == i,
                forall|j: int| 0 <= j < i ==> (#[trigger] out@[j])@ == self.triggers@[j].id@,
            decreases self.triggers@.len() - i,
        {
            out.push(self.triggers[i].id.as_str());
            i = i + 1;
        }
        assert(out@.map_values(|s: &str| s@) =~= self.triggers@.map_values(|t: TriggerDefinition| t.id@));
        out
    }

    /// The node under `id`, if any.
    pub fn get_node(&self, id: &str) -> (r: Option<&NodeDefinition>)
        ensures
            r is Some <==> self.nodes.spec_map().dom().contains(id@),
            r matches Some(n) ==> *n == self.nodes.spec_map()[id@],
    {
        self.nodes.get(id)
    }

    /// The first trigger with ID `id`, if any.
    pub fn get_trigger(&self, id: &str) -> (r: Option<&TriggerDefinition>)
        ensures
            r is None <==> !has_trigger_id(self.triggers@, id@),
            r matches Some(t) ==> exists|i: int| 0 <= i < self.triggers@.len() && self.triggers@[i] == *t
                && t.id@ == id@ && forall|j: int| 0 <= j < i ==> (#[trigger] self.triggers@[j]).id@ != id@,
    {
        let mut i: usize = 0;
        while i < self.triggers.len()
            invariant
                i <= self.triggers@.len(),
                forall|j: int| 0 <= j < i ==> (#[trigger] self.triggers@[j]).id@ != id@,
            decreases self.triggers@.len() - i,
        {
            if str_eq(self.triggers[i].id.as_str(), id) {
                return Some(&self.triggers[i]);
            }
            i = i + 1;
        }
        None
    }

    /// Whether some trigger has ID `id`.
    pub fn has_trigger(&self, id: &str) -> (r: bool)
        ensures
            r == has_trigger_id(self.triggers@, id@),
    {
        self.get_trigger(id).is_some()
    }

    /// Whether a node is held under `id`.
    pub fn has_node(&self, id: &str) -> (r: bool)
        ensures
            r == self.nodes.spec_map().dom().contains(id@),
    {
        self.nodes.get(id).is_some()
    }

    /// The enabled triggers, in order.
    pub fn enabled_triggers(&self) -> (r: Vec<&TriggerDefinition>)
        ensures
            r@.map_values(|t: &TriggerDefinition| *t) == self.triggers@.filter(|t: TriggerDefinition| t.enabled),
    {
        let ghost p = |t: TriggerDefinition| t.enabled;
        let mut out: Vec<&TriggerDefinition> = Vec::new();
        let mut i: usize = 0;
        assert(self.triggers@.take(0).filter(p) =~= Seq::<TriggerDefinition>::empty()) by {
            reveal(Seq::filter);
        }
        while i < self.triggers.len()
            invariant
                i <= self.triggers@.len(),
                p == (|t: TriggerDefinition| t.enabled),
                out@.map_values(|t: &TriggerDefinition| *t) == self.triggers@.take(i as int).filter(p),
            decreases self.triggers@.len() - i,
        {
            let t = &self.triggers[i];
            proof {
                assert(self.triggers@.take(i + 1) =~= self.triggers@.take(i as int).push(*t));
                self.triggers@.take(i as int).lemma_filter_push(*t, p);
            }
            if t.enabled {
                out.push(t);
            }
            proof {
                assert(out@.map_values(|t: &TriggerDefinition| *t) =~= self.triggers@.take(i + 1).filter(p));
            }
            i = i + 1;
        }
        assert(self.triggers@.take(i as int) =~= self.triggers@);
        out
    }

    /// The enabled nodes with their IDs, in order.
    pub fn enabled_nodes(&self) -> (r: Vec<(&str, &NodeDefinition)>)
        ensures
            r@.map_values(|e: (&str, &NodeDefinition)| (e.0@, *e.1))
                == self.nodes.spec_entries().filter(|e: (String, NodeDefinition)| e.1.enabled)
                    .map_values(|e: (String, NodeDefinition)| (e.0@, e.1)),
    {
        let ghost p = |e: (String, NodeDefinition)| e.1.enabled;
        let ghost all = self.nodes.spec_entries();
        let mut out: Vec<(&str, &NodeDefinition)> = Vec::new();
        let mut i: usize = 0;
        assert(all.take(0).filter(p) =~= Seq::<(String, NodeDefinition)>::empty()) by {
            reveal(Seq::filter);
        }
        while i < self.nodes.len()
            invariant
                i <= all.len(),
                all == self.nodes.spec_entries(),
                p == (|e: (String, NodeDefinition)| e.1.enabled),
                out@.len() == all.take(i as int).filter(p).len(),
                forall|j: int| 0 <= j < out@.len() ==> (#[trigger] out@[j]).0@ == all.take(i as int).filter(p)[j].0@
                    && *out@[j].1 == all.take(i as int).filter(p)[j].1,
            decreases all.len() - i,
        {
            let e = self.nodes.entry(i);
            proof {
                assert(all.take(i + 1) =~= all.take(i as int).push(*e));
                all.take(i as int).lemma_filter_push(*e, p);
            }
            if e.1.enabled {
                out.push((e.0.as_str(), &e.1));
            }
            i = i + 1;
        }
        assert(all.take(i as int) =~= all);
        assert(out@.map_values(|e: (&str, &NodeDefinition)| (e.0@, *e.1))
            =~= all.filter(p).map_values(|e: (String, NodeDefinition)| (e.0@, e.1)));
        out
    }

    /// The edges leaving node `node_id`, in order.
    pub fn edges_from(&self, node_id: &str) -> (r: Vec<&EdgeDefinition>)
        ensures
            r@.map_values(|e: &EdgeDefinition| *e) == self.edges@.filter(|e: EdgeDefinition| edge_source(e) == node_id@),
    {
        let ghost p = |e: EdgeDefinition| edge_source(e) == node_id@;
        let mut out: Vec<&EdgeDefinition> = Vec::new();
        let mut i: usize = 0;
        assert(self.edges@.take(0).filter(p) =~= Seq::<EdgeDefinition>::empty()) by {
            reveal(Seq::filter);
        }
        while i < self.edges.len()
            invariant
                i <= self.edges@.len(),
                p == (|e: EdgeDefinition| edge_source(e) == node_id@),
                out@.map_values(|e: &EdgeDefinition| *e) == self.edges@.take(i as int).filter(p),
            decreases self.edges@.len() - i,
        {
            let e = &self.edges[i];
            proof {
                assert(self.edges@.take(i + 1) =~= self.edges@.take(i as int).push(*e));
                self.edges@.take(i as int).lemma_filter_push(*e, p);
            }
            if str_eq(e.from_node(), node_id) {
                out.push(e);
            }
            proof {
                assert(out@.map_values(|e: &EdgeDefinition| *e) =~= self.edges@.take(i + 1).filter(p));
            }
            i = i + 1;
        }
        assert(self.edges@.take(i as int) =~= self.edges@);
        out
    }

    /// The edges entering node `node_id`, in order.
    pub fn edges_to(&self, node_id: &str) -> (r: Vec<&EdgeDefinition>)
        ensures
            r@.map_values(|e: &EdgeDefinition| *e) == self.edges@.filter(|e: EdgeDefinition| edge_target(e) == node_id@),
    {
        let ghost p = |e: EdgeDefinition| edge_target(e) == node_id@;
        let mut out: Vec<&EdgeDefinition> = Vec::new();
        let mut i: usize = 0;
        assert(self.edges@.take(0).filter(p) =~= Seq::<EdgeDefinition>::empty()) by {
            reveal(Seq::filter);
        }
        while i < self.edges.len()
            invariant
                i <= self.edges@.len(),
                p == (|e: EdgeDefinition| edge_target(e) == node_id@),
                out@.map_values(|e: &EdgeDefinition| *e) == self.edges@.take(i as int).filter(p),
            decreases self.edges@.len() - i,
        {
            let e = &self.edges[i];
            proof {
                assert(self.edges@.take(i + 1) =~= self.edges@.take(i as int).push(*e));
                self.edges@.take(i as int).lemma_filter_push(*e, p);
            }
            if str_eq(e.to_node(), node_id) {
                out.push(e);
            }
            proof {
                assert(out@.map_values(|e: &EdgeDefinition| *e) =~= self.edges@.take(i + 1).filter(p));
            }
            i = i + 1;
        }
        assert(self.edges@.take(i as int) =~= self.edges@);
        out
    }

    /// Validate the flow under the default limits: `Ok` when it has no error, else every
    /// error, in the order of `flow_errors`.
    pub fn validate(&self) -> (r: Result<(), Vec<ValidationError>>)
        ensures
            r is Ok <==> flow_errors(default_limits(), *self) == Seq::<ErrorView>::empty(),
            r matches Err(es) ==> errors_view(es@) == flow_errors(default_limits(), *self),
    {
        let v = FlowValidator::new();
        proof {
            assert(v.spec_errors() + flow_errors(default_limits(), *self) =~= flow_errors(default_limits(), *self));
        }
        v.validate(self)
    }
}

} // verus!
