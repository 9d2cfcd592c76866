//! Trigger definitions of a flow document.
use vstd::prelude::*;
use crate::text::{owned, str_eq};
use crate::flow::yaml::{YamlValue, string_at, int_at, bool_at, same_yaml};

verus! {

/// The kinds of trigger a flow can start from.
#[derive(Debug, Clone, Copy, PartialEq, Eq, Structural)]
pub enum TriggerType {
    /// An HTTP webhook.
    Webhook,
    /// A cron schedule.
    Cron,
    /// A file system watcher.
    Filesystem,
    /// A message queue.
    Queue,
    /// An in-memory channel.
    Memory,
    /// Started by hand.
    Manual,
}

/// The trigger type a name stands for: the short name (`webhook`) or the name under
/// `trigger::` (`trigger::webhook`).
pub open spec fn trigger_type_of(s: Seq<char>) -> Option<TriggerType> {
    if s == "webhook"@ || s == "trigger::webhook"@ {
        Some(TriggerType::Webhook)
    } else if s == "cron"@ || s == "trigger::cron"@ {
        Some(TriggerType::Cron)
    } else if s == "filesystem"@ || s == "trigger::filesystem"@ {
        Some(TriggerType::Filesystem)
    } else if s == "queue"@ || s == "trigger::queue"@ {
        Some(TriggerType::Queue)
    } else if s == "memory"@ || s == "trigger::memory"@ {
        Some(TriggerType::Memory)
    } else if s == "manual"@ || s == "trigger::manual"@ {
        Some(TriggerType::Manual)
    } else {
        None
    }
}

impl TriggerType {
    /// The trigger type a name stands for, if any.
    pub fn parse(s: &str) -> (r: Option<TriggerType>)
        ensures
            r == trigger_type_of(s@),
    {
        if str_eq(s, "webhook") || str_eq(s, "trigger::webhook") {
            Some(TriggerType::Webhook)
        } else if str_eq(s, "cron") || str_eq(s, "trigger::cron") {
            Some(TriggerType::Cron)
        } else if str_eq(s, "filesystem") || str_eq(s, "trigger::filesystem") {
            Some(TriggerType::Filesystem)
        } else if str_eq(s, "queue") || str_eq(s, "trigger::queue") {
            Some(TriggerType::Queue)
        } else if str_eq(s, "memory") || str_eq(s, "trigger::memory") {
            Some(TriggerType::Memory)
        } else if str_eq(s, "manual") || str_eq(s, "trigger::manual") {
            Some(TriggerType::Manual)
        } else {
            None
        }
    }
}

/// A trigger of a flow document.
#[derive(Debug)]
pub struct TriggerDefinition {
    /// Unique identifier of the trigger.
    pub id: String,
    /// Trigger type name (webhook, cron, filesystem, queue, memory, manual).
    pub trigger_type: String,
    /// Type-specific parameters.
    pub params: YamlValue,
    /// Whether the trigger is enabled.
    pub enabled: bool,
    /// Optional description.
    pub description: Option<String>,
}

/// The configuration a trigger factory takes.
#[derive(Debug)]
pub struct TriggerConfig {
    /// Identifier of the trigger.
    pub id: String,
    /// Its type.
    pub trigger_type: TriggerType,
    /// Type-specific parameters.
    pub params: YamlValue,
}

impl TriggerDefinition {
    /// An enabled trigger without parameters or description.
    pub fn new(id: &str, trigger_type: &str) -> (r: Self)
        ensures
            r.id@ == id@,
            r.trigger_type@ == trigger_type@,
            r.params == YamlValue::Null,
            r.enabled,
            r.description is None,
    {
        TriggerDefinition {
            id: owned(id),
            trigger_type: owned(trigger_type),
            params: YamlValue::Null,
            enabled: true,
            description: None,
        }
    }

    /// The same trigger with `params` as its parameters.
    pub fn with_params(self, params: YamlValue) -> (r: Self)
        ensures
            r == (TriggerDefinition { params, ..self }),
    {
        TriggerDefinition { params, ..self }
    }

    /// The same trigger with a description.
    pub fn with_description(self, desc: &str) -> (r: Self)
        ensures
            r.description matches Some(d) && d@ == desc@,
            r.id == self.id,
            r.trigger_type == self.trigger_type,
            r.params == self.params,
            r.enabled == self.enabled,
    {
        TriggerDefinition { description: Some(owned(desc)), ..self }
    }

    /// The same trigger, disabled.
    pub fn disabled(self) -> (r: Self)
        ensures
            r == (TriggerDefinition { enabled: false, ..self }),
    {
        TriggerDefinition { enabled: false, ..self }
    }

    /// The trigger type its name stands for, if any.
    pub fn parsed_type(&self) -> (r: Option<TriggerType>)
        ensures
            r == trigger_type_of(self.trigger_type@),
    {
        TriggerType::parse(self.trigger_type.as_str())
    }

    /// The configuration a trigger factory takes: the ID, the parsed type and a copy of the
    /// parameters; none when the type name stands for no trigger type.
    pub fn to_trigger_config(&self) -> (r: Option<TriggerConfig>)
        ensures
            match trigger_type_of(self.trigger_type@) {
                Some(t) => r matches Some(c) && c.id@ == self.id@ && c.trigger_type == t && same_yaml(self.params, c.params),
                None => r is None,
            },
    {
        match self.parsed_type() {
            Some(t) => Some(TriggerConfig { id: owned(self.id.as_str()), trigger_type: t, params: self.params.duplicate() }),
            None => None,
        }
    }

    /// The string parameter under `key`.
    pub fn get_string(&self, key: &str) -> (r: Option<&str>)
        ensures
            match string_at(self.params, key@) {
                Some(s) => r matches Some(x) && x@ == s,
                None => r is None,
            },
    {
        match self.params.get(key) {
            Some(v) => v.as_str(),
            None => None,
        }
    }

    /// The integer parameter under `key`.
    pub fn get_i64(&self, key: &str) -> (r: Option<i64>)
        ensures
            r == int_at(self.params, key@),
    {
        match self.params.get(key) {
            Some(v) => v.as_i64(),
            None => None,
        }
    }

    /// The boolean parameter under `key`.
    pub fn get_bool(&self, key: &str) -> (r: Option<bool>)
        ensures
            r == bool_at(self.params, key@),
    {
        match self.params.get(key) {
            Some(v) => v.as_bool(),
            None => None,
        }
    }
}

} // verus!
