//! A task of the configuration graph.

use vstd::prelude::*;
use crate::component_config::{pairs_map, pairs_set, ComponentConfig};
use crate::value::{FromValue, Value, ValueError, ValueModel};

verus! {

/// The mathematical content of a [`Node`].
pub struct NodeModel {
    /// The identifier that connections name.
    pub id: Seq<char>,
    /// The name of the implementation, where one is set.
    pub type_: Option<Seq<char>>,
    /// The settings as pairs in the order in which their keys were first set.
    pub config: Option<Seq<(Seq<char>, ValueModel)>>,
}

impl NodeModel {
    /// The settings as a mapping; empty where the node has none.
    pub open spec fn params(self) -> Map<Seq<char>, ValueModel> {
        match self.config {
            Some(pairs) => pairs_map(pairs),
            None => Map::empty(),
        }
    }
}

/// A node of the configuration graph: one task of the system.
#[derive(Debug)]
pub struct Node {
    id: String,
    type_: Option<String>,
    config: Option<ComponentConfig>,
}

impl View for Node {
    type V = NodeModel;

    closed spec fn view(&self) -> NodeModel {
        NodeModel {
            id: self.id@,
            type_: match self.type_ {
                Some(t) => Some(t@),
                None => None,
            },
            config: match self.config {
                Some(c) => Some(c.pairs()),
                None => None,
            },
        }
    }
}

impl Node {
    /// A node with an identifier and the name of its implementation, without
    /// settings.
    pub fn new(id: &str, ptype: &str) -> (r: Self)
        ensures
            r@ == (NodeModel { id: id@, type_: Some(ptype@), config: None }),
    {
        Node { id: String::from_str(id), type_: Some(String::from_str(ptype)), config: None }
    }

    /// A node made of its three parts.
    pub fn from_parts(id: String, type_: Option<String>, config: Option<ComponentConfig>) -> (r:
        Self)
        ensures
            r@.id == id@,
            r@.type_ == match type_ {
                Some(t) => Some(t@),
                None => None,
            },
            r@.config == match config {
                Some(c) => Some(c.pairs()),
                None => None,
            },
    {
        Node { id, type_, config }
    }

    /// The node's identifier.
    pub fn get_id(&self) -> (r: String)
        ensures
            r@ == self@.id,
    {
        self.id.clone()
    }

    /// The node's identifier, borrowed.
    pub fn id(&self) -> (r: &str)
        ensures
            r@ == self@.id,
    {
        self.id.as_str()
    }

    /// The same node with another implementation name, or with none.
    pub fn set_type(self, name: Option<String>) -> (r: Self)
        ensures
            r@ == (NodeModel {
                type_: match name {
                    Some(t) => Some(t@),
                    None => None,
                },
                ..self@
            }),
    {
        let mut node = self;
        node.type_ = name;
        node
    }

    /// Whether the node names its implementation.
    pub fn has_type(&self) -> (r: bool)
        ensures
            r == self@.type_ is Some,
    {
        self.type_.is_some()
    }

    /// The name of the node's implementation.
    pub fn get_type(&self) -> (r: &str)
        requires
            self@.type_ is Some,
        ensures
            r@ == self@.type_->Some_0,
    {
        match &self.type_ {
            Some(t) => t.as_str(),
            None => "",
        }
    }

    /// The name of the node's implementation, where one is set.
    pub fn type_or_none(&self) -> (r: Option<&str>)
        ensures
            match r {
                Some(t) => self@.type_ == Some(t@),
                None => self@.type_ is None,
            },
    {
        match &self.type_ {
            Some(t) => Some(t.as_str()),
            None => None,
        }
    }

    /// The node's settings, where it has any.
    pub fn get_instance_config(&self) -> (r: Option<&ComponentConfig>)
        ensures
            match r {
                Some(c) => self@.config == Some(c.pairs()),
                None => self@.config is None,
            },
    {
        self.config.as_ref()
    }

    /// The setting under `key` read as `T`: `None` where the node has no
    /// settings or the key is not set.
    pub fn get_param<T: FromValue>(&self, key: &str) -> (r: Option<Result<T, ValueError>>)
        ensures
            match r {
                Some(read) => self@.params().dom().contains(key@) && T::reads_as(
                    self@.params()[key@],
                    read,
                ),
                None => !self@.params().dom().contains(key@),
            },
    {
        match &self.config {
            Some(c) => c.get::<T>(key),
            None => None,
        }
    }

    /// Sets `key` to `value` in the node's settings, which are created
    /// where the node had none.
    pub fn set_param(&mut self, key: &str, value: Value)
        ensures
            final(self)@.id == old(self)@.id,
            final(self)@.type_ == old(self)@.type_,
            final(self)@.params() == old(self)@.params().insert(key@, value@),
            final(self)@.config == Some(
                pairs_set(
                    match old(self)@.config {
                        Some(pairs) => pairs,
                        None => Seq::empty(),
                    },
                    key@,
                    value@,
                ),
            ),
    {
        let mut config = match self.config.take() {
            Some(c) => c,
            None => ComponentConfig::new(),
        };
        config.set(key, value);
        self.config = Some(config);
    }
}

impl Clone for Node {
    fn clone(&self) -> (r: Self)
        ensures
            r@ == self@,
    {
        Node {
            id: self.id.clone(),
            type_: match &self.type_ {
                Some(t) => Some(t.clone()),
                None => None,
            },
            config: match &self.config {
                Some(c) => Some(c.clone()),
                None => None,
            },
        }
    }
}

} // verus!
