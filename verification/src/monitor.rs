//! The monitor setting of a configuration.

use vstd::prelude::*;
use crate::component_config::ComponentConfig;
use crate::value::ValueModel;

verus! {

/// The mathematical content of a [`MonitorConfig`].
pub struct MonitorModel {
    /// The name of the monitor's implementation.
    pub type_: Seq<char>,
    /// The monitor's settings as pairs, where it has any.
    pub config: Option<Seq<(Seq<char>, ValueModel)>>,
}

/// Which monitor watches the tasks, and with which settings.
#[derive(Debug)]
pub struct MonitorConfig {
    type_: String,
    config: Option<ComponentConfig>,
}

impl View for MonitorConfig {
    type V = MonitorModel;

    closed spec fn view(&self) -> MonitorModel {
        MonitorModel {
            type_: self.type_@,
            config: match self.config {
                Some(c) => Some(c.pairs()),
                None => None,
            },
        }
    }
}

impl MonitorConfig {
    /// A monitor setting made of its parts.
    pub fn new(type_: String, config: Option<ComponentConfig>) -> (r: Self)
        ensures
            r@.type_ == type_@,
            r@.config == match config {
                Some(c) => Some(c.pairs()),
                None => None,
            },
    {
        MonitorConfig { type_, config }
    }

    /// The name of the monitor's implementation.
    pub fn get_type(&self) -> (r: &str)
        ensures
            r@ == self@.type_,
    {
        self.type_.as_str()
    }

    /// The monitor's settings, where it has any.
    pub fn get_config(&self) -> (r: Option<&ComponentConfig>)
        ensures
            match r {
                Some(c) => self@.config == Some(c.pairs()),
                None => self@.config is None,
            },
    {
        self.config.as_ref()
    }
}

impl Clone for MonitorConfig {
    fn clone(&self) -> (r: Self)
        ensures
            r@ == self@,
    {
        MonitorConfig {
            type_: self.type_.clone(),
            config: match &self.config {
                Some(c) => Some(c.clone()),
                None => None,
            },
        }
    }
}

impl Default for MonitorConfig {
    fn default() -> (r: Self)
        ensures
            r@ == (MonitorModel { type_: Seq::empty(), config: None }),
    {
        MonitorConfig { type_: String::new(), config: None }
    }
}

} // verus!
