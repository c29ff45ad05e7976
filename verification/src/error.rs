//! What can be wrong with a configuration.

use vstd::prelude::*;
use vstd::string::StringExecFns;
use crate::outside::int_to_string;
use crate::text::int_text;

verus! {

/// A rule of the configuration graph that a configuration breaks.
#[derive(Debug, Clone, Copy, PartialEq, Eq, Structural)]
pub enum ConfigError {
    /// The task at this position has the identifier of an earlier task.
    DuplicateNodeId(usize),
    /// The connection at this position names a source that no task has, or
    /// that is not the task that it leaves.
    UnknownSource(usize),
    /// The connection at this position names a destination that no task
    /// has, or that is not the task that it reaches.
    UnknownDestination(usize),
    /// The connections form a cycle.
    Cycle,
    /// A section is to be larger than the slab that holds it.
    SectionLargerThanSlab { section_size_mib: u64, slab_size_mib: u64 },
}

/// The text of a [`ConfigError`].
pub open spec fn error_text(e: ConfigError) -> Seq<char> {
    match e {
        ConfigError::DuplicateNodeId(i) => "Duplicate node id in task "@ + int_text(i as int),
        ConfigError::UnknownSource(i) => "Source node not found for connection "@ + int_text(
            i as int,
        ),
        ConfigError::UnknownDestination(i) => "Destination node not found for connection "@
            + int_text(i as int),
        ConfigError::Cycle => "The connections form a cycle"@,
        ConfigError::SectionLargerThanSlab { section_size_mib, slab_size_mib } => "Section size ("@
            + int_text(section_size_mib as int) + " MiB) cannot be larger than slab size ("@
            + int_text(slab_size_mib as int) + " MiB). Adjust the parameters accordingly."@,
    }
}

impl ConfigError {
    /// The error as a sentence.
    pub fn message(&self) -> (s: String)
        ensures
            s@ == error_text(*self),
    {
        match self {
            ConfigError::DuplicateNodeId(i) => {
                let mut s = String::from_str("Duplicate node id in task ");
                s.append(int_to_string(*i as i128).as_str());
                s
            },
            ConfigError::UnknownSource(i) => {
                let mut s = String::from_str("Source node not found for connection ");
                s.append(int_to_string(*i as i128).as_str());
                s
            },
            ConfigError::UnknownDestination(i) => {
                let mut s = String::from_str("Destination node not found for connection ");
                s.append(int_to_string(*i as i128).as_str());
                s
            },
            ConfigError::Cycle => String::from_str("The connections form a cycle"),
            ConfigError::SectionLargerThanSlab { section_size_mib, slab_size_mib } => {
                let mut s = String::from_str("Section size (");
                s.append(int_to_string(*section_size_mib as i128).as_str());
                s.append(" MiB) cannot be larger than slab size (");
                s.append(int_to_string(*slab_size_mib as i128).as_str());
                s.append(" MiB). Adjust the parameters accordingly.");
                s
            },
        }
    }
}

} // verus!
