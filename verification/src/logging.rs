//! The logging setting of a configuration.

use vstd::prelude::*;
use crate::error::ConfigError;

verus! {

/// The value of a boolean setting that the configuration leaves out and that
/// is on unless switched off.
pub fn default_as_true() -> (r: bool)
    ensures
        r,
{
    true
}

/// How much room the log takes, and whether tasks log.
#[derive(Debug, Clone, Copy, PartialEq, Eq, Structural)]
pub struct LoggingConfig {
    /// The size of one slab of the log, in MiB.
    pub slab_size_mib: Option<u64>,
    /// The size that is set aside for one section of a slab, in MiB.
    pub section_size_mib: Option<u64>,
    /// Whether the tasks' messages are logged.
    pub enable_task_logging: bool,
}

impl LoggingConfig {
    /// Whether a section fits in a slab, where both sizes are set.
    pub open spec fn section_fits(self) -> bool {
        self.section_size_mib is Some && self.slab_size_mib is Some
            ==> self.section_size_mib->Some_0 <= self.slab_size_mib->Some_0
    }

    /// Accepts the setting when a section fits in a slab, and says which
    /// sizes clash when it does not.
    pub fn validate(&self) -> (r: Result<(), ConfigError>)
        ensures
            r is Ok <==> self.section_fits(),
            r matches Err(e) ==> e == (ConfigError::SectionLargerThanSlab {
                section_size_mib: self.section_size_mib->Some_0,
                slab_size_mib: self.slab_size_mib->Some_0,
            }),
    {
        if let Some(section_size_mib) = self.section_size_mib {
            if let Some(slab_size_mib) = self.slab_size_mib {
                if section_size_mib > slab_size_mib {
                    return Err(
                        ConfigError::SectionLargerThanSlab { section_size_mib, slab_size_mib },
                    );
                }
            }
        }
        Ok(())
    }
}

impl Default for LoggingConfig {
    fn default() -> (r: Self)
        ensures
            r == (LoggingConfig {
                slab_size_mib: None,
                section_size_mib: None,
                enable_task_logging: false,
            }),
    {
        LoggingConfig { slab_size_mib: None, section_size_mib: None, enable_task_logging: false }
    }
}

} // verus!
