//! The part of a configuration that sets up logging.

use vstd::prelude::*;

use crate::config::{member, or_bad, ConfigError, ConfigFile, ConfigValue};

verus! {

/// Sets up process logging from the `logging` section of a configuration.
#[derive(Debug)]
pub struct LoggingConfig;

impl LoggingConfig {
    /// The `logging` section of a configuration, which the logging framework
    /// reads; an error naming `logging` where there is none.
    pub fn logging_section(config: &ConfigFile) -> (r: Result<&ConfigValue, ConfigError>)
        ensures
            match r {
                Ok(v) => *v == or_bad(member(config.root(), "logging"@)) && !(*v is BadValue),
                Err(e) => or_bad(member(config.root(), "logging"@)) is BadValue
                    && (e matches ConfigError::MissingComponent(m) && m@ == "logging"@),
            },
    {
        let section = config.lookup("logging");
        if section.is_badvalue() {
            Err(ConfigError::MissingComponent(String::from_str("logging")))
        } else {
            Ok(section)
        }
    }
}

} // verus!
