//! Configuration values an application hands to the logger.

use vstd::prelude::*;

use crate::severity::Severity;

verus! {

/// The options a configuration file or environment carries for the logger.
#[derive(Clone, Debug)]
pub struct Settings {
    pub colorized: bool,
    pub max_level: SettingsLevel,
    pub target_filters: Vec<String>,
    pub timestamp: bool,
}

/// The level names a configuration speaks in.
#[allow(non_camel_case_types)]
#[derive(Clone, Copy, Debug, PartialEq, Eq, Structural)]
pub enum SettingsLevel {
    DEBUG,
    ERROR,
    INFO,
    TRACE,
    WARNING,
}

impl Default for Settings {
    /// Everything on: colors, timestamps, the `TRACE` threshold, and no
    /// target filters.
    fn default() -> (r: Settings)
        ensures
            r.colorized == true,
            r.timestamp == true,
            r.max_level == SettingsLevel::TRACE,
            r.target_filters@.len() == 0,
    {
        Settings {
            colorized: true,
            max_level: SettingsLevel::TRACE,
            target_filters: Vec::new(),
            timestamp: true,
        }
    }
}

impl From<SettingsLevel> for Severity {
    /// The severity a configured level stands for.
    fn from(level: SettingsLevel) -> (r: Severity) {
        match level {
            SettingsLevel::DEBUG => Severity::Debug,
            SettingsLevel::ERROR => Severity::Error,
            SettingsLevel::INFO => Severity::Info,
            SettingsLevel::TRACE => Severity::Trace,
            SettingsLevel::WARNING => Severity::Warn,
        }
    }
}

impl vstd::std_specs::convert::FromSpecImpl<SettingsLevel> for Severity {
    open spec fn obeys_from_spec() -> bool {
        true
    }

    open spec fn from_spec(level: SettingsLevel) -> Severity {
        match level {
            SettingsLevel::DEBUG => Severity::Debug,
            SettingsLevel::ERROR => Severity::Error,
            SettingsLevel::INFO => Severity::Info,
            SettingsLevel::TRACE => Severity::Trace,
            SettingsLevel::WARNING => Severity::Warn,
        }
    }
}

} // verus!
