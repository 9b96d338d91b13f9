//! The configuration of a watch, built once from the values of its settings.

use vstd::prelude::*;
use crate::distance::Meters;
use crate::text::{parse_u64, split, split_at_each, texts, unsigned};

verus! {

/// The seconds between two polls where none are configured: one hour.
pub const DEFAULT_SCANNING_INTERVAL: u64 = 3600;

/// What to watch for, and how often.
#[derive(Debug, PartialEq)]
pub struct Config {
    /// The credential of the session that queries the service.
    pub pc_session_id: String,
    /// How far from the reference point a locker group may be to count as
    /// in range; no locker group is in range where this is `None`.
    pub max_distance: Option<Meters>,
    /// The seconds to wait between two polls.
    pub scanning_interval: u64,
    /// The names of the locker groups that count wherever they are; no name
    /// matches where this is `None`.
    pub locker_groups: Option<Vec<String>>,
}

/// The mathematical content of a [`Config`].
pub struct ConfigView {
    pub pc_session_id: Seq<char>,
    pub max_distance: Option<Meters>,
    pub scanning_interval: u64,
    pub locker_groups: Option<Seq<Seq<char>>>,
}

/// The content of a list of names, where there is one.
pub open spec fn name_views(locker_groups: Option<Vec<String>>) -> Option<Seq<Seq<char>>> {
    match locker_groups {
        Some(names) => Some(texts(names@)),
        None => None,
    }
}

impl View for Config {
    type V = ConfigView;

    open spec fn view(&self) -> ConfigView {
        ConfigView {
            pc_session_id: self.pc_session_id@,
            max_distance: self.max_distance,
            scanning_interval: self.scanning_interval,
            locker_groups: name_views(self.locker_groups),
        }
    }
}

/// Why no configuration could be built.
#[derive(Debug, Clone, Copy, PartialEq, Eq, Structural)]
pub enum ConfigError {
    /// The session credential, the one setting without a default, is not set.
    MissingSessionId,
}

/// The interval that the setting `text` asks for: the number it spells, and
/// the default where it is not set or spells none.
pub open spec fn interval_of(text: Option<&str>) -> u64 {
    match text {
        Some(text) => match unsigned(text@) {
            Some(seconds) => seconds,
            None => DEFAULT_SCANNING_INTERVAL,
        },
        None => DEFAULT_SCANNING_INTERVAL,
    }
}

/// The names that the setting `text` lists, separated by commas and taken
/// as they stand: blanks are kept, and so are empty names.
pub open spec fn names_of(text: Option<&str>) -> Option<Seq<Seq<char>>> {
    match text {
        Some(text) => Some(split(text@, ',')),
        None => None,
    }
}

/// The configuration that the four settings give.
pub open spec fn configured(
    pc_session_id: Option<String>,
    max_distance: Option<Meters>,
    locker_groups: Option<&str>,
    scanning_interval: Option<&str>,
) -> Result<ConfigView, ConfigError> {
    match pc_session_id {
        None => Err(ConfigError::MissingSessionId),
        Some(id) => Ok(
            ConfigView {
                pc_session_id: id@,
                max_distance,
                scanning_interval: interval_of(scanning_interval),
                locker_groups: names_of(locker_groups),
            },
        ),
    }
}

/// The content of an attempt to build a configuration.
pub open spec fn config_view(outcome: Result<Config, ConfigError>) -> Result<
    ConfigView,
    ConfigError,
> {
    match outcome {
        Ok(config) => Ok(config@),
        Err(error) => Err(error),
    }
}

impl Config {
    /// Builds the configuration from the values of the settings, each
    /// `None` where it is not set. The distance comes as a number already;
    /// the names and the interval come as text.
    pub fn from_values(
        pc_session_id: Option<String>,
        max_distance: Option<Meters>,
        locker_groups: Option<&str>,
        scanning_interval: Option<&str>,
    ) -> (r: Result<Config, ConfigError>)
        ensures
            config_view(r) == configured(
                pc_session_id,
                max_distance,
                locker_groups,
                scanning_interval,
            ),
    {
        let pc_session_id = match pc_session_id {
            Some(id) => id,
            None => return Err(ConfigError::MissingSessionId),
        };
        let locker_groups = match locker_groups {
            Some(comma_separated) => Some(split_at_each(comma_separated, ',')),
            None => None,
        };
        let scanning_interval = match scanning_interval {
            Some(interval) => match parse_u64(interval) {
                Some(seconds) => seconds,
                None => DEFAULT_SCANNING_INTERVAL,
            },
            None => DEFAULT_SCANNING_INTERVAL,
        };
        Ok(Config { pc_session_id, max_distance, scanning_interval, locker_groups })
    }
}

} // verus!
