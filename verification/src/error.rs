//! Errors raised while a game is being assembled from authored data.

use vstd::prelude::*;

verus! {

/// Why a level or an enemy could not be built.
#[derive(Clone, Copy, Debug, PartialEq, Eq, Structural)]
pub enum ConfigError {
    /// The level text has no complete row, or its tiles do not divide evenly
    /// into its rows.
    MalformedLevel,
    /// No enemy definition carries the requested name.
    UnknownEnemy,
    /// An enemy definition names a behaviour that does not exist.
    InvalidStrategy,
    /// An enemy definition has an extent, a speed or a frame list that no
    /// actor can have.
    InvalidDefinition,
    /// The level spans more world than coordinates can address.
    LevelTooLarge,
}

impl ConfigError {
    /// A sentence for the person who authored the data.
    pub fn describe(&self) -> (msg: String)
        ensures
            msg@ == (match *self {
                ConfigError::MalformedLevel => "level rows are missing or uneven"@,
                ConfigError::UnknownEnemy => "unknown enemy name"@,
                ConfigError::InvalidStrategy => "invalid enemy strategy"@,
                ConfigError::InvalidDefinition => "enemy definition out of range"@,
                ConfigError::LevelTooLarge => "level too large"@,
            }),
    {
        match self {
            ConfigError::MalformedLevel => "level rows are missing or uneven".to_owned(),
            ConfigError::UnknownEnemy => "unknown enemy name".to_owned(),
            ConfigError::InvalidStrategy => "invalid enemy strategy".to_owned(),
            ConfigError::InvalidDefinition => "enemy definition out of range".to_owned(),
            ConfigError::LevelTooLarge => "level too large".to_owned(),
        }
    }
}

} // verus!
