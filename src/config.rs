use vstd::prelude::*;

use crate::utils::{valid_extent, SCALE};

verus! {

/// The largest world width or height, in distance units.
pub const MAX_WORLD_UNITS: u32 = 1_000_000;

/// The largest lifespan, in ticks.
pub const MAX_LIFESPAN: u32 = 1_000_000;

/// Tunable parameters of a simulation.
#[derive(Clone, Copy, Debug, PartialEq, Eq, Structural)]
pub struct Config {
    /// World width, in distance units.
    pub width: u32,
    /// World height, in distance units.
    pub height: u32,
    pub max_creatures: usize,
    pub starting_pop: usize,
    /// Screen pixels per distance unit.
    pub resolution: u32,
    /// Ticks an organism lives.
    pub lifespan: u32,
}

/// A parameter that can be changed by name.
#[derive(Clone, Copy, Debug, PartialEq, Eq, Structural)]
pub enum ConfigKey {
    StartingPop,
    Width,
    Height,
    MaxCreatures,
    Resolution,
}

/// Why a parameter change was refused.
#[derive(Clone, Copy, Debug, PartialEq, Eq, Structural)]
pub enum ConfigError {
    /// The value lies outside the range the parameter allows.
    OutOfRange,
}

/// `value` is acceptable for parameter `key`.
pub open spec fn value_allowed(key: ConfigKey, value: u64) -> bool {
    match key {
        ConfigKey::Width | ConfigKey::Height => 0 < value <= MAX_WORLD_UNITS,
        ConfigKey::Resolution => 0 < value <= u32::MAX,
        ConfigKey::StartingPop | ConfigKey::MaxCreatures => value <= usize::MAX,
    }
}

impl Config {
    /// The parameters are in range.
    pub open spec fn wf(self) -> bool {
        0 < self.width <= MAX_WORLD_UNITS && 0 < self.height <= MAX_WORLD_UNITS && 0 < self.resolution
            && self.lifespan <= MAX_LIFESPAN
    }

    /// The world's width in sub-units.
    pub open spec fn extent_x_spec(self) -> u64 {
        (self.width * SCALE) as u64
    }

    /// The world's height in sub-units.
    pub open spec fn extent_y_spec(self) -> u64 {
        (self.height * SCALE) as u64
    }

    /// The default parameters.
    pub fn new() -> (r: Config)
        ensures
            r.width == 250 && r.height == 250 && r.resolution == 4,
            r.starting_pop == 20 && r.max_creatures == 100 && r.lifespan == 150,
            r.wf(),
    {
        Config { width: 250, height: 250, resolution: 4, starting_pop: 20, max_creatures: 100, lifespan: 150 }
    }

    /// The world's width in sub-units.
    pub fn extent_x(&self) -> (r: u64)
        requires
            self.wf(),
        ensures
            r == self.extent_x_spec(),
            valid_extent(r, self.extent_y_spec()),
    {
        self.width as u64 * SCALE
    }

    /// The world's height in sub-units.
    pub fn extent_y(&self) -> (r: u64)
        requires
            self.wf(),
        ensures
            r == self.extent_y_spec(),
            valid_extent(self.extent_x_spec(), r),
    {
        self.height as u64 * SCALE
    }

    /// Sets parameter `key` to `value`, or leaves the parameters unchanged and
    /// reports `OutOfRange` when the value is not allowed for it.
    pub fn set(&mut self, key: ConfigKey, value: u64) -> (r: Result<(), ConfigError>)
        requires
            old(self).wf(),
        ensures
            final(self).wf(),
            r is Err <==> !value_allowed(key, value),
            r is Err ==> *final(self) == *old(self),
            r is Ok ==> *final(self) == match key {
                ConfigKey::StartingPop => Config { starting_pop: value as usize, ..*old(self) },
                ConfigKey::Width => Config { width: value as u32, ..*old(self) },
                ConfigKey::Height => Config { height: value as u32, ..*old(self) },
                ConfigKey::MaxCreatures => Config { max_creatures: value as usize, ..*old(self) },
                ConfigKey::Resolution => Config { resolution: value as u32, ..*old(self) },
            },
    {
        match key {
            ConfigKey::StartingPop => {
                if value > usize::MAX as u64 {
                    return Err(ConfigError::OutOfRange);
                }
                self.starting_pop = value as usize;
            },
            ConfigKey::Width => {
                if value == 0 || value > MAX_WORLD_UNITS as u64 {
                    return Err(ConfigError::OutOfRange);
                }
                self.width = value as u32;
            },
            ConfigKey::Height => {
                if value == 0 || value > MAX_WORLD_UNITS as u64 {
                    return Err(ConfigError::OutOfRange);
                }
                self.height = value as u32;
            },
            ConfigKey::MaxCreatures => {
                if value > usize::MAX as u64 {
                    return Err(ConfigError::OutOfRange);
                }
                self.max_creatures = value as usize;
            },
            ConfigKey::Resolution => {
                if value == 0 || value > u32::MAX as u64 {
                    return Err(ConfigError::OutOfRange);
                }
                self.resolution = value as u32;
            },
        }
        Ok(())
    }
}

} // verus!
