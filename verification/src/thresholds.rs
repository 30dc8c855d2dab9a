//! Settings and the severity bands that follow from them.

use crate::units::MIB;
use vstd::prelude::*;

verus! {

pub const MEMORY_WARN_LOAD: u64 = 70;

pub const MEMORY_CRITICAL_LOAD: u64 = 85;

pub const GPU_WARN_LOAD: u64 = 75;

pub const GPU_CRITICAL_LOAD: u64 = 90;

pub const SWAP_WARN_RATE: u64 = MIB;

pub const SWAP_CRITICAL_RATE: u64 = 16 * MIB;

pub const COMPRESSION_WARN_RATE: u64 = 64 * MIB;

pub const SWAP_WARN_EXIT: u64 = 2 * MIB;

/// The churn that turns paging on; `swap_warn_exit` turns it off.
pub const PAGING_ACTIVE_ENTER_RATE: u64 = 4 * MIB;

/// The load that makes the GPU busy; `gpu_warn_exit` ends it.
pub const GPU_BUSY_ENTER_LOAD: u64 = 80;

pub const COMPRESSION_WARN_EXIT: u64 = 32 * MIB;

pub const GPU_WARN_EXIT: u64 = 70;

pub const INTERVAL_MIN: u64 = 1;

pub const INTERVAL_MAX: u64 = 60;

pub const INTERVAL_DEFAULT: u64 = 1;

pub const HISTORY_MIN: usize = 20;

pub const HISTORY_MAX: usize = 3600;

pub const HISTORY_DEFAULT: usize = 300;

/// The colour that something is shown in.
#[derive(Clone, Copy, Debug, PartialEq, Eq, Structural)]
pub enum Tone {
    Green,
    Yellow,
    Red,
    Cyan,
    Blue,
    Muted,
}

impl Tone {
    pub open spec fn icon_spec(self) -> Seq<char> {
        match self {
            Tone::Green => "✓"@,
            Tone::Yellow => "!"@,
            Tone::Red => "×"@,
            Tone::Cyan | Tone::Blue => "•"@,
            Tone::Muted => "·"@,
        }
    }

    /// The sign that stands for the tone.
    pub fn icon(self) -> (result: &'static str)
        ensures
            result@ == self.icon_spec(),
    {
        match self {
            Tone::Green => "✓",
            Tone::Yellow => "!",
            Tone::Red => "×",
            Tone::Cyan | Tone::Blue => "•",
            Tone::Muted => "·",
        }
    }
}

/// What the settings file may say; each entry may be missing.
#[derive(Clone, Debug, Default, PartialEq)]
pub struct Config {
    pub interval: Option<u64>,
    pub history: Option<usize>,
    pub omx: Option<OmxConfig>,
    pub memory_warn_load: Option<u64>,
    pub memory_critical_load: Option<u64>,
    pub gpu_warn_load: Option<u64>,
    pub gpu_critical_load: Option<u64>,
    pub swap_warn_rate: Option<u64>,
    pub swap_critical_rate: Option<u64>,
    pub compression_warn_rate: Option<u64>,
    pub swap_warn_exit: Option<u64>,
    pub compression_warn_exit: Option<u64>,
    pub gpu_warn_exit: Option<u64>,
}

/// Where the settings file says that the server listens.
#[derive(Clone, Debug, Default, PartialEq)]
pub struct OmxConfig {
    pub host: Option<String>,
    pub port: Option<u16>,
}

pub open spec fn config_interval_spec(config: Config) -> (u64, bool) {
    match config.interval {
        Some(value) => if INTERVAL_MIN <= value && value <= INTERVAL_MAX {
            (value, false)
        } else {
            (INTERVAL_DEFAULT, true)
        },
        None => (INTERVAL_DEFAULT, false),
    }
}

/// The interval that the settings ask for. One that is out of range gives way
/// to the default, and the second value says that it did.
pub fn config_interval(config: &Config) -> (result: (u64, bool))
    ensures
        result == config_interval_spec(*config),
        INTERVAL_MIN <= result.0 <= INTERVAL_MAX,
{
    match config.interval {
        Some(value) => {
            if INTERVAL_MIN <= value && value <= INTERVAL_MAX {
                (value, false)
            } else {
                (INTERVAL_DEFAULT, true)
            }
        },
        None => (INTERVAL_DEFAULT, false),
    }
}

pub open spec fn config_history_spec(config: Config) -> (usize, bool) {
    match config.history {
        Some(value) => if HISTORY_MIN <= value && value <= HISTORY_MAX {
            (value, false)
        } else {
            (HISTORY_DEFAULT, true)
        },
        None => (HISTORY_DEFAULT, false),
    }
}

/// How many samples the settings ask to keep, with the same fallback.
pub fn config_history(config: &Config) -> (result: (usize, bool))
    ensures
        result == config_history_spec(*config),
        HISTORY_MIN <= result.0 <= HISTORY_MAX,
{
    match config.history {
        Some(value) => {
            if HISTORY_MIN <= value && value <= HISTORY_MAX {
                (value, false)
            } else {
                (HISTORY_DEFAULT, true)
            }
        },
        None => (HISTORY_DEFAULT, false),
    }
}

/// The levels at which the monitor warns.
#[derive(Clone, Copy, Debug, PartialEq, Eq, Structural)]
pub struct Thresholds {
    pub memory_warn_load: u64,
    pub memory_critical_load: u64,
    pub gpu_warn_load: u64,
    pub gpu_critical_load: u64,
    pub gpu_warn_exit: u64,
    pub swap_warn_rate: u64,
    pub swap_critical_rate: u64,
    pub swap_warn_exit: u64,
    pub compression_warn_rate: u64,
    pub compression_warn_exit: u64,
}

pub open spec fn least(a: u64, b: u64) -> u64 {
    if a <= b {
        a
    } else {
        b
    }
}

pub open spec fn greatest(a: u64, b: u64) -> u64 {
    if a >= b {
        a
    } else {
        b
    }
}

fn min_of(a: u64, b: u64) -> (result: u64)
    ensures
        result == least(a, b),
{
    if a <= b {
        a
    } else {
        b
    }
}

fn max_of(a: u64, b: u64) -> (result: u64)
    ensures
        result == greatest(a, b),
{
    if a >= b {
        a
    } else {
        b
    }
}

pub open spec fn value_or(value: Option<u64>, default: u64) -> u64 {
    match value {
        Some(value) => value,
        None => default,
    }
}

impl Default for Thresholds {
    fn default() -> (result: Self)
        ensures
            result == Thresholds::default_spec(),
    {
        Thresholds {
            memory_warn_load: MEMORY_WARN_LOAD,
            memory_critical_load: MEMORY_CRITICAL_LOAD,
            gpu_warn_load: GPU_WARN_LOAD,
            gpu_critical_load: GPU_CRITICAL_LOAD,
            gpu_warn_exit: GPU_WARN_EXIT,
            swap_warn_rate: SWAP_WARN_RATE,
            swap_critical_rate: SWAP_CRITICAL_RATE,
            swap_warn_exit: SWAP_WARN_EXIT,
            compression_warn_rate: COMPRESSION_WARN_RATE,
            compression_warn_exit: COMPRESSION_WARN_EXIT,
        }
    }
}

impl Thresholds {
    pub open spec fn default_spec() -> Thresholds {
        Thresholds {
            memory_warn_load: MEMORY_WARN_LOAD,
            memory_critical_load: MEMORY_CRITICAL_LOAD,
            gpu_warn_load: GPU_WARN_LOAD,
            gpu_critical_load: GPU_CRITICAL_LOAD,
            gpu_warn_exit: GPU_WARN_EXIT,
            swap_warn_rate: SWAP_WARN_RATE,
            swap_critical_rate: SWAP_CRITICAL_RATE,
            swap_warn_exit: SWAP_WARN_EXIT,
            compression_warn_rate: COMPRESSION_WARN_RATE,
            compression_warn_exit: COMPRESSION_WARN_EXIT,
        }
    }

    /// The levels that the settings name, and the built-in ones for the rest.
    pub open spec fn configured(config: Config) -> Thresholds {
        let d = Thresholds::default_spec();
        Thresholds {
            memory_warn_load: value_or(config.memory_warn_load, d.memory_warn_load),
            memory_critical_load: value_or(config.memory_critical_load, d.memory_critical_load),
            gpu_warn_load: value_or(config.gpu_warn_load, d.gpu_warn_load),
            gpu_critical_load: value_or(config.gpu_critical_load, d.gpu_critical_load),
            gpu_warn_exit: value_or(config.gpu_warn_exit, d.gpu_warn_exit),
            swap_warn_rate: value_or(config.swap_warn_rate, d.swap_warn_rate),
            swap_critical_rate: value_or(config.swap_critical_rate, d.swap_critical_rate),
            swap_warn_exit: value_or(config.swap_warn_exit, d.swap_warn_exit),
            compression_warn_rate: value_or(config.compression_warn_rate, d.compression_warn_rate),
            compression_warn_exit: value_or(config.compression_warn_exit, d.compression_warn_exit),
        }
    }

    /// Bands that can be told apart: percentages reach 100 at most, no critical
    /// level lies below its warning, and no state is left at a level above the
    /// one that it is entered at.
    pub open spec fn usable(self) -> bool {
        &&& self.memory_warn_load <= self.memory_critical_load <= 100
        &&& self.gpu_warn_load <= self.gpu_critical_load <= 100
        &&& self.gpu_warn_exit <= GPU_BUSY_ENTER_LOAD
        &&& self.swap_warn_rate <= self.swap_critical_rate
        &&& self.swap_warn_exit <= PAGING_ACTIVE_ENTER_RATE
        &&& self.compression_warn_exit <= self.compression_warn_rate
    }

    /// The nearest usable bands.
    pub open spec fn normalized_spec(self) -> Thresholds {
        let memory_warn_load = least(self.memory_warn_load, 100);
        let gpu_warn_load = least(self.gpu_warn_load, 100);
        Thresholds {
            memory_warn_load,
            memory_critical_load: greatest(least(self.memory_critical_load, 100), memory_warn_load),
            gpu_warn_load,
            gpu_critical_load: greatest(least(self.gpu_critical_load, 100), gpu_warn_load),
            gpu_warn_exit: least(self.gpu_warn_exit, GPU_BUSY_ENTER_LOAD),
            swap_critical_rate: greatest(self.swap_critical_rate, self.swap_warn_rate),
            swap_warn_exit: least(self.swap_warn_exit, PAGING_ACTIVE_ENTER_RATE),
            compression_warn_exit: least(self.compression_warn_exit, self.compression_warn_rate),
            ..self
        }
    }

    /// The levels for one run.
    pub fn from_config(config: &Config) -> (result: Thresholds)
        ensures
            result == Thresholds::configured(*config).normalized_spec(),
            result.usable(),
    {
        Thresholds {
            memory_warn_load: config.memory_warn_load.unwrap_or(MEMORY_WARN_LOAD),
            memory_critical_load: config.memory_critical_load.unwrap_or(MEMORY_CRITICAL_LOAD),
            gpu_warn_load: config.gpu_warn_load.unwrap_or(GPU_WARN_LOAD),
            gpu_critical_load: config.gpu_critical_load.unwrap_or(GPU_CRITICAL_LOAD),
            gpu_warn_exit: config.gpu_warn_exit.unwrap_or(GPU_WARN_EXIT),
            swap_warn_rate: config.swap_warn_rate.unwrap_or(SWAP_WARN_RATE),
            swap_critical_rate: config.swap_critical_rate.unwrap_or(SWAP_CRITICAL_RATE),
            swap_warn_exit: config.swap_warn_exit.unwrap_or(SWAP_WARN_EXIT),
            compression_warn_rate: config.compression_warn_rate.unwrap_or(COMPRESSION_WARN_RATE),
            compression_warn_exit: config.compression_warn_exit.unwrap_or(COMPRESSION_WARN_EXIT),
        }.normalized()
    }

    /// Keeps the bands usable whatever the settings say. What is out of range
    /// is moved into it, so that no stray value removes a band.
    pub fn normalized(self) -> (result: Thresholds)
        ensures
            result == self.normalized_spec(),
            result.usable(),
    {
        let memory_warn_load: u64 = min_of(self.memory_warn_load, 100);
        let gpu_warn_load: u64 = min_of(self.gpu_warn_load, 100);
        Thresholds {
            memory_warn_load,
            memory_critical_load: max_of(min_of(self.memory_critical_load, 100), memory_warn_load),
            gpu_warn_load,
            gpu_critical_load: max_of(min_of(self.gpu_critical_load, 100), gpu_warn_load),
            gpu_warn_exit: min_of(self.gpu_warn_exit, GPU_BUSY_ENTER_LOAD),
            swap_warn_rate: self.swap_warn_rate,
            swap_critical_rate: max_of(self.swap_critical_rate, self.swap_warn_rate),
            swap_warn_exit: min_of(self.swap_warn_exit, PAGING_ACTIVE_ENTER_RATE),
            compression_warn_rate: self.compression_warn_rate,
            compression_warn_exit: min_of(self.compression_warn_exit, self.compression_warn_rate),
        }
    }
}

/// Usable bands stay as they are, so normalizing twice is normalizing once.
pub proof fn normalizing_keeps_usable_bands(thresholds: Thresholds)
    ensures
        thresholds.usable() ==> thresholds.normalized_spec() == thresholds,
        thresholds.normalized_spec().normalized_spec() == thresholds.normalized_spec(),
{
}

/// The band of a load: what reaches the critical level is red, what reaches
/// the warning is yellow.
pub open spec fn load_tone_spec(value: u64, warn: u64, critical: u64) -> Tone {
    if value >= critical {
        Tone::Red
    } else if value >= warn {
        Tone::Yellow
    } else {
        Tone::Green
    }
}

/// The band of a load.
pub fn load_tone(value: u64, warn: u64, critical: u64) -> (result: Tone)
    ensures
        result == load_tone_spec(value, warn, critical),
{
    if value >= critical {
        Tone::Red
    } else if value >= warn {
        Tone::Yellow
    } else {
        Tone::Green
    }
}

pub open spec fn held(value: u64, was_active: bool, enter: u64, exit: u64) -> bool {
    value >= (if was_active {
        exit
    } else {
        enter
    })
}

/// Whether a state holds that is entered at one level and left below another.
pub fn threshold_with_hysteresis(value: u64, was_active: bool, enter: u64, exit: u64) -> (result:
    bool)
    ensures
        result == held(value, was_active, enter, exit),
{
    value >= if was_active {
        exit
    } else {
        enter
    }
}

/// Between the two levels a state stays as it was; at the upper level it is on
/// and below the lower one it is off, whatever it was.
pub proof fn hysteresis_has_a_recovery_band(value: u64, was_active: bool, enter: u64, exit: u64)
    requires
        exit <= enter,
    ensures
        exit <= value < enter ==> held(value, was_active, enter, exit) == was_active,
        value >= enter ==> held(value, was_active, enter, exit),
        value < exit ==> !held(value, was_active, enter, exit),
{
}

/// A level that the settings name is the one that is used, and the level of no
/// other name; one that they do not name is the usual one.
pub proof fn settings_set_their_own_levels(config: Config)
    ensures
        ({
            let set = Thresholds::configured(config);
            &&& config.memory_warn_load is Some ==> set.memory_warn_load == config.memory_warn_load.unwrap()
            &&& config.memory_warn_load is None ==> set.memory_warn_load == 70
            &&& config.memory_critical_load is Some ==> set.memory_critical_load == config.memory_critical_load.unwrap()
            &&& config.memory_critical_load is None ==> set.memory_critical_load == 85
            &&& config.gpu_warn_load is Some ==> set.gpu_warn_load == config.gpu_warn_load.unwrap()
            &&& config.gpu_warn_load is None ==> set.gpu_warn_load == 75
            &&& config.gpu_critical_load is Some ==> set.gpu_critical_load == config.gpu_critical_load.unwrap()
            &&& config.gpu_critical_load is None ==> set.gpu_critical_load == 90
            &&& config.gpu_warn_exit is Some ==> set.gpu_warn_exit == config.gpu_warn_exit.unwrap()
            &&& config.gpu_warn_exit is None ==> set.gpu_warn_exit == 70
            &&& config.swap_warn_rate is Some ==> set.swap_warn_rate == config.swap_warn_rate.unwrap()
            &&& config.swap_warn_rate is None ==> set.swap_warn_rate == 1024 * 1024
            &&& config.swap_critical_rate is Some ==> set.swap_critical_rate == config.swap_critical_rate.unwrap()
            &&& config.swap_critical_rate is None ==> set.swap_critical_rate == 16 * 1024 * 1024
            &&& config.swap_warn_exit is Some ==> set.swap_warn_exit == config.swap_warn_exit.unwrap()
            &&& config.swap_warn_exit is None ==> set.swap_warn_exit == 2 * 1024 * 1024
            &&& config.compression_warn_rate is Some ==> set.compression_warn_rate == config.compression_warn_rate.unwrap()
            &&& config.compression_warn_rate is None ==> set.compression_warn_rate == 64 * 1024 * 1024
            &&& config.compression_warn_exit is Some ==> set.compression_warn_exit == config.compression_warn_exit.unwrap()
            &&& config.compression_warn_exit is None ==> set.compression_warn_exit == 32 * 1024 * 1024
        }),
{
}

/// Levels that make no band are brought into one: a load is no more than a
/// hundred per cent, a critical level no lower than its warning, and a level at
/// which a state is left no higher than the one at which it is entered. A warning
/// that fits stays.
pub proof fn levels_are_brought_into_bands(thresholds: Thresholds)
    ensures
        thresholds.normalized_spec().usable(),
        thresholds.normalized_spec().swap_warn_rate == thresholds.swap_warn_rate,
        thresholds.normalized_spec().compression_warn_rate == thresholds.compression_warn_rate,
        thresholds.memory_warn_load <= 100 ==> thresholds.normalized_spec().memory_warn_load
            == thresholds.memory_warn_load,
        thresholds.gpu_warn_load <= 100 ==> thresholds.normalized_spec().gpu_warn_load
            == thresholds.gpu_warn_load,
        thresholds.swap_critical_rate >= thresholds.swap_warn_rate
            ==> thresholds.normalized_spec().swap_critical_rate == thresholds.swap_critical_rate,
        thresholds.swap_critical_rate < thresholds.swap_warn_rate
            ==> thresholds.normalized_spec().swap_critical_rate == thresholds.swap_warn_rate,
        thresholds.memory_critical_load < thresholds.memory_warn_load <= 100
            ==> thresholds.normalized_spec().memory_critical_load == thresholds.memory_warn_load,
        thresholds.gpu_critical_load < thresholds.gpu_warn_load <= 100
            ==> thresholds.normalized_spec().gpu_critical_load == thresholds.gpu_warn_load,
        thresholds.swap_warn_exit > 4 * 1024 * 1024 ==> thresholds.normalized_spec().swap_warn_exit
            == 4 * 1024 * 1024,
        thresholds.gpu_warn_exit > 80 ==> thresholds.normalized_spec().gpu_warn_exit == 80,
        thresholds.compression_warn_exit > thresholds.compression_warn_rate
            ==> thresholds.normalized_spec().compression_warn_exit
            == thresholds.compression_warn_rate,
{
}

/// A larger load is never shown in a calmer tone.
pub proof fn larger_loads_are_graver(a: u64, b: u64, warn: u64, critical: u64)
    requires
        a <= b,
        warn <= critical,
    ensures
        load_tone_spec(a, warn, critical) == Tone::Red ==> load_tone_spec(b, warn, critical)
            == Tone::Red,
        load_tone_spec(b, warn, critical) == Tone::Green ==> load_tone_spec(a, warn, critical)
            == Tone::Green,
        load_tone_spec(critical, warn, critical) == Tone::Red,
        warn < critical ==> load_tone_spec(warn, warn, critical) == Tone::Yellow,
        a < warn ==> load_tone_spec(a, warn, critical) == Tone::Green,
{
}


/// An interval or a history out of its range is not taken, and is told of; one in
/// its range is. Without either, the usual one is taken and nothing told. Neither
/// depends on the other.
pub proof fn settings_out_of_range_are_told_of(config: Config, other: Config)
    ensures
        config.interval matches Some(n) ==> (1 <= n <= 60 ==> config_interval_spec(config) == (
            n,
            false,
        )) && (n < 1 || n > 60 ==> config_interval_spec(config) == (1u64, true)),
        config.interval is None ==> config_interval_spec(config) == (1u64, false),
        config.history matches Some(n) ==> (20 <= n <= 3600 ==> config_history_spec(config) == (
            n,
            false,
        )) && (n < 20 || n > 3600 ==> config_history_spec(config) == (300usize, true)),
        config.history is None ==> config_history_spec(config) == (300usize, false),
        config.interval == other.interval ==> config_interval_spec(config)
            == config_interval_spec(other),
        config.history == other.history ==> config_history_spec(config) == config_history_spec(
            other,
        ),
{
}
} // verus!
