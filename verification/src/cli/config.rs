//! The configuration. Every key is optional and has a default.

use vstd::prelude::*;
use vstd::std_specs::cmp::PartialEqSpec;

use crate::binary64;
use crate::text::same_text;

verus! {

/// The bits of 5.0, the share of a vCPU in percent below which a sample is quiet by default.
pub const DEFAULT_CPU_PCT: u64 = 0x4014_0000_0000_0000;

/// The configuration.
#[derive(Clone, Debug)]
pub struct Config {
    /// Where the directories of the VMs lie.
    pub state_dir: String,
    /// When a VM counts as quiescent.
    pub quiescence: Quiescence,
    /// How VMs are migrated.
    pub migration: Migration,
}

/// When a VM counts as quiescent. Percentages are compared as numbers.
#[derive(Clone, Copy, Debug)]
pub struct Quiescence {
    /// The share of a vCPU in percent below which a sample is quiet, as the bits of a number.
    pub cpu_pct: u64,
    /// How many samples in a row must be quiet.
    pub samples: usize,
    /// How many milliseconds lie between samples.
    pub sample_interval_ms: u64,
}

/// How VMs are migrated.
#[derive(Clone, Copy, Debug, PartialEq, Eq, Structural)]
pub struct Migration {
    /// How many milliseconds a turn in flight has before a drain is called off.
    pub drain_deadline_ms: u64,
}

impl PartialEq for Quiescence {
    fn eq(&self, other: &Quiescence) -> (same: bool) {
        binary64::equals(self.cpu_pct, other.cpu_pct) && self.samples == other.samples
            && self.sample_interval_ms == other.sample_interval_ms
    }
}

impl vstd::std_specs::cmp::PartialEqSpecImpl for Quiescence {
    open spec fn obeys_eq_spec() -> bool {
        true
    }

    open spec fn eq_spec(&self, other: &Quiescence) -> bool {
        &&& binary64::equal(self.cpu_pct, other.cpu_pct)
        &&& self.samples == other.samples
        &&& self.sample_interval_ms == other.sample_interval_ms
    }
}

impl PartialEq for Config {
    fn eq(&self, other: &Config) -> (same: bool) {
        same_text(&self.state_dir, &other.state_dir) && self.quiescence == other.quiescence
            && self.migration == other.migration
    }
}

impl vstd::std_specs::cmp::PartialEqSpecImpl for Config {
    open spec fn obeys_eq_spec() -> bool {
        true
    }

    open spec fn eq_spec(&self, other: &Config) -> bool {
        &&& self.state_dir@ == other.state_dir@
        &&& binary64::equal(self.quiescence.cpu_pct, other.quiescence.cpu_pct)
        &&& self.quiescence.samples == other.quiescence.samples
        &&& self.quiescence.sample_interval_ms == other.quiescence.sample_interval_ms
        &&& self.migration == other.migration
    }
}

/// The keys that a configuration file sets.
#[derive(Debug)]
pub struct ConfigKeys {
    /// `state_dir`.
    pub state_dir: Option<String>,
    /// `quiescence.cpu_pct`, as the bits of a number.
    pub cpu_pct: Option<u64>,
    /// `quiescence.samples`.
    pub samples: Option<usize>,
    /// `quiescence.sample_interval_ms`.
    pub sample_interval_ms: Option<u64>,
    /// `migration.drain_deadline_ms`.
    pub drain_deadline_ms: Option<u64>,
}

/// Why there is no configuration.
#[derive(Debug, PartialEq, Eq)]
pub enum ConfigError {
    /// The file could not be read.
    Read {
        /// The file.
        path: String,
        /// What went wrong.
        source: String,
    },
    /// The file does not say a configuration: it is not TOML, or has a key that there is not.
    Parse {
        /// The file.
        path: String,
        /// What went wrong.
        source: String,
    },
}

/// What reading a configuration file brought.
#[derive(Debug)]
pub enum ConfigFile {
    /// There is no such file.
    Missing,
    /// It could not be read, for this reason.
    Unreadable(String),
    /// It does not say a configuration, for this reason.
    Malformed(String),
    /// It sets these keys.
    Keys(ConfigKeys),
}

/// The value of a key, or its default.
pub open spec fn value_or<T>(key: Option<T>, default: T) -> T {
    match key {
        Some(value) => value,
        None => default,
    }
}

impl Default for Quiescence {
    fn default() -> (q: Quiescence)
        ensures
            q == (Quiescence {
                cpu_pct: DEFAULT_CPU_PCT,
                samples: 5,
                sample_interval_ms: 200,
            }),
    {
        Quiescence { cpu_pct: DEFAULT_CPU_PCT, samples: 5, sample_interval_ms: 200 }
    }
}

impl Default for Migration {
    fn default() -> (m: Migration)
        ensures
            m.drain_deadline_ms == 5000,
    {
        Migration { drain_deadline_ms: 5000 }
    }
}

impl Default for Config {
    fn default() -> (c: Config)
        ensures
            c.is_default(),
    {
        Config {
            state_dir: "/var/lib/sleepwalk".to_owned(),
            quiescence: Quiescence {
                cpu_pct: DEFAULT_CPU_PCT,
                samples: 5,
                sample_interval_ms: 200,
            },
            migration: Migration { drain_deadline_ms: 5000 },
        }
    }
}

impl Config {
    /// Whether every key has its default.
    pub open spec fn is_default(&self) -> bool {
        &&& self.state_dir@ == "/var/lib/sleepwalk"@
        &&& self.quiescence == (Quiescence {
            cpu_pct: DEFAULT_CPU_PCT,
            samples: 5,
            sample_interval_ms: 200,
        })
        &&& self.migration.drain_deadline_ms == 5000
    }

    /// Whether every key has the value that `keys` set, or its default.
    pub open spec fn follows(&self, keys: ConfigKeys) -> bool {
        &&& self.state_dir@ == match keys.state_dir {
            Some(dir) => dir@,
            None => "/var/lib/sleepwalk"@,
        }
        &&& self.quiescence.cpu_pct == value_or(keys.cpu_pct, DEFAULT_CPU_PCT)
        &&& self.quiescence.samples == value_or(keys.samples, 5)
        &&& self.quiescence.sample_interval_ms == value_or(keys.sample_interval_ms, 200)
        &&& self.migration.drain_deadline_ms == value_or(keys.drain_deadline_ms, 5000)
    }

    /// The configuration of a file that sets `keys`.
    pub fn from_keys(keys: ConfigKeys) -> (c: Config)
        ensures
            c.follows(keys),
    {
        Config {
            state_dir: match keys.state_dir {
                Some(dir) => dir,
                None => "/var/lib/sleepwalk".to_owned(),
            },
            quiescence: Quiescence {
                cpu_pct: keys.cpu_pct.unwrap_or(DEFAULT_CPU_PCT),
                samples: keys.samples.unwrap_or(5),
                sample_interval_ms: keys.sample_interval_ms.unwrap_or(200),
            },
            migration: Migration { drain_deadline_ms: keys.drain_deadline_ms.unwrap_or(5000) },
        }
    }

    /// The configuration that reading the file at `path` brought: the defaults where there is none,
    /// an error where it is there and no good.
    pub fn load(path: &str, file: ConfigFile) -> (r: Result<Config, ConfigError>)
        ensures
            match file {
                ConfigFile::Missing => r matches Ok(c) && c.is_default(),
                ConfigFile::Unreadable(why) => r matches Err(ConfigError::Read { path: p, source })
                    && p@ == path@ && source == why,
                ConfigFile::Malformed(why) => r matches Err(ConfigError::Parse { path: p, source })
                    && p@ == path@ && source == why,
                ConfigFile::Keys(keys) => r matches Ok(c) && c.follows(keys),
            },
    {
        match file {
            ConfigFile::Missing => Ok(Config::default()),
            ConfigFile::Unreadable(source) => Err(
                ConfigError::Read { path: path.to_owned(), source },
            ),
            ConfigFile::Malformed(source) => Err(
                ConfigError::Parse { path: path.to_owned(), source },
            ),
            ConfigFile::Keys(keys) => Ok(Config::from_keys(keys)),
        }
    }
}

/// A file that sets nothing says the defaults.
pub proof fn law_empty_file_is_all_defaults(keys: ConfigKeys, c: Config)
    requires
        keys.state_dir is None,
        keys.cpu_pct is None,
        keys.samples is None,
        keys.sample_interval_ms is None,
        keys.drain_deadline_ms is None,
        c.follows(keys),
    ensures
        c.is_default(),
{
}

/// What a file says counts, key by key, whatever its other keys say; what it does not say is the
/// default.
pub proof fn law_given_keys_count(keys: ConfigKeys, c: Config, default: Config)
    requires
        c.follows(keys),
        default.is_default(),
    ensures
        keys.state_dir matches Some(dir) ==> c.state_dir@ == dir@,
        keys.cpu_pct matches Some(n) ==> c.quiescence.cpu_pct == n,
        keys.samples matches Some(n) ==> c.quiescence.samples == n,
        keys.sample_interval_ms matches Some(n) ==> c.quiescence.sample_interval_ms == n,
        keys.drain_deadline_ms matches Some(n) ==> c.migration.drain_deadline_ms == n,
        keys.state_dir is None ==> c.state_dir@ == default.state_dir@,
        keys.cpu_pct is None ==> c.quiescence.cpu_pct == default.quiescence.cpu_pct,
        keys.samples is None ==> c.quiescence.samples == default.quiescence.samples,
        keys.sample_interval_ms is None ==> c.quiescence.sample_interval_ms
            == default.quiescence.sample_interval_ms,
        keys.drain_deadline_ms is None ==> c.migration.drain_deadline_ms
            == default.migration.drain_deadline_ms,
{
}

/// Two configurations are equal where every setting of theirs is, and nowhere else.
pub proof fn law_equal_in_every_setting(a: Config, b: Config)
    ensures
        a.eq_spec(&b) <==> {
            &&& a.state_dir@ == b.state_dir@
            &&& binary64::equal(a.quiescence.cpu_pct, b.quiescence.cpu_pct)
            &&& a.quiescence.samples == b.quiescence.samples
            &&& a.quiescence.sample_interval_ms == b.quiescence.sample_interval_ms
            &&& a.migration.drain_deadline_ms == b.migration.drain_deadline_ms
        },
        a.quiescence.eq_spec(&b.quiescence) <==> {
            &&& binary64::equal(a.quiescence.cpu_pct, b.quiescence.cpu_pct)
            &&& a.quiescence.samples == b.quiescence.samples
            &&& a.quiescence.sample_interval_ms == b.quiescence.sample_interval_ms
        },
{
}

} // verus!
