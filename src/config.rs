//! Settings of the trade-monitor consumer: push interval and environment
//! selection. Reading the file is the caller's business.
use vstd::prelude::*;
use std::collections::HashMap;
use crate::text::same_text;

verus! {

#[derive(Debug, Clone)]
pub struct TelegramConfig {
    pub token: String,
}

#[derive(Debug, Clone)]
pub struct DefaultSection {
    pub env: String,
}

#[derive(Debug, Clone)]
pub struct TelegramEnvGroup {
    pub prod: TelegramConfig,
    pub test: TelegramConfig,
}

/// The settings file as written.
#[derive(Debug)]
pub struct Config {
    /// "5min", "15min", "1h", "4h", "8h" or "1d".
    pub push_interval: String,
    /// Records kept per watched quantity.
    pub history_max_len: usize,
    /// Watched quantities per symbol.
    pub watched_quantities: HashMap<String, Vec<String>>,
    pub backup_path: String,
    pub telegram: TelegramEnvGroup,
    pub default: DefaultSection,
}

/// The settings with the bot token of the selected environment.
#[derive(Debug)]
pub struct FinalConfig {
    pub env: String,
    pub push_interval: String,
    pub history_max_len: usize,
    pub watched_quantities: HashMap<String, Vec<String>>,
    pub backup_path: String,
    pub telegram: TelegramConfig,
}

/// Why the settings were refused.
#[derive(Debug, Clone, Copy, PartialEq, Eq, Structural)]
pub enum ConfigError {
    /// The environment is neither "prod" nor "test".
    UnknownEnvironment,
}

/// How often summaries are pushed.
#[derive(Debug, Clone, Copy, PartialEq, Eq, Structural)]
pub enum PushInterval {
    Min5,
    Min15,
    Hour1,
    Hour4,
    Hour8,
    Day1,
}

pub open spec fn interval_of(s: Seq<char>) -> Option<PushInterval> {
    if s == "5min"@ {
        Some(PushInterval::Min5)
    } else if s == "15min"@ {
        Some(PushInterval::Min15)
    } else if s == "1h"@ {
        Some(PushInterval::Hour1)
    } else if s == "4h"@ {
        Some(PushInterval::Hour4)
    } else if s == "8h"@ {
        Some(PushInterval::Hour8)
    } else if s == "1d"@ {
        Some(PushInterval::Day1)
    } else {
        None
    }
}

impl PushInterval {
    pub fn from_str(s: &str) -> (r: Option<PushInterval>)
        ensures
            r == interval_of(s@),
    {
        if same_text(s, "5min") {
            Some(PushInterval::Min5)
        } else if same_text(s, "15min") {
            Some(PushInterval::Min15)
        } else if same_text(s, "1h") {
            Some(PushInterval::Hour1)
        } else if same_text(s, "4h") {
            Some(PushInterval::Hour4)
        } else if same_text(s, "8h") {
            Some(PushInterval::Hour8)
        } else if same_text(s, "1d") {
            Some(PushInterval::Day1)
        } else {
            None
        }
    }
}

/// The push interval that the settings name, if it is a known one.
pub fn get_push_interval_enum(config: &FinalConfig) -> (r: Option<PushInterval>)
    ensures
        r == interval_of(config.push_interval@),
{
    PushInterval::from_str(config.push_interval.as_str())
}

impl FinalConfig {
    /// Selects the bot token of the configured environment.
    pub fn from_config(raw: Config) -> (r: Result<FinalConfig, ConfigError>)
        ensures
            raw.default.env@ == "prod"@ ==> (r matches Ok(c) && c.telegram == raw.telegram.prod),
            raw.default.env@ == "test"@ ==> (r matches Ok(c) && c.telegram == raw.telegram.test),
            raw.default.env@ != "prod"@ && raw.default.env@ != "test"@ ==> r == Err::<
                FinalConfig,
                ConfigError,
            >(ConfigError::UnknownEnvironment),
            r matches Ok(c) ==> c.env@ == raw.default.env@ && c.push_interval == raw.push_interval
                && c.history_max_len == raw.history_max_len && c.watched_quantities
                == raw.watched_quantities && c.backup_path == raw.backup_path,
    {
        proof {
            reveal_strlit("prod");
            reveal_strlit("test");
            assert("prod"@[0] != "test"@[0]);
            assert("prod"@ != "test"@);
        }
        let telegram = if same_text(raw.default.env.as_str(), "prod") {
            raw.telegram.prod
        } else if same_text(raw.default.env.as_str(), "test") {
            raw.telegram.test
        } else {
            return Err(ConfigError::UnknownEnvironment);
        };
        Ok(FinalConfig {
            env: raw.default.env,
            push_interval: raw.push_interval,
            history_max_len: raw.history_max_len,
            watched_quantities: raw.watched_quantities,
            backup_path: raw.backup_path,
            telegram,
        })
    }
}

} // verus!
