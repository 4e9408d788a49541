//! The settings that the bot runs on, read once and checked as a whole.

use crate::decimal::{number_of, Decimal, Number};
use crate::integer::{integer_value, natural_value, parse_below, parse_i64};
use crate::schedule::{DEFAULT_REPORT_HOUR, MONITOR_INTERVAL};
use vstd::prelude::*;

verus! {

/// The settings by name.
#[derive(Clone, Copy, Debug, PartialEq, Eq, Structural)]
pub enum Setting {
    /// The account whose balances are asked for. Required.
    TenantId,
    /// The hour of the day, 0 to 23, at which the report goes out.
    ReportHour,
    /// The chat that gets reports and warnings. Required.
    TargetChatId,
    /// The balance under which a warning goes out.
    WarningThreshold,
}

/// Why the settings make no configuration.
#[derive(Clone, Copy, Debug, PartialEq, Eq, Structural)]
pub enum ConfigError {
    /// A required setting is not there.
    Missing(Setting),
    /// A setting is there and cannot be read.
    Invalid(Setting),
}

/// The name under which a setting is looked up in the environment.
pub open spec fn setting_key(setting: Setting) -> Seq<char> {
    match setting {
        Setting::TenantId => "TENID"@,
        Setting::ReportHour => "HOUR"@,
        Setting::TargetChatId => "CHAT_ID"@,
        Setting::WarningThreshold => "WARN_DIANFEI"@,
    }
}

/// What is said of an error: what is wrong, and the key of the setting.
pub open spec fn error_text(error: ConfigError) -> Seq<char> {
    match error {
        ConfigError::Missing(setting) => "missing setting "@ + setting_key(setting),
        ConfigError::Invalid(setting) => "invalid value for setting "@ + setting_key(setting),
    }
}

impl Setting {
    /// The name under which the setting is looked up in the environment.
    pub fn key(&self) -> (key: &'static str)
        ensures
            key@ == setting_key(*self),
    {
        match self {
            Setting::TenantId => "TENID",
            Setting::ReportHour => "HOUR",
            Setting::TargetChatId => "CHAT_ID",
            Setting::WarningThreshold => "WARN_DIANFEI",
        }
    }
}

impl ConfigError {
    /// The setting that the error is about.
    pub fn setting(&self) -> (setting: Setting)
        ensures
            *self == ConfigError::Missing(setting) || *self == ConfigError::Invalid(setting),
    {
        match self {
            ConfigError::Missing(setting) => *setting,
            ConfigError::Invalid(setting) => *setting,
        }
    }

    /// A line for the operator that names the setting at fault.
    pub fn describe(&self) -> (text: String)
        ensures
            text@ == error_text(*self),
    {
        match self {
            ConfigError::Missing(setting) => {
                let mut text = String::from_str("missing setting ");
                text.append(setting.key());
                text
            },
            ConfigError::Invalid(setting) => {
                let mut text = String::from_str("invalid value for setting ");
                text.append(setting.key());
                text
            },
        }
    }
}

/// The settings as they were found, each as text or absent.
pub struct Settings {
    pub tenant_id: Option<String>,
    pub report_hour: Option<String>,
    pub target_chat_id: Option<String>,
    pub warning_threshold: Option<String>,
}

/// What [`Settings`] hold, as plain values.
pub struct SettingsView {
    pub tenant_id: Option<Seq<char>>,
    pub report_hour: Option<Seq<char>>,
    pub target_chat_id: Option<Seq<char>>,
    pub warning_threshold: Option<Seq<char>>,
}

/// The text of a setting, if it is there.
pub open spec fn text_of(setting: Option<String>) -> Option<Seq<char>> {
    match setting {
        Some(text) => Some(text@),
        None => None,
    }
}

impl View for Settings {
    type V = SettingsView;

    open spec fn view(&self) -> SettingsView {
        SettingsView {
            tenant_id: text_of(self.tenant_id),
            report_hour: text_of(self.report_hour),
            target_chat_id: text_of(self.target_chat_id),
            warning_threshold: text_of(self.warning_threshold),
        }
    }
}

/// What a [`Config`] holds, as plain values.
pub struct ConfigView {
    pub tenant_id: Seq<char>,
    pub report_hour: u8,
    pub target_chat_id: i64,
    pub warning_threshold: Number,
    /// Seconds between two cycles of the monitor.
    pub monitor_interval: u64,
}

impl ConfigView {
    /// The hour is an hour of the day and the threshold is a number.
    pub open spec fn wf(self) -> bool {
        &&& self.report_hour < 24
        &&& self.warning_threshold.wf()
    }
}

/// The threshold that holds where none is set: thirty.
pub open spec fn default_threshold() -> Number {
    Number { negative: false, digits: seq![3u8, 0u8], scale: 0 }
}

/// The hour that `text` sets: a natural number below 24.
pub open spec fn hour_of(text: Seq<char>) -> Option<u8> {
    match natural_value(text) {
        Some(hour) => if hour < 24 {
            Some(hour as u8)
        } else {
            None
        },
        None => None,
    }
}

/// The chat that `text` names: a whole number that fits 64 bits.
pub open spec fn chat_of(text: Seq<char>) -> Option<i64> {
    match integer_value(text) {
        Some(id) => if i64::MIN <= id <= i64::MAX {
            Some(id as i64)
        } else {
            None
        },
        None => None,
    }
}

/// The configuration that the settings make, or the first thing wrong with
/// them, taken in the order tenant, hour, chat, threshold. The tenant and
/// the chat must be there; the hour is 7 and the threshold 30 where they
/// are not. The tenant's identifier is taken as it is, even where empty.
pub open spec fn configure(settings: SettingsView) -> Result<ConfigView, ConfigError> {
    if settings.tenant_id is None {
        Err(ConfigError::Missing(Setting::TenantId))
    } else if settings.report_hour is Some && hour_of(settings.report_hour->Some_0) is None {
        Err(ConfigError::Invalid(Setting::ReportHour))
    } else if settings.target_chat_id is None {
        Err(ConfigError::Missing(Setting::TargetChatId))
    } else if chat_of(settings.target_chat_id->Some_0) is None {
        Err(ConfigError::Invalid(Setting::TargetChatId))
    } else if settings.warning_threshold is Some && number_of(
        settings.warning_threshold->Some_0,
    ) is None {
        Err(ConfigError::Invalid(Setting::WarningThreshold))
    } else {
        Ok(
            ConfigView {
                tenant_id: settings.tenant_id->Some_0,
                report_hour: match settings.report_hour {
                    Some(text) => hour_of(text)->Some_0,
                    None => DEFAULT_REPORT_HOUR,
                },
                target_chat_id: chat_of(settings.target_chat_id->Some_0)->Some_0,
                warning_threshold: match settings.warning_threshold {
                    Some(text) => number_of(text)->Some_0,
                    None => default_threshold(),
                },
                monitor_interval: MONITOR_INTERVAL,
            },
        )
    }
}

/// What the bot runs on. It is made once, from the settings, and not
/// changed afterwards.
pub struct Config {
    tenant_id: String,
    report_hour: u8,
    target_chat_id: i64,
    warning_threshold: Decimal,
    monitor_interval: u64,
}

impl View for Config {
    type V = ConfigView;

    closed spec fn view(&self) -> ConfigView {
        ConfigView {
            tenant_id: self.tenant_id@,
            report_hour: self.report_hour,
            target_chat_id: self.target_chat_id,
            warning_threshold: self.warning_threshold@,
            monitor_interval: self.monitor_interval,
        }
    }
}

impl Config {
    #[verifier::type_invariant]
    spec fn well_formed(&self) -> bool {
        self@.wf()
    }

    /// Checks the settings and makes the configuration, as [`configure`]
    /// says.
    pub fn from_settings(settings: &Settings) -> (made: Result<Config, ConfigError>)
        ensures
            match made {
                Ok(config) => configure(settings@) == Ok::<ConfigView, ConfigError>(config@)
                    && config@.wf(),
                Err(error) => configure(settings@) == Err::<ConfigView, ConfigError>(error),
            },
    {
        let tenant_id = match &settings.tenant_id {
            Some(text) => text.clone(),
            None => return Err(ConfigError::Missing(Setting::TenantId)),
        };
        let report_hour: u8 = match &settings.report_hour {
            Some(text) => match parse_below(text.as_str(), 24) {
                Some(hour) => hour as u8,
                None => return Err(ConfigError::Invalid(Setting::ReportHour)),
            },
            None => DEFAULT_REPORT_HOUR,
        };
        let target_chat_id = match &settings.target_chat_id {
            Some(text) => match parse_i64(text.as_str()) {
                Some(id) => id,
                None => return Err(ConfigError::Invalid(Setting::TargetChatId)),
            },
            None => return Err(ConfigError::Missing(Setting::TargetChatId)),
        };
        let warning_threshold = match &settings.warning_threshold {
            Some(text) => match Decimal::parse(text.as_str()) {
                Some(threshold) => threshold,
                None => return Err(ConfigError::Invalid(Setting::WarningThreshold)),
            },
            None => {
                let mut digits: Vec<u8> = Vec::new();
                digits.push(3);
                digits.push(0);
                assert(digits@ =~= seq![3u8, 0u8]);
                Decimal::from_parts(false, digits, 0)
            },
        };
        proof {
            if settings.warning_threshold is Some {
                crate::decimal::lemma_number_of(settings.warning_threshold->Some_0@);
            }
        }
        Ok(
            Config {
                tenant_id,
                report_hour,
                target_chat_id,
                warning_threshold,
                monitor_interval: MONITOR_INTERVAL,
            },
        )
    }

    /// The same configuration with another pause between two cycles of the
    /// monitor, in seconds.
    pub fn with_monitor_interval(self, seconds: u64) -> (changed: Config)
        ensures
            changed@ == (ConfigView { monitor_interval: seconds, ..self@ }),
            changed@.wf(),
    {
        proof {
            use_type_invariant(&self);
        }
        Config {
            tenant_id: self.tenant_id,
            report_hour: self.report_hour,
            target_chat_id: self.target_chat_id,
            warning_threshold: self.warning_threshold,
            monitor_interval: seconds,
        }
    }

    /// The account whose balances are asked for.
    pub fn tenant_id(&self) -> (tenant_id: &str)
        ensures
            tenant_id@ == self@.tenant_id,
    {
        self.tenant_id.as_str()
    }

    /// The hour of the day at which the report goes out.
    pub fn report_hour(&self) -> (hour: u8)
        ensures
            hour == self@.report_hour,
            hour < 24,
    {
        proof {
            use_type_invariant(self);
        }
        self.report_hour
    }

    /// The chat that gets reports and warnings.
    pub fn target_chat_id(&self) -> (chat_id: i64)
        ensures
            chat_id == self@.target_chat_id,
    {
        self.target_chat_id
    }

    /// The balance under which a warning goes out.
    pub fn warning_threshold(&self) -> (threshold: &Decimal)
        ensures
            threshold@ == self@.warning_threshold,
    {
        &self.warning_threshold
    }

    /// Seconds between two cycles of the monitor.
    pub fn monitor_interval(&self) -> (seconds: u64)
        ensures
            seconds == self@.monitor_interval,
    {
        self.monitor_interval
    }
}

} // verus!
