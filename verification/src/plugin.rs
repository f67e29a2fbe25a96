//! The configuration of the tracing setup, and what it decides at start-up.

use crate::scopes::ScopeSwitch;
use vstd::prelude::*;
use vstd::string::*;

verus! {

/// The severity of a span or an event, most severe first.
#[derive(Clone, Copy, Debug, PartialEq, Eq, Structural)]
pub enum Level {
    Error,
    Warn,
    Info,
    Debug,
    Trace,
}

/// The name of a level as a filter directive spells it.
pub open spec fn level_text(level: Level) -> Seq<char> {
    match level {
        Level::Error => "ERROR"@,
        Level::Warn => "WARN"@,
        Level::Info => "INFO"@,
        Level::Debug => "DEBUG"@,
        Level::Trace => "TRACE"@,
    }
}

/// The filter that a plugin starts with.
pub open spec fn initial_filter() -> Seq<char> {
    "wgpu=error"@
}

/// The filter directive made of a level and a filter: the level's name, a
/// comma, the filter.
pub open spec fn filter_directive(level: Level, filter: Seq<char>) -> Seq<char> {
    level_text(level) + ","@ + filter
}

impl Level {
    /// The name of the level, in capitals, as `tracing` prints it and a
    /// filter directive reads it.
    pub fn name(self) -> (name: &'static str)
        ensures
            name@ == level_text(self),
    {
        match self {
            Level::Error => "ERROR",
            Level::Warn => "WARN",
            Level::Info => "INFO",
            Level::Debug => "DEBUG",
            Level::Trace => "TRACE",
        }
    }
}

/// What a [`PuffinTracePlugin`] stands for.
pub struct PluginSettings {
    /// Whether a new profiler frame is marked once per loop of the host.
    pub init_systems: bool,
    /// Whether the profiler's scopes are turned on at start-up, or off.
    pub init_scopes: bool,
    /// The filter used where the environment names none.
    pub filter: Seq<char>,
    /// The least severe level that is let through.
    pub level: Level,
}

/// The settings that a plugin starts with.
pub open spec fn initial_settings() -> PluginSettings {
    PluginSettings {
        init_systems: true,
        init_scopes: true,
        filter: initial_filter(),
        level: Level::Info,
    }
}

/// A plugin that sets up `puffin` and configures it as a `tracing-subscriber` layer.
pub struct PuffinTracePlugin {
    init_systems: bool,
    init_scopes: bool,
    filter: String,
    level: Level,
}

impl View for PuffinTracePlugin {
    type V = PluginSettings;

    closed spec fn view(&self) -> PluginSettings {
        PluginSettings {
            init_systems: self.init_systems,
            init_scopes: self.init_scopes,
            filter: self.filter@,
            level: self.level,
        }
    }
}

impl Default for PuffinTracePlugin {
    fn default() -> (plugin: Self)
        ensures
            plugin@ == initial_settings(),
    {
        PuffinTracePlugin {
            init_systems: true,
            init_scopes: true,
            filter: String::from_str("wgpu=error"),
            level: Level::Info,
        }
    }
}

impl PuffinTracePlugin {
    /// Creates `PuffinTracePlugin` with the default configuration.
    pub fn new() -> (plugin: Self)
        ensures
            plugin@ == initial_settings(),
    {
        Self::default()
    }

    /// Enables marking a new profiler frame once per loop of the host.
    /// (Enabled by default.)
    pub fn with_systems(self) -> (plugin: Self)
        ensures
            plugin@ == (PluginSettings { init_systems: true, ..self@ }),
    {
        PuffinTracePlugin { init_systems: true, ..self }
    }

    /// Disables marking a new profiler frame once per loop of the host, for
    /// a host that marks frames itself. (Enabled by default.)
    pub fn without_systems(self) -> (plugin: Self)
        ensures
            plugin@ == (PluginSettings { init_systems: false, ..self@ }),
    {
        PuffinTracePlugin { init_systems: false, ..self }
    }

    /// Has the profiler's scopes turned on at start-up. (Enabled by default.)
    pub fn with_scopes_on(self) -> (plugin: Self)
        ensures
            plugin@ == (PluginSettings { init_scopes: true, ..self@ }),
    {
        PuffinTracePlugin { init_scopes: true, ..self }
    }

    /// Has the profiler's scopes turned off at start-up. (Turned on by
    /// default.)
    pub fn with_scopes_off(self) -> (plugin: Self)
        ensures
            plugin@ == (PluginSettings { init_scopes: false, ..self@ }),
    {
        PuffinTracePlugin { init_scopes: false, ..self }
    }

    /// Filters logs using the `EnvFilter` format.
    pub fn with_filter(self, filter: String) -> (plugin: Self)
        ensures
            plugin@ == (PluginSettings { filter: filter@, ..self@ }),
    {
        PuffinTracePlugin { filter, ..self }
    }

    /// Filters out logs that are "less than" the given level.
    /// This can be further filtered using the `filter` setting.
    pub fn with_level(self, level: Level) -> (plugin: Self)
        ensures
            plugin@ == (PluginSettings { level, ..self@ }),
    {
        PuffinTracePlugin { level, ..self }
    }

    /// Whether a new profiler frame is marked once per loop of the host.
    pub fn init_systems(&self) -> (on: bool)
        ensures
            on == self@.init_systems,
    {
        self.init_systems
    }

    /// Whether the profiler's scopes are turned on at start-up, or off.
    pub fn init_scopes(&self) -> (on: bool)
        ensures
            on == self@.init_scopes,
    {
        self.init_scopes
    }

    /// The filter used where the environment names none.
    pub fn filter(&self) -> (filter: &str)
        ensures
            filter@ == self@.filter,
    {
        self.filter.as_str()
    }

    /// The least severe level that is let through.
    pub fn level(&self) -> (level: Level)
        ensures
            level == self@.level,
    {
        self.level
    }

    /// The filter directive that is used where the environment gives none:
    /// the level's name, a comma, the filter.
    pub fn default_filter(&self) -> (directive: String)
        ensures
            directive@ == filter_directive(self@.level, self@.filter),
    {
        let mut directive = String::from_str(self.level.name());
        directive.append(",");
        directive.append(self.filter.as_str());
        directive
    }

    /// Turns the profiler's scopes through `switch` to what the plugin is set
    /// to, on or off, and says which it was.
    pub fn start_scopes(&self, switch: &mut ScopeSwitch) -> (turned_on: bool)
        ensures
            turned_on == self@.init_scopes,
            final(switch).turns() == old(switch).turns().push(self@.init_scopes),
    {
        switch.turn(self.init_scopes);
        self.init_scopes
    }
}

/// Which of the two global installations failed at start-up.
#[derive(Clone, Copy, Debug, PartialEq, Eq, Structural)]
pub enum InstallConflict {
    /// The logger and the tracing subscriber were both set already.
    LoggerAndSubscriber,
    /// Only the logger was set already.
    Logger,
    /// Only the tracing subscriber was set already.
    Subscriber,
}

/// The conflict to warn of, given which installations found their place
/// taken; `None` where both went through.
pub fn install_conflict(logger_already_set: bool, subscriber_already_set: bool) -> (conflict:
    Option<InstallConflict>)
    ensures
        conflict == if logger_already_set && subscriber_already_set {
            Some(InstallConflict::LoggerAndSubscriber)
        } else if logger_already_set {
            Some(InstallConflict::Logger)
        } else if subscriber_already_set {
            Some(InstallConflict::Subscriber)
        } else {
            None::<InstallConflict>
        },
{
    match (logger_already_set, subscriber_already_set) {
        (true, true) => Some(InstallConflict::LoggerAndSubscriber),
        (true, _) => Some(InstallConflict::Logger),
        (_, true) => Some(InstallConflict::Subscriber),
        _ => None,
    }
}

/// The text of the warning for a conflict.
pub open spec fn conflict_text(conflict: InstallConflict) -> Seq<char> {
    match conflict {
        InstallConflict::LoggerAndSubscriber =>
            "Could not set global logger and tracing subscriber for bevy_puffin as they are already set. Consider disabling LogPlugin or re-ordering plugin initialization."@,
        InstallConflict::Logger =>
            "Could not set global logger as it is already set. Consider disabling LogPlugin."@,
        InstallConflict::Subscriber =>
            "Could not set global tracing subscriber as it is already set. Consider disabling LogPlugin."@,
    }
}

impl InstallConflict {
    /// The warning that names what could not be installed.
    pub fn message(&self) -> (text: &'static str)
        ensures
            text@ == conflict_text(*self),
    {
        match self {
            InstallConflict::LoggerAndSubscriber =>
                "Could not set global logger and tracing subscriber for bevy_puffin as they are already set. Consider disabling LogPlugin or re-ordering plugin initialization.",
            InstallConflict::Logger =>
                "Could not set global logger as it is already set. Consider disabling LogPlugin.",
            InstallConflict::Subscriber =>
                "Could not set global tracing subscriber as it is already set. Consider disabling LogPlugin.",
        }
    }
}

} // verus!
