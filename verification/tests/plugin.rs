use bevy_puffin::plugin::{install_conflict, InstallConflict, Level, PuffinTracePlugin};

#[test]
fn plugin_starts_with_the_defaults() {
    let plugin = PuffinTracePlugin::new();
    assert!(plugin.init_systems());
    assert!(plugin.init_scopes());
    assert_eq!(plugin.filter(), "wgpu=error");
    assert_eq!(plugin.level(), Level::Info);
    assert_eq!(plugin.default_filter(), "INFO,wgpu=error");

    let plugin = PuffinTracePlugin::default();
    assert!(plugin.init_systems());
    assert!(plugin.init_scopes());
    assert_eq!(plugin.filter(), "wgpu=error");
    assert_eq!(plugin.level(), Level::Info);
}

#[test]
fn builders_change_one_setting_each() {
    let plugin = PuffinTracePlugin::new().without_systems();
    assert!(!plugin.init_systems());
    assert!(plugin.init_scopes());
    let plugin = plugin.with_scopes_off();
    assert!(!plugin.init_systems());
    assert!(!plugin.init_scopes());
    let plugin = plugin.with_systems();
    assert!(plugin.init_systems());
    assert!(!plugin.init_scopes());
    let plugin = plugin.with_scopes_on();
    assert!(plugin.init_systems());
    assert!(plugin.init_scopes());
    assert_eq!(plugin.filter(), "wgpu=error");
    assert_eq!(plugin.level(), Level::Info);

    let plugin = plugin.with_filter("bevy_puffin=trace,wgpu=warn".to_string());
    assert_eq!(plugin.filter(), "bevy_puffin=trace,wgpu=warn");
    assert_eq!(plugin.level(), Level::Info);
    let plugin = plugin.with_level(Level::Debug);
    assert_eq!(plugin.filter(), "bevy_puffin=trace,wgpu=warn");
    assert_eq!(plugin.level(), Level::Debug);
    assert!(plugin.init_systems());
    assert!(plugin.init_scopes());
    assert_eq!(plugin.default_filter(), "DEBUG,bevy_puffin=trace,wgpu=warn");
}

#[test]
fn default_filter_names_each_level() {
    let filter_of = |level: Level| PuffinTracePlugin::new().with_level(level).default_filter();
    assert_eq!(filter_of(Level::Error), "ERROR,wgpu=error");
    assert_eq!(filter_of(Level::Warn), "WARN,wgpu=error");
    assert_eq!(filter_of(Level::Info), "INFO,wgpu=error");
    assert_eq!(filter_of(Level::Debug), "DEBUG,wgpu=error");
    assert_eq!(filter_of(Level::Trace), "TRACE,wgpu=error");
    let empty = PuffinTracePlugin::new().with_filter(String::new());
    assert_eq!(empty.default_filter(), "INFO,");
}

#[test]
fn level_names_are_those_of_tracing() {
    assert_eq!(Level::Error.name(), tracing::Level::ERROR.to_string());
    assert_eq!(Level::Warn.name(), tracing::Level::WARN.to_string());
    assert_eq!(Level::Info.name(), tracing::Level::INFO.to_string());
    assert_eq!(Level::Debug.name(), tracing::Level::DEBUG.to_string());
    assert_eq!(Level::Trace.name(), tracing::Level::TRACE.to_string());
    assert_eq!(Level::Error.name(), "ERROR");
    assert_eq!(Level::Warn.name(), "WARN");
    assert_eq!(Level::Info.name(), "INFO");
    assert_eq!(Level::Debug.name(), "DEBUG");
    assert_eq!(Level::Trace.name(), "TRACE");
}

#[test]
fn conflict_names_what_was_already_set() {
    assert_eq!(install_conflict(false, false), None);
    assert_eq!(install_conflict(true, false), Some(InstallConflict::Logger));
    assert_eq!(install_conflict(false, true), Some(InstallConflict::Subscriber));
    assert_eq!(install_conflict(true, true), Some(InstallConflict::LoggerAndSubscriber));

    assert_eq!(
        InstallConflict::LoggerAndSubscriber.message(),
        "Could not set global logger and tracing subscriber for bevy_puffin as they are already set. Consider disabling LogPlugin or re-ordering plugin initialization."
    );
    assert_eq!(
        InstallConflict::Logger.message(),
        "Could not set global logger as it is already set. Consider disabling LogPlugin."
    );
    assert_eq!(
        InstallConflict::Subscriber.message(),
        "Could not set global tracing subscriber as it is already set. Consider disabling LogPlugin."
    );
}
