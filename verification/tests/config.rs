use basalt_server::config::{
    ConfigSource, LogFormat, LogLevel, PluginKind, ServerConfig, StorageMode,
};
use basalt_server::Server;

#[test]
fn default_config() {
    let config = ServerConfig::default();
    assert_eq!(config.server.bind, "0.0.0.0:25565");
    assert_eq!(config.server.tick_rate, 20);
    assert!(config.server.crash_on_plugin_panic);
    assert_eq!(config.world.seed, 42);
    assert_eq!(config.world.storage, StorageMode::ReadWrite);
    assert!(config.plugins.chat);
    assert!(config.plugins.block);
    assert!(config.plugins.world);
    assert!(config.plugins.lifecycle);
    assert!(config.plugins.movement);
}

#[test]
fn create_plugins_all_enabled() {
    let config = ServerConfig::default();
    let plugins = config.create_plugins();
    assert_eq!(plugins.len(), 10);
}

#[test]
fn create_plugins_read_only_no_storage() {
    let mut config = ServerConfig::default();
    config.world.storage = StorageMode::ReadOnly;
    let plugins = config.create_plugins();
    assert_eq!(plugins.len(), 9);
    assert!(plugins.iter().all(|p| p.name() != "storage"));
}

#[test]
fn create_plugins_none_disabled() {
    let mut config = ServerConfig::default();
    config.plugins.chat = false;
    config.plugins.command = false;
    config.plugins.block = false;
    config.plugins.world = false;
    config.plugins.lifecycle = false;
    config.plugins.movement = false;
    config.plugins.physics = false;
    let plugins = config.create_plugins();
    assert!(plugins.is_empty());
}

#[test]
fn create_plugins_memory_storage_registers_no_storage_plugin() {
    let mut config = ServerConfig::default();
    config.world.storage = StorageMode::Memory;
    let plugins = config.create_plugins();
    assert_eq!(plugins.len(), 9);
    assert!(!plugins.contains(&PluginKind::Storage));
}

#[test]
fn create_plugins_without_block_drops_dependents() {
    let mut config = ServerConfig::default();
    config.plugins.block = false;
    let plugins = config.create_plugins();
    assert!(!plugins.contains(&PluginKind::Storage));
    assert!(!plugins.contains(&PluginKind::Block));
    assert!(plugins.contains(&PluginKind::Chat));
}

#[test]
fn load_missing_file_returns_default() {
    let config = ServerConfig::load(ConfigSource::Missing);
    assert_eq!(config.server.bind, "0.0.0.0:25565");
}

#[test]
fn load_parsed_file_keeps_its_values() {
    let mut parsed = ServerConfig::default();
    parsed.world.seed = 123;
    parsed.server.tick_rate = 10;
    let config = ServerConfig::load(ConfigSource::Parsed(parsed));
    assert_eq!(config.world.seed, 123);
    assert_eq!(config.server.tick_rate, 10);
}

#[test]
fn server_new_uses_loaded_config() {
    let server = Server::new(ConfigSource::Missing);
    assert_eq!(server.config().world.seed, 42);
    let mut parsed = ServerConfig::default();
    parsed.world.seed = 7;
    let server = Server::with_config(parsed);
    assert_eq!(server.config().world.seed, 7);
}

#[test]
fn log_levels_map_to_filters() {
    assert_eq!(LogLevel::Error.to_level_filter(), log::LevelFilter::Error);
    assert_eq!(LogLevel::Warn.to_level_filter(), log::LevelFilter::Warn);
    assert_eq!(LogLevel::Info.to_level_filter(), log::LevelFilter::Info);
    assert_eq!(LogLevel::Debug.to_level_filter(), log::LevelFilter::Debug);
    assert_eq!(LogLevel::Trace.to_level_filter(), log::LevelFilter::Trace);
}

#[test]
fn default_log_settings() {
    let config = ServerConfig::default();
    assert_eq!(config.server.log_level, LogLevel::Info);
    assert_eq!(config.server.log_format, LogFormat::Pretty);
}

#[test]
fn persistence_interval_is_seconds_times_tick_rate() {
    let config = ServerConfig::default();
    assert_eq!(config.persistence_interval_ticks(), 600);
}

#[test]
fn create_world_uses_storage_mode() {
    let mut config = ServerConfig::default();
    let setup = config.create_world();
    assert_eq!(setup.seed, 42);
    assert_eq!(setup.directory, Some("world"));
    assert_eq!(setup.max_chunks, 4096);
    assert_eq!(setup.approx_mb, 768);
    config.world.storage = StorageMode::Memory;
    assert_eq!(config.create_world().directory, None);
}

#[test]
fn enum_defaults() {
    assert_eq!(LogLevel::default(), LogLevel::Info);
    assert_eq!(LogLevel::default().to_level_filter(), log::LevelFilter::Info);
    assert_eq!(LogFormat::default(), LogFormat::Pretty);
    assert_eq!(StorageMode::default(), StorageMode::ReadWrite);
}
