//! Server configuration: network, world and plugin settings with their
//! defaults, and the decisions derived from them (which plugins run, how
//! the world is stored, which log filter applies).

use vstd::prelude::*;

verus! {

#[verifier::external_type_specification]
#[verifier::external_body]
pub struct ExLevelFilter(log::LevelFilter);

/// The filter at position `index` of `log::LevelFilter::iter()` (from the
/// least to the most verbose: Off, Error, Warn, Info, Debug, Trace).
pub uninterp spec fn level_filter_at(index: usize) -> log::LevelFilter;

/// Calls `log::LevelFilter::iter()` and takes its item at `index`.
/// `iter()` yields exactly six filters, so every index below six is present;
/// which filter comes at which index is only named here.
#[verifier::external_body]
fn level_filter_at_index(index: usize) -> (f: log::LevelFilter)
    requires
        index < 6,
    ensures
        f == level_filter_at(index),
{
    log::LevelFilter::iter().nth(index).unwrap()
}

/// Log output format.
#[derive(Debug, Clone, Copy, PartialEq, Eq, Structural)]
pub enum LogFormat {
    /// Human-readable format with colors and aligned fields.
    Pretty,
    /// Structured JSON, one object per line.
    Json,
}

/// Log verbosity level.
#[derive(Debug, Clone, Copy, PartialEq, Eq, Structural)]
pub enum LogLevel {
    /// Very verbose: keep-alive RTT, chunk counts, unhandled packets.
    Trace,
    /// Protocol flow: packets sent/received, state transitions.
    Debug,
    /// Important events: server start, player join/leave, plugins loaded.
    Info,
    /// Non-critical problems.
    Warn,
    /// Connection errors and fatal issues.
    Error,
}

/// Position of a level's filter in the logger's order from the least to
/// the most verbose filter (Off = 0 ... Trace = 5).
pub open spec fn filter_index(level: LogLevel) -> usize {
    match level {
        LogLevel::Trace => 5,
        LogLevel::Debug => 4,
        LogLevel::Info => 3,
        LogLevel::Warn => 2,
        LogLevel::Error => 1,
    }
}

impl LogLevel {
    /// Converts to the logger's level filter of the same name.
    pub fn to_level_filter(self) -> (f: log::LevelFilter)
        ensures
            f == level_filter_at(filter_index(self)),
    {
        match self {
            Self::Trace => level_filter_at_index(5),
            Self::Debug => level_filter_at_index(4),
            Self::Info => level_filter_at_index(3),
            Self::Warn => level_filter_at_index(2),
            Self::Error => level_filter_at_index(1),
        }
    }
}

/// How chunks are persisted to disk.
#[derive(Debug, Clone, Copy, PartialEq, Eq, Structural)]
pub enum StorageMode {
    /// No disk access (configured as `none`). Chunks generated in memory only.
    Memory,
    /// Load chunks from disk, never write back.
    ReadOnly,
    /// Load from disk and save modifications.
    ReadWrite,
}

/// Performance tuning settings.
pub struct PerformanceSection {
    /// Maximum number of chunks kept in the memory cache.
    pub chunk_cache_max_entries: usize,
    /// Maximum number of pre-encoded chunk packets kept in the network cache.
    pub chunk_packet_cache_max_entries: usize,
}

/// Network and runtime settings.
pub struct ServerSection {
    /// Address to bind the TCP listener to.
    pub bind: String,
    /// Log level.
    pub log_level: LogLevel,
    /// Log format.
    pub log_format: LogFormat,
    /// Global tick rate in ticks per second.
    pub tick_rate: u32,
    /// Whether to crash the server on a plugin panic.
    pub crash_on_plugin_panic: bool,
    /// Simulation distance in chunks around each player.
    pub simulation_distance: i32,
    /// Interval in seconds between dirty chunk flushes to disk.
    pub persistence_interval_seconds: u32,
    /// Performance tuning.
    pub performance: PerformanceSection,
}

/// World generation and storage settings.
pub struct WorldSection {
    /// Terrain generation seed.
    pub seed: u32,
    /// How chunks are persisted.
    pub storage: StorageMode,
}

/// Plugin enable/disable flags.
pub struct PluginsSection {
    /// Chat message broadcast.
    pub chat: bool,
    /// Gameplay commands (/tp, /gamemode, /say, /help).
    pub command: bool,
    /// Block breaking and placing.
    pub block: bool,
    /// Chunk streaming on movement.
    pub world: bool,
    /// Player join/leave broadcasts.
    pub lifecycle: bool,
    /// Player movement broadcasts.
    pub movement: bool,
    /// Physics simulation (gravity, AABB collision).
    pub physics: bool,
    /// Item drops on block break.
    pub drops: bool,
    /// Container interaction (chests).
    pub container: bool,
}

/// Top-level server configuration.
pub struct ServerConfig {
    /// Network and server identity settings.
    pub server: ServerSection,
    /// World generation and storage settings.
    pub world: WorldSection,
    /// Plugin enable/disable flags.
    pub plugins: PluginsSection,
}

impl Default for LogFormat {
    fn default() -> (r: Self)
        ensures
            r == LogFormat::Pretty,
    {
        LogFormat::Pretty
    }
}

impl Default for LogLevel {
    fn default() -> (r: Self)
        ensures
            r == LogLevel::Info,
    {
        LogLevel::Info
    }
}

impl Default for StorageMode {
    fn default() -> (r: Self)
        ensures
            r == StorageMode::ReadWrite,
    {
        StorageMode::ReadWrite
    }
}

impl Default for PerformanceSection {
    fn default() -> (r: Self)
        ensures
            r.chunk_cache_max_entries == 4096,
            r.chunk_packet_cache_max_entries == 2048,
    {
        PerformanceSection { chunk_cache_max_entries: 4096, chunk_packet_cache_max_entries: 2048 }
    }
}

impl Default for ServerSection {
    fn default() -> (r: Self)
        ensures
            r.bind@ == "0.0.0.0:25565"@,
            r.log_level == LogLevel::Info,
            r.log_format == LogFormat::Pretty,
            r.tick_rate == 20,
            r.crash_on_plugin_panic,
            r.simulation_distance == 8,
            r.persistence_interval_seconds == 30,
            r.performance.chunk_cache_max_entries == 4096,
            r.performance.chunk_packet_cache_max_entries == 2048,
    {
        ServerSection {
            bind: "0.0.0.0:25565".to_owned(),
            log_level: LogLevel::Info,
            log_format: LogFormat::Pretty,
            tick_rate: 20,
            crash_on_plugin_panic: true,
            simulation_distance: 8,
            persistence_interval_seconds: 30,
            performance: PerformanceSection::default(),
        }
    }
}

impl Default for WorldSection {
    fn default() -> (r: Self)
        ensures
            r.seed == 42,
            r.storage == StorageMode::ReadWrite,
    {
        WorldSection { seed: 42, storage: StorageMode::ReadWrite }
    }
}

impl Default for PluginsSection {
    fn default() -> (r: Self)
        ensures
            r.chat && r.command && r.block && r.world && r.lifecycle && r.movement && r.physics
                && r.drops && r.container,
    {
        PluginsSection {
            chat: true,
            command: true,
            block: true,
            world: true,
            lifecycle: true,
            movement: true,
            physics: true,
            drops: true,
            container: true,
        }
    }
}

impl Default for ServerConfig {
    fn default() -> (r: Self)
        ensures
            r.server.bind@ == "0.0.0.0:25565"@,
            r.server.log_level == LogLevel::Info,
            r.server.log_format == LogFormat::Pretty,
            r.server.tick_rate == 20,
            r.server.crash_on_plugin_panic,
            r.server.simulation_distance == 8,
            r.server.persistence_interval_seconds == 30,
            r.server.performance.chunk_cache_max_entries == 4096,
            r.server.performance.chunk_packet_cache_max_entries == 2048,
            r.world.seed == 42,
            r.world.storage == StorageMode::ReadWrite,
            r.plugins.chat && r.plugins.command && r.plugins.block && r.plugins.world
                && r.plugins.lifecycle && r.plugins.movement && r.plugins.physics && r.plugins.drops
                && r.plugins.container,
    {
        ServerConfig {
            server: ServerSection::default(),
            world: WorldSection::default(),
            plugins: PluginsSection::default(),
        }
    }
}

/// A built-in plugin that the server can register.
#[derive(Debug, Clone, Copy, PartialEq, Eq, Structural)]
pub enum PluginKind {
    /// Join/leave broadcast.
    Lifecycle,
    /// Chat broadcast.
    Chat,
    /// Gameplay commands.
    Command,
    /// Position broadcast.
    Movement,
    /// Chunk streaming.
    World,
    /// Block breaking and placing.
    Block,
    /// Chunk persistence.
    Storage,
    /// Item drops on block break.
    Item,
    /// Chest interaction.
    Container,
    /// Gravity and collision.
    Physics,
}

impl PluginKind {
    /// The plugin's registered name.
    pub fn name(&self) -> (r: &'static str)
        ensures
            r@ == plugin_name(*self)@,
    {
        match self {
            PluginKind::Lifecycle => "lifecycle",
            PluginKind::Chat => "chat",
            PluginKind::Command => "command",
            PluginKind::Movement => "movement",
            PluginKind::World => "world",
            PluginKind::Block => "block",
            PluginKind::Storage => "storage",
            PluginKind::Item => "item",
            PluginKind::Container => "container",
            PluginKind::Physics => "physics",
        }
    }
}

/// The registered name of each plugin.
pub open spec fn plugin_name(p: PluginKind) -> &'static str {
    match p {
        PluginKind::Lifecycle => "lifecycle",
        PluginKind::Chat => "chat",
        PluginKind::Command => "command",
        PluginKind::Movement => "movement",
        PluginKind::World => "world",
        PluginKind::Block => "block",
        PluginKind::Storage => "storage",
        PluginKind::Item => "item",
        PluginKind::Container => "container",
        PluginKind::Physics => "physics",
    }
}

/// `s` followed by `p` when `cond` holds.
pub open spec fn push_if(s: Seq<PluginKind>, cond: bool, p: PluginKind) -> Seq<PluginKind> {
    if cond { s.push(p) } else { s }
}

/// The plugins a configuration enables, in registration order. Storage
/// needs block handling and a read-write world; item drops and
/// containers need block handling.
pub open spec fn enabled_plugins(p: PluginsSection, storage: StorageMode) -> Seq<PluginKind> {
    let s0 = Seq::empty();
    let s1 = push_if(s0, p.lifecycle, PluginKind::Lifecycle);
    let s2 = push_if(s1, p.chat, PluginKind::Chat);
    let s3 = push_if(s2, p.command, PluginKind::Command);
    let s4 = push_if(s3, p.movement, PluginKind::Movement);
    let s5 = push_if(s4, p.world, PluginKind::World);
    let s6 = push_if(s5, p.block, PluginKind::Block);
    let s7 = push_if(s6, p.block && storage == StorageMode::ReadWrite, PluginKind::Storage);
    let s8 = push_if(s7, p.drops && p.block, PluginKind::Item);
    let s9 = push_if(s8, p.container && p.block, PluginKind::Container);
    push_if(s9, p.physics, PluginKind::Physics)
}

/// How the world is created and where its chunks live.
pub struct WorldSetup {
    /// Terrain generation seed.
    pub seed: u32,
    /// Directory chunks are loaded from, `None` for a memory-only world.
    pub directory: Option<&'static str>,
    /// Maximum number of chunks kept in memory.
    pub max_chunks: usize,
    /// Approximate memory used by a full chunk cache, in MB (192 KB per chunk).
    pub approx_mb: usize,
}

/// Whether `c` holds the default settings.
pub open spec fn is_default_config(c: ServerConfig) -> bool {
    &&& c.server.bind@ == "0.0.0.0:25565"@
    &&& c.server.log_level == LogLevel::Info
    &&& c.server.log_format == LogFormat::Pretty
    &&& c.server.tick_rate == 20
    &&& c.server.crash_on_plugin_panic
    &&& c.server.simulation_distance == 8
    &&& c.server.persistence_interval_seconds == 30
    &&& c.server.performance.chunk_cache_max_entries == 4096
    &&& c.server.performance.chunk_packet_cache_max_entries == 2048
    &&& c.world.seed == 42
    &&& c.world.storage == StorageMode::ReadWrite
    &&& c.plugins.chat && c.plugins.command && c.plugins.block && c.plugins.world && c.plugins.lifecycle
        && c.plugins.movement && c.plugins.physics && c.plugins.drops && c.plugins.container
}

/// What reading the configuration file gave: no file, or its parsed
/// contents.
pub enum ConfigSource {
    /// There is no configuration file.
    Missing,
    /// The file's parsed contents.
    Parsed(ServerConfig),
}

impl ServerConfig {
    /// The plugins to register, in registration order.
    pub fn create_plugins(&self) -> (r: Vec<PluginKind>)
        ensures
            r@ == enabled_plugins(self.plugins, self.world.storage),
    {
        let mut plugins: Vec<PluginKind> = Vec::new();
        if self.plugins.lifecycle {
            plugins.push(PluginKind::Lifecycle);
        }
        if self.plugins.chat {
            plugins.push(PluginKind::Chat);
        }
        if self.plugins.command {
            plugins.push(PluginKind::Command);
        }
        if self.plugins.movement {
            plugins.push(PluginKind::Movement);
        }
        if self.plugins.world {
            plugins.push(PluginKind::World);
        }
        if self.plugins.block {
            plugins.push(PluginKind::Block);
        }
        if self.plugins.block && self.world.storage == StorageMode::ReadWrite {
            plugins.push(PluginKind::Storage);
        }
        if self.plugins.drops && self.plugins.block {
            plugins.push(PluginKind::Item);
        }
        if self.plugins.container && self.plugins.block {
            plugins.push(PluginKind::Container);
        }
        if self.plugins.physics {
            plugins.push(PluginKind::Physics);
        }
        plugins
    }

    /// How to create the world: memory-only for `none`, the `world/`
    /// directory for `read-only` and `read-write`.
    pub fn create_world(&self) -> (r: WorldSetup)
        requires
            self.server.performance.chunk_cache_max_entries * 192 <= usize::MAX,
        ensures
            r.seed == self.world.seed,
            r.max_chunks == self.server.performance.chunk_cache_max_entries,
            r.approx_mb == self.server.performance.chunk_cache_max_entries * 192 / 1024,
            self.world.storage == StorageMode::Memory ==> r.directory is None,
            self.world.storage != StorageMode::Memory ==> (r.directory matches Some(d) && d@
                == "world"@),
    {
        let max_chunks = self.server.performance.chunk_cache_max_entries;
        let approx_mb = max_chunks * 192 / 1024;
        match self.world.storage {
            StorageMode::Memory => WorldSetup {
                seed: self.world.seed,
                directory: None,
                max_chunks,
                approx_mb,
            },
            StorageMode::ReadOnly | StorageMode::ReadWrite => WorldSetup {
                seed: self.world.seed,
                directory: Some("world"),
                max_chunks,
                approx_mb,
            },
        }
    }

    /// The configuration to run with: the file's contents, or the
    /// defaults when there is no file.
    pub fn load(source: ConfigSource) -> (r: ServerConfig)
        ensures
            match source {
                ConfigSource::Missing => is_default_config(r),
                ConfigSource::Parsed(c) => r == c,
            },
    {
        match source {
            ConfigSource::Missing => ServerConfig::default(),
            ConfigSource::Parsed(c) => c,
        }
    }

    /// Ticks between dirty-chunk flushes: the flush interval in seconds
    /// times the tick rate.
    pub fn persistence_interval_ticks(&self) -> (r: u64)
        ensures
            r == self.server.persistence_interval_seconds * self.server.tick_rate,
    {
        let secs = self.server.persistence_interval_seconds as u64;
        let tps = self.server.tick_rate as u64;
        assert(secs * tps <= u32::MAX * u32::MAX) by (nonlinear_arith)
            requires
                secs <= u32::MAX,
                tps <= u32::MAX,
        ;
        secs * tps
    }
}

/// Block handling is what storage, drops and containers hang on: with
/// block handling off, none of them is registered, whatever their flags.
pub proof fn plugins_need_block_handling(p: PluginsSection, storage: StorageMode)
    requires
        !p.block,
    ensures
        !enabled_plugins(p, storage).contains(PluginKind::Block),
        !enabled_plugins(p, storage).contains(PluginKind::Storage),
        !enabled_plugins(p, storage).contains(PluginKind::Item),
        !enabled_plugins(p, storage).contains(PluginKind::Container),
{
    let s = enabled_plugins(p, storage);
    assert forall|i: int| 0 <= i < s.len() implies s[i] != PluginKind::Block && s[i]
        != PluginKind::Storage && s[i] != PluginKind::Item && s[i] != PluginKind::Container by {
    }
}

/// Chunks are persisted only for a read-write world.
pub proof fn storage_needs_read_write(p: PluginsSection, storage: StorageMode)
    requires
        storage != StorageMode::ReadWrite,
    ensures
        !enabled_plugins(p, storage).contains(PluginKind::Storage),
{
    let s = enabled_plugins(p, storage);
    assert forall|i: int| 0 <= i < s.len() implies s[i] != PluginKind::Storage by {}
}

} // verus!
