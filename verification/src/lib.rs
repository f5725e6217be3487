//! Basalt server core logic: inventory slots and click rules, window slot
//! mapping and click routing, player input decisions, crafting and the
//! recipe-book auto-fill, container views, chunk encoding, chunk streaming
//! and batching, slash commands, the response queue, the built-in event
//! handlers and server configuration.

pub mod slot;
pub mod click_handler;
pub mod click;
pub mod config;
pub mod messages;
pub mod recipe;
pub mod inventory;
pub mod container;
pub mod world;
pub mod streaming;
pub mod chunk;
pub mod window;
pub mod input;
pub mod autofill;
pub mod context;
pub mod commands;
pub mod handlers;

use vstd::prelude::*;

use crate::config::{ConfigSource, ServerConfig, is_default_config};

verus! {

/// A Basalt server instance and the configuration it runs with.
pub struct Server {
    config: ServerConfig,
}

impl Server {
    /// The configuration the server runs with.
    pub closed spec fn configuration(&self) -> ServerConfig {
        self.config
    }

    /// Creates a server with the configuration read from the configuration
    /// file, or the defaults when there is none.
    pub fn new(source: ConfigSource) -> (r: Server)
        ensures
            match source {
                ConfigSource::Missing => is_default_config(r.configuration()),
                ConfigSource::Parsed(c) => r.configuration() == c,
            },
    {
        Server { config: ServerConfig::load(source) }
    }

    /// Creates a server with the given configuration.
    pub fn with_config(config: ServerConfig) -> (r: Server)
        ensures
            r.configuration() == config,
    {
        Server { config }
    }

    /// The configuration the server runs with.
    pub fn config(&self) -> (r: &ServerConfig)
        ensures
            *r == self.configuration(),
    {
        &self.config
    }
}

} // verus!
