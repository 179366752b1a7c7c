//! The persisted application record: discovered tools and allocated ports.

use vstd::prelude::*;

verus! {

/// Discovered tool versions and paths, and the two allocated ports.
pub struct AppConfig {
    pub node_version: Option<String>,
    pub npm_version: Option<String>,
    pub n8n_installed: bool,
    pub n8n_path: Option<String>,
    pub n8n_port: Option<u16>,
    pub ollama_installed: bool,
    pub ollama_path: Option<String>,
    pub ollama_version: Option<String>,
    pub ollama_port: Option<u16>,
    pub ollama_default_model: Option<String>,
}

/// `new` where it is present, `old` otherwise.
pub open spec fn overwrite<T>(old: Option<T>, new: Option<T>) -> Option<T> {
    if new is Some {
        new
    } else {
        old
    }
}

/// `c` updated field by field from `partial`: a present value overwrites, an
/// absent one leaves the field as it was; an installed flag, once set, stays set.
pub open spec fn merged(c: AppConfig, partial: AppConfig) -> AppConfig {
    AppConfig {
        node_version: overwrite(c.node_version, partial.node_version),
        npm_version: overwrite(c.npm_version, partial.npm_version),
        n8n_installed: c.n8n_installed || partial.n8n_installed,
        n8n_path: overwrite(c.n8n_path, partial.n8n_path),
        n8n_port: overwrite(c.n8n_port, partial.n8n_port),
        ollama_installed: c.ollama_installed || partial.ollama_installed,
        ollama_path: overwrite(c.ollama_path, partial.ollama_path),
        ollama_version: overwrite(c.ollama_version, partial.ollama_version),
        ollama_port: overwrite(c.ollama_port, partial.ollama_port),
        ollama_default_model: overwrite(c.ollama_default_model, partial.ollama_default_model),
    }
}

/// The record with nothing discovered yet.
pub open spec fn empty_config() -> AppConfig {
    AppConfig {
        node_version: None,
        npm_version: None,
        n8n_installed: false,
        n8n_path: None,
        n8n_port: None,
        ollama_installed: false,
        ollama_path: None,
        ollama_version: None,
        ollama_port: None,
        ollama_default_model: None,
    }
}

impl Default for AppConfig {
    fn default() -> (r: Self)
        ensures
            r == empty_config(),
    {
        AppConfig {
            node_version: None,
            npm_version: None,
            n8n_installed: false,
            n8n_path: None,
            n8n_port: None,
            ollama_installed: false,
            ollama_path: None,
            ollama_version: None,
            ollama_port: None,
            ollama_default_model: None,
        }
    }
}

impl AppConfig {
    /// Merges `partial` into the record (see `merged`). The caller saves the
    /// result.
    pub fn update(&mut self, partial: AppConfig)
        ensures
            *final(self) == merged(*old(self), partial),
    {
        if partial.node_version.is_some() {
            self.node_version = partial.node_version;
        }
        if partial.npm_version.is_some() {
            self.npm_version = partial.npm_version;
        }
        if partial.n8n_path.is_some() {
            self.n8n_path = partial.n8n_path;
        }
        if partial.n8n_port.is_some() {
            self.n8n_port = partial.n8n_port;
        }
        if partial.ollama_path.is_some() {
            self.ollama_path = partial.ollama_path;
        }
        if partial.ollama_port.is_some() {
            self.ollama_port = partial.ollama_port;
        }
        if partial.ollama_version.is_some() {
            self.ollama_version = partial.ollama_version;
        }
        if partial.ollama_default_model.is_some() {
            self.ollama_default_model = partial.ollama_default_model;
        }
        self.n8n_installed = self.n8n_installed || partial.n8n_installed;
        self.ollama_installed = self.ollama_installed || partial.ollama_installed;
    }
}

} // verus!
