//! The launcher's configuration (`config/config.toml` under the install
//! directory): the service port and the UI theme.
use vstd::prelude::*;
use crate::paths::{join_path, path_join, path_with_extension, with_extension};
use crate::text::lit;

verus! {

/// The configuration stored in `config.toml`.
#[derive(Debug, Clone)]
pub struct AppConfig {
    pub port: u16,
    pub theme: String,
}

/// The theme used when the file names none.
pub fn default_theme() -> (r: String)
    ensures
        r@ == "system"@,
{
    lit("system")
}

impl Default for AppConfig {
    /// Port 3080 and the system theme.
    fn default() -> (r: Self)
        ensures
            r.port == 3080,
            r.theme@ == "system"@,
    {
        AppConfig { port: 3080, theme: default_theme() }
    }
}

/// What was found where the configuration is stored.
pub enum StoredConfig {
    /// No file.
    Missing,
    /// A file that parsed as a configuration.
    Parsed(AppConfig),
    /// A file that did not parse.
    Corrupt,
}

/// What loading does with what it found.
pub enum LoadPlan {
    /// Use this configuration as it is.
    Use(AppConfig),
    /// Write the default configuration and use it; with `backup`, first copy
    /// the unreadable file aside.
    ResetToDefault { backup: bool },
}

impl AppConfig {
    /// `<app_dir>/config`.
    pub fn config_dir(app_dir: &String) -> (r: String)
        ensures
            r@ == path_join(app_dir@, "config"@),
    {
        join_path(app_dir.as_str(), "config")
    }

    /// `<app_dir>/config/config.toml`.
    pub fn config_path(app_dir: &String) -> (r: String)
        ensures
            r@ == path_join(path_join(app_dir@, "config"@), "config.toml"@),
    {
        let dir = Self::config_dir(app_dir);
        join_path(dir.as_str(), "config.toml")
    }

    /// Where an unreadable configuration is kept: `config.toml.bak`.
    pub fn backup_path(app_dir: &String) -> (r: String)
        ensures
            r@ == path_with_extension(
                path_join(path_join(app_dir@, "config"@), "config.toml"@),
                "toml.bak"@,
            ),
    {
        let p = Self::config_path(app_dir);
        proof {
            reveal_strlit("toml.bak");
        }
        with_extension(p.as_str(), "toml.bak")
    }

    /// A missing file is replaced by the defaults; a file that does not
    /// parse is backed up and replaced by the defaults; a parsed one is used.
    pub fn load_plan(found: StoredConfig) -> (r: LoadPlan)
        ensures
            match found {
                StoredConfig::Missing => r == LoadPlan::ResetToDefault { backup: false },
                StoredConfig::Corrupt => r == LoadPlan::ResetToDefault { backup: true },
                StoredConfig::Parsed(c) => r == LoadPlan::Use(c),
            },
    {
        match found {
            StoredConfig::Missing => LoadPlan::ResetToDefault { backup: false },
            StoredConfig::Corrupt => LoadPlan::ResetToDefault { backup: true },
            StoredConfig::Parsed(c) => LoadPlan::Use(c),
        }
    }
}

} // verus!
