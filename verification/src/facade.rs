//! The lifecycle contract exposed to the host: static plugin metadata and
//! the operations that are explicitly unsupported, signalled as such
//! rather than left as aborting stubs.

use vstd::prelude::*;

verus! {

/// Static metadata describing this plugin to the host.
pub struct PluginInfo {
    pub identifier: String,
    pub name: String,
    pub description: String,
    pub version: String,
    pub icon: Option<String>,
    pub url: Option<String>,
}

/// The plugin's configuration: the exclusion lists a host could set.
pub struct PluginConfig {
    pub excluded_directories: Vec<String>,
    pub excluded_files: Vec<String>,
}

/// A lifecycle operation's failure.
#[derive(PartialEq, Eq, Structural, Debug, Clone, Copy)]
pub enum PluginError {
    /// The operation is not supported by this plugin.
    Unsupported,
}

/// The plugin's lifecycle entry points that need no external collaborator.
pub struct FileExplorer;

impl FileExplorer {
    /// The plugin's static metadata.
    pub fn info() -> (r: PluginInfo)
        ensures
            r.identifier@ == "net.cyberendroit.michel.file-explorer-plugin"@,
            r.name@ == "File explorer"@,
            r.description@ == "Explore your FS... maybe"@,
            r.version@ == "0.0.0"@,
            r.icon is None,
            r.url is None,
    {
        PluginInfo {
            identifier: String::from_str("net.cyberendroit.michel.file-explorer-plugin"),
            name: String::from_str("File explorer"),
            description: String::from_str("Explore your FS... maybe"),
            version: String::from_str("0.0.0"),
            icon: None,
            url: None,
        }
    }

    /// Reading the configuration is not supported: the host is told so
    /// explicitly instead of receiving a made-up value.
    pub fn config() -> (r: Result<PluginConfig, PluginError>)
        ensures
            r matches Err(PluginError::Unsupported),
    {
        Err(PluginError::Unsupported)
    }

    /// Updating the configuration is not supported; the given
    /// configuration is ignored and the host is told so explicitly.
    pub fn update_config(config: PluginConfig) -> (r: Result<(), PluginError>)
        ensures
            r matches Err(PluginError::Unsupported),
    {
        let _ = config;
        Err(PluginError::Unsupported)
    }

    /// Autocompletion is not supported; the host is told so explicitly.
    pub fn autocomplete(input: String) -> (r: Result<Option<String>, PluginError>)
        ensures
            r matches Err(PluginError::Unsupported),
    {
        let _ = input;
        Err(PluginError::Unsupported)
    }
}

} // verus!
