use vstd::prelude::*;

verus! {

/// How a plugin is loaded.
#[derive(Debug, Clone, Copy, PartialEq, Eq, Structural)]
pub enum PluginType {
    Native,
    Wasm,
}

/// The metadata that describes a plugin.
#[derive(Debug)]
pub struct PluginManifest {
    pub name: String,
    pub version: Option<String>,
    pub description: Option<String>,
    pub plugin_type: PluginType,
    /// The symbol of a native plugin, or the main function of a WASM one.
    pub entry: Option<String>,
}

} // verus!
