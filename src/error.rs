//! Errors of the plugin system, with the plugin, hook or path they concern.

use vstd::prelude::*;
use crate::category::PluginCategory;
use crate::text::{join2, join3};

verus! {

/// A failure while resolving, loading, validating or running a plugin.
#[derive(Debug, Clone)]
pub enum PluginError {
    /// No directory was found for a plugin identifier.
    NotFound {
        /// The identifier as configured.
        identifier: String,
        /// The places that were tried, in order.
        tried: Vec<String>,
    },
    /// The package has no readable plugin declaration.
    InvalidManifest {
        /// The package directory.
        package_path: String,
        /// What went wrong.
        detail: String,
    },
    /// The entry point named by the package does not exist.
    EntryNotFound {
        /// The package name.
        package: String,
        /// The entry file as declared.
        entry: String,
        /// Where it was looked for.
        entry_path: String,
    },
    /// The plugin declaration has an empty name.
    EmptyName {
        /// The package directory.
        package_path: String,
    },
    /// The plugin declares no hook.
    NoHooks {
        /// The plugin's name.
        name: String,
    },
    /// The plugin declares a hook its category does not have.
    InvalidHook {
        /// The plugin's name.
        name: String,
        /// The offending hook.
        hook: String,
        /// The plugin's category.
        category: PluginCategory,
    },
    /// The hook ran and reported failure.
    HookFailed {
        /// The plugin's name.
        plugin: String,
        /// The hook that was called.
        hook: String,
        /// The failure message.
        message: String,
    },
    /// The hook succeeded but its data does not have the expected shape.
    HookOutputMismatch {
        /// The plugin's name.
        plugin: String,
        /// The hook that was called.
        hook: String,
    },
}

/// The text that `message` gives for an error.
pub open spec fn error_text(e: PluginError) -> Seq<char> {
    match e {
        PluginError::NotFound { identifier, .. } => "Plugin '"@ + identifier@
            + "' not found"@,
        PluginError::InvalidManifest { package_path, detail } => "Invalid plugin manifest in '"@
            + package_path@ + "': "@ + detail@,
        PluginError::EntryNotFound { package, entry, entry_path } => "Plugin '"@ + package@
            + "' entry point '"@ + entry@ + "' not found at '"@ + entry_path@ + "'"@,
        PluginError::EmptyName { package_path } => "Plugin at '"@ + package_path@
            + "' has empty name in its manifest"@,
        PluginError::NoHooks { name } => "Plugin '"@ + name@ + "' has no hooks defined"@,
        PluginError::InvalidHook { name, hook, category } => "Plugin '"@ + name@
            + "' declares invalid hook '"@ + hook@ + "' for category "@ + category.token()
            + "; valid hooks: "@ + category.hook_list(),
        PluginError::HookFailed { plugin, hook, message } => "Plugin '"@ + plugin@ + "' hook '"@
            + hook@ + "' failed: "@ + message@,
        PluginError::HookOutputMismatch { plugin, hook } => "Failed to parse output from plugin '"@
            + plugin@ + "' hook '"@ + hook@ + "'"@,
    }
}

impl PluginError {
    /// A human-readable description naming the plugin, hook or path involved.
    pub fn message(&self) -> (r: String)
        ensures
            r@ == error_text(*self),
    {
        match self {
            PluginError::NotFound { identifier, .. } => join3(
                "Plugin '",
                identifier.as_str(),
                "' not found",
            ),
            PluginError::InvalidManifest { package_path, detail } => {
                let a = join3("Invalid plugin manifest in '", package_path.as_str(), "': ");
                join2(a.as_str(), detail.as_str())
            },
            PluginError::EntryNotFound { package, entry, entry_path } => {
                let a = join3("Plugin '", package.as_str(), "' entry point '");
                let b = join3(a.as_str(), entry.as_str(), "' not found at '");
                join3(b.as_str(), entry_path.as_str(), "'")
            },
            PluginError::EmptyName { package_path } => join3(
                "Plugin at '",
                package_path.as_str(),
                "' has empty name in its manifest",
            ),
            PluginError::NoHooks { name } => join3(
                "Plugin '",
                name.as_str(),
                "' has no hooks defined",
            ),
            PluginError::InvalidHook { name, hook, category } => {
                let a = join3("Plugin '", name.as_str(), "' declares invalid hook '");
                let b = join3(a.as_str(), hook.as_str(), "' for category ");
                let c = join3(b.as_str(), category.as_str(), "; valid hooks: ");
                join2(c.as_str(), category.hooks_text())
            },
            PluginError::HookFailed { plugin, hook, message } => {
                let a = join3("Plugin '", plugin.as_str(), "' hook '");
                let b = join3(a.as_str(), hook.as_str(), "' failed: ");
                join2(b.as_str(), message.as_str())
            },
            PluginError::HookOutputMismatch { plugin, hook } => {
                let a = join3("Failed to parse output from plugin '", plugin.as_str(), "' hook '");
                join3(a.as_str(), hook.as_str(), "'")
            },
        }
    }
}

} // verus!
