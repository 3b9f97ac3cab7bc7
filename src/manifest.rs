//! Plugin declarations, loaded plugins, and the checks a declaration must pass.

use vstd::prelude::*;
use crate::category::PluginCategory;
use crate::error::PluginError;
use crate::options::{merge_options, map_or_empty, PluginEntry, PluginOptions};
use crate::text::{copy_opt_text, copy_texts, owned, same_text};

verus! {

/// A plugin's declaration of what it is and which hooks it implements.
#[derive(Debug, Clone)]
pub struct PluginManifest {
    /// Human-readable plugin name.
    pub name: String,
    /// The role the plugin fills.
    pub category: PluginCategory,
    /// Entry point relative to the package root (empty: use the package default).
    pub entry: String,
    /// Hooks the plugin implements.
    pub hooks: Vec<String>,
    /// Plugin version.
    pub version: String,
    /// Optional JSON schema (as JSON text) for the plugin's options.
    pub options_schema: Option<String>,
}

/// A plugin whose declaration was read and whose paths and options were resolved.
#[derive(Debug, Clone)]
pub struct LoadedPlugin {
    /// The plugin's declaration.
    pub manifest: PluginManifest,
    /// The package directory.
    pub package_path: String,
    /// The entry point file.
    pub entry_path: String,
    /// The options handed to every hook call.
    pub options: PluginOptions,
}

/// Whether some hook of `hooks` is `h`.
pub open spec fn declares(hooks: Seq<String>, h: Seq<char>) -> bool {
    exists|i: int| 0 <= i < hooks.len() && hooks[i]@ == h
}

impl PluginManifest {
    /// A field-by-field copy.
    pub fn copy(&self) -> (r: Self)
        ensures
            r.name == self.name,
            r.category == self.category,
            r.entry == self.entry,
            r.hooks@ == self.hooks@,
            r.version == self.version,
            r.options_schema == self.options_schema,
    {
        PluginManifest {
            name: self.name.clone(),
            category: self.category,
            entry: self.entry.clone(),
            hooks: copy_texts(&self.hooks),
            version: self.version.clone(),
            options_schema: copy_opt_text(&self.options_schema),
        }
    }
}

/// What a loaded plugin is, as plain values.
pub struct PluginInfo {
    /// Human-readable plugin name.
    pub name: Seq<char>,
    /// The plugin's category.
    pub category: PluginCategory,
    /// Declared entry.
    pub entry: Seq<char>,
    /// Declared hooks.
    pub hooks: Seq<Seq<char>>,
    /// Version.
    pub version: Seq<char>,
    /// Options schema (JSON text).
    pub options_schema: Option<Seq<char>>,
    /// Package directory.
    pub package_path: Seq<char>,
    /// Entry point file.
    pub entry_path: Seq<char>,
    /// Options handed to hooks.
    pub options: Map<Seq<char>, Seq<char>>,
}

/// The view of an optional text.
pub open spec fn opt_view(o: Option<String>) -> Option<Seq<char>> {
    match o {
        Some(s) => Some(s@),
        None => None,
    }
}

impl View for LoadedPlugin {
    type V = PluginInfo;

    open spec fn view(&self) -> PluginInfo {
        PluginInfo {
            name: self.manifest.name@,
            category: self.manifest.category,
            entry: self.manifest.entry@,
            hooks: self.manifest.hooks@.map_values(|h: String| h@),
            version: self.manifest.version@,
            options_schema: opt_view(self.manifest.options_schema),
            package_path: self.package_path@,
            entry_path: self.entry_path@,
            options: self.options.as_map(),
        }
    }
}

impl PluginOptions {
    /// An entry-by-entry copy.
    pub fn copy(&self) -> (r: Self)
        ensures
            r.entries@ == self.entries@,
    {
        let mut out: Vec<(String, String)> = Vec::new();
        let mut i: usize = 0;
        while i < self.entries.len()
            invariant
                i <= self.entries@.len(),
                out@ == self.entries@.subrange(0, i as int),
            decreases self.entries@.len() - i,
        {
            out.push((self.entries[i].0.clone(), self.entries[i].1.clone()));
            i = i + 1;
        }
        assert(out@ =~= self.entries@);
        PluginOptions { entries: out }
    }
}

impl LoadedPlugin {
    /// The plugin's name.
    pub open spec fn name_view(&self) -> Seq<char> {
        self.manifest.name@
    }

    /// A field-by-field copy.
    pub fn copy(&self) -> (r: Self)
        ensures
            r@ == self@,
    {
        let r = LoadedPlugin {
            manifest: self.manifest.copy(),
            package_path: self.package_path.clone(),
            entry_path: self.entry_path.clone(),
            options: self.options.copy(),
        };
        assert(r.manifest.hooks@.map_values(|h: String| h@) =~= self.manifest.hooks@.map_values(
            |h: String| h@,
        ));
        assert(r.options.as_map() =~= self.options.as_map());
        r
    }

    /// The plugin's display name.
    pub fn name(&self) -> (r: &str)
        ensures
            r@ == self.manifest.name@,
    {
        self.manifest.name.as_str()
    }

    /// The plugin's category.
    pub fn category(&self) -> (r: PluginCategory)
        ensures
            r == self.manifest.category,
    {
        self.manifest.category
    }

    /// Whether the plugin declares `hook`.
    pub fn has_hook(&self, hook: &str) -> (r: bool)
        ensures
            r == declares(self.manifest.hooks@, hook@),
    {
        let mut i: usize = 0;
        while i < self.manifest.hooks.len()
            invariant
                i <= self.manifest.hooks@.len(),
                forall|j: int| 0 <= j < i ==> self.manifest.hooks@[j]@ != hook@,
            decreases self.manifest.hooks@.len() - i,
        {
            if same_text(self.manifest.hooks[i].as_str(), hook) {
                return true;
            }
            i = i + 1;
        }
        false
    }

    /// Builds a loaded plugin from its package: the version falls back to the
    /// package's own version when the declaration gives none, and the options
    /// are the entry's inline options overridden by the global ones.
    pub fn from_package(
        manifest: PluginManifest,
        package_version: &str,
        package_path: String,
        entry_path: String,
        entry: &PluginEntry,
        global: Option<&PluginOptions>,
    ) -> (r: Self)
        ensures
            r.manifest.name == manifest.name,
            r.manifest.category == manifest.category,
            r.manifest.entry == manifest.entry,
            r.manifest.hooks == manifest.hooks,
            r.manifest.options_schema == manifest.options_schema,
            r.manifest.version@ == if manifest.version@.len() == 0 {
                package_version@
            } else {
                manifest.version@
            },
            r.package_path == package_path,
            r.entry_path == entry_path,
            r.options.as_map() == entry.inline_map().union_prefer_right(map_or_empty(global)),
    {
        let mut manifest = manifest;
        if manifest.version.unicode_len() == 0 {
            manifest.version = owned(package_version);
        }
        LoadedPlugin { manifest, package_path, entry_path, options: merge_options(entry, global) }
    }
}

/// The entry file of a package: the declared entry, else the package's main
/// file, else `index.js`.
pub open spec fn entry_file_of(declared: Seq<char>, main: Seq<char>) -> Seq<char> {
    if declared.len() > 0 {
        declared
    } else if main.len() > 0 {
        main
    } else {
        "index.js"@
    }
}

/// The entry file of a package: the declared entry, else the package's main
/// file, else `index.js`.
pub fn entry_file(declared: &str, package_main: &str) -> (r: String)
    ensures
        r@ == entry_file_of(declared@, package_main@),
{
    if declared.unicode_len() > 0 {
        owned(declared)
    } else if package_main.unicode_len() > 0 {
        owned(package_main)
    } else {
        owned("index.js")
    }
}

/// Checks a loaded plugin's declaration: a non-empty name, at least one hook,
/// and only hooks that its category has. The first failing check decides the error.
pub fn validate_manifest(plugin: &LoadedPlugin) -> (r: Result<(), PluginError>)
    ensures
        match r {
            Ok(()) => plugin.manifest.name@.len() > 0 && plugin.manifest.hooks@.len() > 0 && forall|
                i: int,
            |
                0 <= i < plugin.manifest.hooks@.len()
                    ==> plugin.manifest.category.allows_hook(plugin.manifest.hooks@[i]@),
            Err(PluginError::EmptyName { package_path }) => plugin.manifest.name@.len() == 0
                && package_path == plugin.package_path,
            Err(PluginError::NoHooks { name }) => plugin.manifest.name@.len() > 0
                && plugin.manifest.hooks@.len() == 0 && name == plugin.manifest.name,
            Err(PluginError::InvalidHook { name, hook, category }) => plugin.manifest.name@.len()
                > 0 && name == plugin.manifest.name && category == plugin.manifest.category
                && exists|i: int|
                0 <= i < plugin.manifest.hooks@.len() && plugin.manifest.hooks@[i] == hook
                    && !plugin.manifest.category.allows_hook(hook@) && forall|j: int|
                    0 <= j < i ==> plugin.manifest.category.allows_hook(
                        plugin.manifest.hooks@[j]@,
                    ),
            Err(_) => false,
        },
{
    let m = &plugin.manifest;
    if m.name.unicode_len() == 0 {
        return Err(PluginError::EmptyName { package_path: plugin.package_path.clone() });
    }
    if m.hooks.len() == 0 {
        return Err(PluginError::NoHooks { name: m.name.clone() });
    }
    let mut i: usize = 0;
    while i < m.hooks.len()
        invariant
            m == &plugin.manifest,
            m.name@.len() > 0,
            i <= m.hooks@.len(),
            forall|j: int| 0 <= j < i ==> m.category.allows_hook(m.hooks@[j]@),
        decreases m.hooks@.len() - i,
    {
        if !m.category.allows(m.hooks[i].as_str()) {
            let hook = m.hooks[i].clone();
            assert(plugin.manifest.hooks@[i as int] == hook);
            assert(!plugin.manifest.category.allows_hook(hook@));
            assert(exists|k: int|
                0 <= k < plugin.manifest.hooks@.len() && plugin.manifest.hooks@[k] == hook
                    && !plugin.manifest.category.allows_hook(hook@) && forall|j: int|
                    0 <= j < k ==> plugin.manifest.category.allows_hook(
                        plugin.manifest.hooks@[j]@,
                    )) by {
                assert(0 <= i < plugin.manifest.hooks@.len());
            }
            return Err(PluginError::InvalidHook { name: m.name.clone(), hook, category: m.category });
        }
        i = i + 1;
    }
    Ok(())
}

/// What a hook call reported: success, its data as JSON text, or an error message.
#[derive(Debug, Clone)]
pub struct PluginResult {
    /// Whether the hook ran successfully.
    pub success: bool,
    /// The hook's data, as JSON text, if any.
    pub data: Option<String>,
    /// The error message, if the hook failed.
    pub error: Option<String>,
}

impl PluginResult {
    /// A success carrying `data` (JSON text).
    pub fn ok(data: String) -> (r: Self)
        ensures
            r.success,
            r.data == Some(data),
            r.error is None,
    {
        PluginResult { success: true, data: Some(data), error: None }
    }

    /// A success without data.
    pub fn ok_empty() -> (r: Self)
        ensures
            r.success,
            r.data is None,
            r.error is None,
    {
        PluginResult { success: true, data: None, error: None }
    }

    /// A failure with `message`.
    pub fn err(message: &str) -> (r: Self)
        ensures
            !r.success,
            r.data is None,
            r.error matches Some(m) && m@ == message@,
    {
        PluginResult { success: false, data: None, error: Some(owned(message)) }
    }
}

} // verus!
