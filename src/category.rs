//! Plugin categories and the hooks each one may declare.

use vstd::prelude::*;
use crate::text::same_text;

verus! {

/// The role a plugin fills.
#[derive(Debug, Clone, Copy, PartialEq, Eq, Hash, Structural)]
pub enum PluginCategory {
    /// Where baselines are stored.
    Storage,
    /// Extra report formats.
    Reporter,
    /// Alternative screenshot engines.
    Capture,
    /// Alternative image comparison algorithms.
    Differ,
    /// Result notifications.
    Notifier,
}

impl PluginCategory {
    /// Whether every registered plugin of this category runs (as opposed to
    /// only the most recently registered one).
    pub open spec fn stacks(self) -> bool {
        self is Notifier || self is Reporter
    }

    /// Whether several plugins of this category can be active at once.
    pub fn can_stack(&self) -> (r: bool)
        ensures
            r == self.stacks(),
    {
        match self {
            PluginCategory::Notifier | PluginCategory::Reporter => true,
            _ => false,
        }
    }

    /// Whether a plugin of this category may declare the hook `h`.
    pub open spec fn allows_hook(self, h: Seq<char>) -> bool {
        match self {
            PluginCategory::Storage => h == "read"@ || h == "write"@ || h == "exists"@ || h
                == "list"@ || h == "delete"@,
            PluginCategory::Reporter => h == "generate"@,
            PluginCategory::Capture => h == "capture"@,
            PluginCategory::Differ => h == "compare"@,
            PluginCategory::Notifier => h == "notify"@,
        }
    }

    /// Whether a plugin of this category may declare `hook`.
    pub fn allows(&self, hook: &str) -> (r: bool)
        ensures
            r == self.allows_hook(hook@),
    {
        match self {
            PluginCategory::Storage => same_text(hook, "read") || same_text(hook, "write")
                || same_text(hook, "exists") || same_text(hook, "list") || same_text(
                hook,
                "delete",
            ),
            PluginCategory::Reporter => same_text(hook, "generate"),
            PluginCategory::Capture => same_text(hook, "capture"),
            PluginCategory::Differ => same_text(hook, "compare"),
            PluginCategory::Notifier => same_text(hook, "notify"),
        }
    }

    /// The lower-case token that names the category in a manifest.
    pub open spec fn token(self) -> Seq<char> {
        match self {
            PluginCategory::Storage => "storage"@,
            PluginCategory::Reporter => "reporter"@,
            PluginCategory::Capture => "capture"@,
            PluginCategory::Differ => "differ"@,
            PluginCategory::Notifier => "notifier"@,
        }
    }

    /// The lower-case token that names the category in a manifest.
    pub fn as_str(&self) -> (r: &'static str)
        ensures
            r@ == self.token(),
    {
        match self {
            PluginCategory::Storage => "storage",
            PluginCategory::Reporter => "reporter",
            PluginCategory::Capture => "capture",
            PluginCategory::Differ => "differ",
            PluginCategory::Notifier => "notifier",
        }
    }

    /// The hooks of the category, as a list for messages.
    pub open spec fn hook_list(self) -> Seq<char> {
        match self {
            PluginCategory::Storage => "read, write, exists, list, delete"@,
            PluginCategory::Reporter => "generate"@,
            PluginCategory::Capture => "capture"@,
            PluginCategory::Differ => "compare"@,
            PluginCategory::Notifier => "notify"@,
        }
    }

    /// The hooks of the category, as a list for messages.
    pub fn hooks_text(&self) -> (r: &'static str)
        ensures
            r@ == self.hook_list(),
    {
        match self {
            PluginCategory::Storage => "read, write, exists, list, delete",
            PluginCategory::Reporter => "generate",
            PluginCategory::Capture => "capture",
            PluginCategory::Differ => "compare",
            PluginCategory::Notifier => "notify",
        }
    }
}

} // verus!
