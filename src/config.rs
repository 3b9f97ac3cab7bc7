//! The configuration the comparison pipeline runs with.

use vstd::prelude::*;
use crate::image_diff::Threshold;
use crate::options::{PluginEntry, PluginOptions};
use crate::text::{copy_opt_text, owned};

verus! {

/// Viewport dimensions for screenshots.
#[derive(Debug, Clone, Copy, PartialEq, Eq, Structural)]
pub struct Viewport {
    /// Width in pixels.
    pub width: u32,
    /// Height in pixels.
    pub height: u32,
}

impl Default for Viewport {
    fn default() -> (r: Self)
        ensures
            r.width == 1280,
            r.height == 720,
    {
        Viewport { width: default_viewport_width(), height: default_viewport_height() }
    }
}

/// A named viewport; each shot is captured at each one, as `{shot}@{viewport}`.
#[derive(Debug, Clone)]
pub struct NamedViewport {
    /// Unique viewport name (`desktop`, `mobile`, ...).
    pub name: String,
    /// Width in pixels.
    pub width: u32,
    /// Height in pixels.
    pub height: u32,
}

impl NamedViewport {
    /// A field-by-field copy.
    pub fn copy(&self) -> (r: Self)
        ensures
            r == *self,
    {
        NamedViewport { name: self.name.clone(), width: self.width, height: self.height }
    }
}

/// One screenshot to take.
#[derive(Debug, Clone)]
pub struct Shot {
    /// Unique shot name.
    pub name: String,
    /// URL path to open.
    pub path: String,
    /// CSS selector to wait for before capturing.
    pub wait_for: Option<String>,
    /// Delay in milliseconds after the page loads.
    pub delay: Option<u64>,
}

impl Shot {
    /// A field-by-field copy.
    pub fn copy(&self) -> (r: Self)
        ensures
            r == *self,
    {
        Shot {
            name: self.name.clone(),
            path: self.path.clone(),
            wait_for: copy_opt_text(&self.wait_for),
            delay: self.delay,
        }
    }
}

/// The default shot name patterns: everything.
pub fn default_include() -> (r: Vec<String>)
    ensures
        r@.len() == 1,
        r@[0]@ == "**/*"@,
{
    let mut v: Vec<String> = Vec::new();
    v.push(owned("**/*"));
    v
}

/// The default shot-level threshold, 0.01.
pub fn default_threshold() -> (r: Threshold)
    ensures
        r.millionths == 10_000,
{
    Threshold { millionths: 10_000 }
}

/// The default output directory.
pub fn default_output_dir() -> (r: String)
    ensures
        r@ == ".pixelguard"@,
{
    owned(".pixelguard")
}

/// The default number of concurrent captures.
pub fn default_concurrency() -> (r: usize)
    ensures
        r == 4,
{
    4
}

/// The default viewport width.
pub fn default_viewport_width() -> (r: u32)
    ensures
        r == 1280,
{
    1280
}

/// The default viewport height.
pub fn default_viewport_height() -> (r: u32)
    ensures
        r == 720,
{
    720
}

/// The pipeline's configuration.
#[derive(Debug, Clone)]
pub struct Config {
    /// Source type (`storybook`, `nextjs`, `vite`, `manual`).
    pub source: String,
    /// Base URL of the dev server.
    pub base_url: String,
    /// Port to use for dev server detection.
    pub port: Option<u16>,
    /// Shot name patterns to keep.
    pub includes: Vec<String>,
    /// Shot name patterns to exclude.
    pub exclude: Vec<String>,
    /// Viewport used when no named viewports are configured.
    pub viewport: Viewport,
    /// Named viewports for multi-viewport runs.
    pub viewports: Vec<NamedViewport>,
    /// Shot-level threshold.
    pub threshold: Threshold,
    /// Output directory for screenshots and reports.
    pub output_dir: String,
    /// Number of concurrent captures.
    pub concurrency: usize,
    /// Shots to capture.
    pub shots: Vec<Shot>,
    /// Plugins to load, in order.
    pub plugins: Vec<PluginEntry>,
    /// Options per plugin name (a later entry for a name wins).
    pub plugin_options: Vec<(String, PluginOptions)>,
}

impl Default for Config {
    fn default() -> (r: Self)
        ensures
            r.source@.len() == 0,
            r.base_url@.len() == 0,
            r.port is None,
            r.includes@.len() == 1 && r.includes@[0]@ == "**/*"@,
            r.exclude@.len() == 0,
            r.viewport == (Viewport { width: 1280, height: 720 }),
            r.viewports@.len() == 0,
            r.threshold.millionths == 10_000,
            r.output_dir@ == ".pixelguard"@,
            r.concurrency == 4,
            r.shots@.len() == 0,
            r.plugins@.len() == 0,
            r.plugin_options@.len() == 0,
    {
        Config {
            source: String::new(),
            base_url: String::new(),
            port: None,
            includes: default_include(),
            exclude: Vec::new(),
            viewport: Viewport::default(),
            viewports: Vec::new(),
            threshold: default_threshold(),
            output_dir: default_output_dir(),
            concurrency: default_concurrency(),
            shots: Vec::new(),
            plugins: Vec::new(),
            plugin_options: Vec::new(),
        }
    }
}

/// The viewports a run uses: the named ones, or else one named `default`
/// with the plain viewport's size.
pub open spec fn effective_viewports_ok(c: Config, r: Seq<NamedViewport>) -> bool {
    if c.viewports@.len() > 0 {
        r == c.viewports@
    } else {
        r.len() == 1 && r[0].name@ == "default"@ && r[0].width == c.viewport.width && r[0].height
            == c.viewport.height
    }
}

impl Config {
    /// A configuration with default values.
    pub fn new() -> (r: Self)
        ensures
            r.threshold.millionths == 10_000,
            r.output_dir@ == ".pixelguard"@,
            r.viewport == (Viewport { width: 1280, height: 720 }),
    {
        Config::default()
    }

    /// The viewports a run uses: the named ones, or else one named `default`
    /// with the plain viewport's size.
    pub fn effective_viewports(&self) -> (r: Vec<NamedViewport>)
        ensures
            effective_viewports_ok(*self, r@),
    {
        let mut out: Vec<NamedViewport> = Vec::new();
        if self.viewports.len() > 0 {
            let mut i: usize = 0;
            while i < self.viewports.len()
                invariant
                    i <= self.viewports@.len(),
                    out@ == self.viewports@.subrange(0, i as int),
                decreases self.viewports@.len() - i,
            {
                out.push(self.viewports[i].copy());
                i = i + 1;
            }
            assert(out@ =~= self.viewports@);
        } else {
            out.push(
                NamedViewport {
                    name: owned("default"),
                    width: self.viewport.width,
                    height: self.viewport.height,
                },
            );
        }
        out
    }
}

} // verus!
