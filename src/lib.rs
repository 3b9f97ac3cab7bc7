//! Visual-regression comparison engine with an out-of-process plugin framework.
//!
//! Two sets of rasterised snapshots (current and baseline) become a report of
//! unchanged, changed, added and removed shots. Storage, capture, comparison,
//! reporting and notification can each be taken over by plugins: packages that
//! declare a category and hooks, and that run in a separate Node.js process
//! which answers each hook call with one JSON envelope line.
//!
//! - [`category`], [`manifest`], [`options`], [`error`]: plugin declarations,
//!   their validation, option merging and the error taxonomy.
//! - [`resolver`]: where a plugin identifier may live, and which candidate wins.
//! - [`registry`]: loaded plugins by category (single-winner or stackable) and by name.
//! - [`executor`]: the driver script and the decision table for its output.
//! - [`image_diff`], [`diff`]: pixel comparison, shot-set reconciliation and the
//!   categorised result.
//! - [`storage`]: artifact paths and routing storage operations to a plugin.
//! - [`config`], [`shots`], [`detect`], [`capture`], [`plugin_io`], [`report`]:
//!   configuration, shot selection and the smaller pieces around them.
//! - [`text`]: verified helpers over text.

pub mod category;
pub mod text;
pub mod options;
pub mod error;
pub mod manifest;
pub mod registry;
pub mod image_diff;
pub mod storage;
pub mod diff;
pub mod executor;
pub mod config;
pub mod shots;
pub mod detect;
pub mod report;
pub mod resolver;
pub mod plugin_io;
pub mod capture;
