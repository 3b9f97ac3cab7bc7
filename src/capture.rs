//! The outcome of a capture pass, and where its screenshots live.

use vstd::prelude::*;
use crate::config::Config;
use crate::plugin_io::CaptureOutput;
use crate::resolver::{join_dir, join_path};

verus! {

/// A screenshot that was taken.
#[derive(Debug, Clone)]
pub struct CapturedShot {
    /// Shot name.
    pub name: String,
    /// Path of the screenshot file.
    pub path: String,
}

/// A shot that could not be taken.
#[derive(Debug, Clone)]
pub struct FailedShot {
    /// Shot name.
    pub name: String,
    /// What went wrong.
    pub error: String,
}

/// The outcome of a capture pass.
#[derive(Debug, Clone)]
pub struct CaptureResult {
    /// Screenshots taken.
    pub captured: Vec<CapturedShot>,
    /// Shots that failed.
    pub failed: Vec<FailedShot>,
}

impl CaptureResult {
    /// The outcome a capture plugin reported, shot for shot.
    pub fn from_output(out: CaptureOutput) -> (r: Self)
        ensures
            r.captured@.len() == out.captured@.len(),
            forall|i: int|
                0 <= i < r.captured@.len() ==> r.captured@[i].name == out.captured@[i].name
                    && r.captured@[i].path == out.captured@[i].path,
            r.failed@.len() == out.failed@.len(),
            forall|i: int|
                0 <= i < r.failed@.len() ==> r.failed@[i].name == out.failed@[i].name
                    && r.failed@[i].error == out.failed@[i].error,
    {
        let mut captured: Vec<CapturedShot> = Vec::new();
        let mut i: usize = 0;
        while i < out.captured.len()
            invariant
                i <= out.captured@.len(),
                captured@.len() == i,
                forall|j: int|
                    0 <= j < i ==> captured@[j].name == out.captured@[j].name
                        && captured@[j].path == out.captured@[j].path,
            decreases out.captured@.len() - i,
        {
            captured.push(
                CapturedShot {
                    name: out.captured[i].name.clone(),
                    path: out.captured[i].path.clone(),
                },
            );
            i = i + 1;
        }
        let mut failed: Vec<FailedShot> = Vec::new();
        let mut j: usize = 0;
        while j < out.failed.len()
            invariant
                j <= out.failed@.len(),
                failed@.len() == j,
                forall|k: int|
                    0 <= k < j ==> failed@[k].name == out.failed@[k].name && failed@[k].error
                        == out.failed@[k].error,
            decreases out.failed@.len() - j,
        {
            failed.push(
                FailedShot { name: out.failed[j].name.clone(), error: out.failed[j].error.clone() },
            );
            j = j + 1;
        }
        CaptureResult { captured, failed }
    }
}

/// The baseline and current screenshot directories of a configuration,
/// under `working_dir`.
pub fn get_screenshot_dirs(config: &Config, working_dir: &str) -> (r: (String, String))
    ensures
        r.0@ == join_dir(join_dir(working_dir@, config.output_dir@), "baseline"@),
        r.1@ == join_dir(join_dir(working_dir@, config.output_dir@), "current"@),
{
    let out = join_path(working_dir, config.output_dir.as_str());
    (join_path(out.as_str(), "baseline"), join_path(out.as_str(), "current"))
}

} // verus!
