//! The request and response shapes of capture and reporter hooks.

use vstd::prelude::*;
use crate::config::{Shot, Viewport};
use crate::text::copy_opt_text;

verus! {

/// A shot as a capture plugin receives it.
#[derive(Debug, Clone)]
pub struct CaptureShot {
    /// Shot name.
    pub name: String,
    /// URL path.
    pub path: String,
    /// CSS selector to wait for.
    pub wait_for: Option<String>,
    /// Delay in milliseconds.
    pub delay: Option<u64>,
}

/// The viewport a capture plugin receives.
#[derive(Debug, Clone, Copy, PartialEq, Eq, Structural)]
pub struct CaptureViewport {
    /// Width in pixels.
    pub width: u32,
    /// Height in pixels.
    pub height: u32,
}

/// A shot a capture plugin took.
#[derive(Debug, Clone)]
pub struct CapturedShot {
    /// Shot name.
    pub name: String,
    /// Path of the screenshot file.
    pub path: String,
}

/// A shot a capture plugin could not take.
#[derive(Debug, Clone)]
pub struct FailedShot {
    /// Shot name.
    pub name: String,
    /// What went wrong.
    pub error: String,
}

/// What a capture plugin returns.
#[derive(Debug, Clone)]
pub struct CaptureOutput {
    /// Shots taken.
    pub captured: Vec<CapturedShot>,
    /// Shots that failed.
    pub failed: Vec<FailedShot>,
}

/// What a reporter plugin may return.
#[derive(Debug, Clone)]
pub struct ReporterOutput {
    /// Path of a generated local report.
    pub report_path: Option<String>,
    /// URL of a hosted report.
    pub report_url: Option<String>,
}

/// The capture-plugin form of a configured shot.
pub open spec fn capture_shot_of(s: Shot) -> CaptureShot {
    CaptureShot { name: s.name, path: s.path, wait_for: s.wait_for, delay: s.delay }
}

/// The configured shots in the form a capture plugin receives.
pub fn capture_shots(shots: &Vec<Shot>) -> (r: Vec<CaptureShot>)
    ensures
        r@.len() == shots@.len(),
        forall|i: int| 0 <= i < r@.len() ==> r@[i] == capture_shot_of(shots@[i]),
{
    let mut out: Vec<CaptureShot> = Vec::new();
    let mut i: usize = 0;
    while i < shots.len()
        invariant
            i <= shots@.len(),
            out@.len() == i,
            forall|j: int| 0 <= j < i ==> out@[j] == capture_shot_of(shots@[j]),
        decreases shots@.len() - i,
    {
        let s = &shots[i];
        out.push(
            CaptureShot {
                name: s.name.clone(),
                path: s.path.clone(),
                wait_for: copy_opt_text(&s.wait_for),
                delay: s.delay,
            },
        );
        i = i + 1;
    }
    out
}

/// The capture-plugin form of a viewport.
pub fn capture_viewport(v: Viewport) -> (r: CaptureViewport)
    ensures
        r.width == v.width,
        r.height == v.height,
{
    CaptureViewport { width: v.width, height: v.height }
}

} // verus!
