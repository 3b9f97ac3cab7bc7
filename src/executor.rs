//! The protocol for running one hook of an out-of-process plugin.
//!
//! A driver script loads the plugin's entry module, calls one hook with one
//! JSON argument (merging the plugin's options into it), and writes a single
//! JSON envelope line. The caller reads that line back and decides the outcome.

use vstd::prelude::*;
use crate::error::PluginError;
use crate::manifest::{LoadedPlugin, PluginResult};
use crate::options::{json_quoted, quote_json};
use crate::text::{join2, join3, owned};
use vstd::string::*;

verus! {

/// Opening of the driver script, up to the quoted entry path.
pub const SCRIPT_HEAD: &'static str = "\nconst plugin = require(";

/// Between the entry path and the input JSON.
pub const SCRIPT_INPUT: &'static str = ");\n\nasync function run() {\n    try {\n        const input = ";

/// Between the input JSON and the options JSON.
pub const SCRIPT_OPTIONS: &'static str = ";\n        const options = ";

/// Between the options JSON and the hook lookup.
pub const SCRIPT_CHECK: &'static str = ";\n\n        if (typeof input === 'object' && input !== null && !Array.isArray(input)) {\n            input.options = { ...options, ...input.options };\n        }\n\n        if (typeof plugin.";

/// Between the hook lookup and the name in the missing-hook error.
pub const SCRIPT_MISSING: &'static str = " !== 'function') {\n            throw new Error('Hook \"";

/// What the driver reports after the hook name when the plugin lacks the hook.
pub const NOT_IMPLEMENTED: &'static str = "\" is not implemented by this plugin";

/// Between the missing-hook error and the hook call.
pub const SCRIPT_CALL: &'static str = "');\n        }\n\n        const result = await plugin.";

/// After the hook call: the success and failure envelopes.
pub const SCRIPT_TAIL: &'static str = "(input);\n\n        console.log(JSON.stringify({\n            success: true,\n            data: result !== undefined ? result : null\n        }));\n    } catch (error) {\n        console.log(JSON.stringify({\n            success: false,\n            error: error.message || String(error)\n        }));\n        process.exit(1);\n    }\n}\n\nrun();\n";

/// The driver script for calling `hook` with `input` (JSON text), given the
/// quoted entry path and the options (JSON text).
pub open spec fn hook_script(
    entry_quoted: Seq<char>,
    input: Seq<char>,
    options: Seq<char>,
    hook: Seq<char>,
) -> Seq<char> {
    SCRIPT_HEAD@ + entry_quoted + SCRIPT_INPUT@ + input + SCRIPT_OPTIONS@ + options
        + SCRIPT_CHECK@ + hook + SCRIPT_MISSING@ + hook + NOT_IMPLEMENTED@ + SCRIPT_CALL@ + hook
        + SCRIPT_TAIL@
}

/// `s` with every backslash turned into a forward slash.
pub open spec fn forward_slashes(s: Seq<char>) -> Seq<char> {
    s.map_values(|c: char| if c == '\\' { '/' } else { c })
}

fn to_forward_slashes(s: &str) -> (r: String)
    ensures
        r@ == forward_slashes(s@),
{
    let n = s.unicode_len();
    let mut out = String::new();
    let mut i: usize = 0;
    while i < n
        invariant
            n == s@.len(),
            i <= n,
            out@ == forward_slashes(s@.subrange(0, i as int)),
        decreases n - i,
    {
        let ghost before = out@;
        if s.get_char(i) == '\\' {
            out.append("/");
            proof {
                reveal_strlit("/");
            }
        } else {
            out.append(s.substring_char(i, i + 1));
        }
        assert(forward_slashes(s@.subrange(0, i + 1)) =~= forward_slashes(s@.subrange(0, i as int))
            + forward_slashes(s@.subrange(i as int, i + 1)));
        i = i + 1;
    }
    assert(s@.subrange(0, n as int) =~= s@);
    out
}

/// The driver script that calls `hook_name` of `plugin` with `input_json`.
/// The entry path is written with forward slashes as a JSON string, and the
/// plugin's options as a JSON object.
pub fn generate_hook_script(plugin: &LoadedPlugin, hook_name: &str, input_json: &str) -> (r: String)
    ensures
        r@ == hook_script(
            json_quoted(forward_slashes(plugin.entry_path@)),
            input_json@,
            seq!['{'] + crate::options::render_members(plugin.options.entries@) + seq!['}'],
            hook_name@,
        ),
{
    let entry = to_forward_slashes(plugin.entry_path.as_str());
    let quoted = quote_json(entry.as_str());
    let options = plugin.options.to_json();
    let a = join3(SCRIPT_HEAD, quoted.as_str(), SCRIPT_INPUT);
    let b = join3(a.as_str(), input_json, SCRIPT_OPTIONS);
    let c = join3(b.as_str(), options.as_str(), SCRIPT_CHECK);
    let d = join3(c.as_str(), hook_name, SCRIPT_MISSING);
    let e = join3(d.as_str(), hook_name, NOT_IMPLEMENTED);
    let f = join3(e.as_str(), SCRIPT_CALL, hook_name);
    join2(f.as_str(), SCRIPT_TAIL)
}

/// Every driver script names the hook and then, right after it, the text it
/// reports when the plugin does not implement that hook.
pub proof fn lemma_script_reports_missing_hook(
    entry_quoted: Seq<char>,
    input: Seq<char>,
    options: Seq<char>,
    hook: Seq<char>,
)
    ensures
        ({
            let s = hook_script(entry_quoted, input, options, hook);
            let k = (SCRIPT_HEAD@ + entry_quoted + SCRIPT_INPUT@ + input + SCRIPT_OPTIONS@ + options
                + SCRIPT_CHECK@ + hook + SCRIPT_MISSING@ + hook).len();
            s.subrange(k as int, (k + NOT_IMPLEMENTED@.len()) as int) == NOT_IMPLEMENTED@
        }),
{
    let pre = SCRIPT_HEAD@ + entry_quoted + SCRIPT_INPUT@ + input + SCRIPT_OPTIONS@ + options
        + SCRIPT_CHECK@ + hook + SCRIPT_MISSING@ + hook;
    let s = hook_script(entry_quoted, input, options, hook);
    assert(s == pre + NOT_IMPLEMENTED@ + (SCRIPT_CALL@ + hook + SCRIPT_TAIL@)) by {
        assert(s =~= pre + NOT_IMPLEMENTED@ + (SCRIPT_CALL@ + hook + SCRIPT_TAIL@));
    }
    assert(s.subrange(pre.len() as int, (pre.len() + NOT_IMPLEMENTED@.len()) as int) =~= NOT_IMPLEMENTED@);
}

/// How `Option<i32>`'s `Debug` formatting writes an exit code.
pub uninterp spec fn exit_code_text(code: Option<i32>) -> Seq<char>;

/// Relies on `Option<i32>`'s `Debug` formatting (`Some(1)`, `None`), to name
/// the exit code in messages.
#[verifier::external_body]
fn exit_code_debug(code: Option<i32>) -> (r: String)
    ensures
        r@ == exit_code_text(code),
{
    format!("{:?}", code)
}

/// What a finished driver process produced.
#[derive(Debug, Clone)]
pub struct ProcessOutput {
    /// Standard output, with surrounding whitespace removed.
    pub stdout: String,
    /// Whether the process exited successfully.
    pub exited_ok: bool,
    /// The exit code, if the process exited with one.
    pub exit_code: Option<i32>,
    /// Standard error, as text.
    pub stderr: String,
}

/// The hook result that a driver process amounts to. `envelope` is the
/// standard output read as an envelope (none when it is not one), and
/// `parse_error` says why it is not.
///
/// Empty output is a success without data when the process exited
/// successfully, and otherwise a failure naming the exit code and standard
/// error. Output that is an envelope is taken as it is. Other output is a
/// failure that quotes it, with the exit code when the process failed.
pub open spec fn process_outcome(
    out: ProcessOutput,
    envelope: Option<PluginResult>,
    parse_error: Seq<char>,
    r: PluginResult,
) -> bool {
    if out.stdout@.len() == 0 {
        if out.exited_ok {
            r.success && r.data is None && r.error is None
        } else {
            &&& !r.success
            &&& r.data is None
            &&& (r.error matches Some(m) && m@ == "Plugin process exited with code "@
                + exit_code_text(out.exit_code) + ". Stderr: "@ + out.stderr@)
        }
    } else {
        match envelope {
            Some(e) => r == e,
            None => {
                &&& !r.success
                &&& r.data is None
                &&& (r.error matches Some(m) && m@ == if !out.exited_ok {
                    "Plugin failed (exit code "@ + exit_code_text(out.exit_code) + "). Output: "@
                        + out.stdout@ + ". Stderr: "@ + out.stderr@
                } else {
                    "Failed to parse plugin output as JSON: "@ + parse_error + ". Output was: "@
                        + out.stdout@
                })
            },
        }
    }
}

/// Decides what a finished driver process amounts to.
pub fn interpret_process(
    out: &ProcessOutput,
    envelope: Option<PluginResult>,
    parse_error: &str,
) -> (r: PluginResult)
    ensures
        process_outcome(*out, envelope, parse_error@, r),
{
    if out.stdout.unicode_len() == 0 {
        if out.exited_ok {
            return PluginResult::ok_empty();
        }
        let code = exit_code_debug(out.exit_code);
        let a = join3("Plugin process exited with code ", code.as_str(), ". Stderr: ");
        let m = join2(a.as_str(), out.stderr.as_str());
        return PluginResult::err(m.as_str());
    }
    match envelope {
        Some(e) => e,
        None => {
            if !out.exited_ok {
                let code = exit_code_debug(out.exit_code);
                let a = join3("Plugin failed (exit code ", code.as_str(), "). Output: ");
                let b = join3(a.as_str(), out.stdout.as_str(), ". Stderr: ");
                let m = join2(b.as_str(), out.stderr.as_str());
                PluginResult::err(m.as_str())
            } else {
                let a = join3("Failed to parse plugin output as JSON: ", parse_error, ". Output was: ");
                let m = join2(a.as_str(), out.stdout.as_str());
                PluginResult::err(m.as_str())
            }
        },
    }
}

/// What a hook call yields for the caller: its data (JSON text, if any) on
/// success, or a failure naming the plugin and hook with the reported message
/// (`Unknown error` when none was reported).
pub open spec fn hook_outcome_of(
    plugin: Seq<char>,
    hook: Seq<char>,
    result: PluginResult,
    r: Result<Option<String>, PluginError>,
) -> bool {
    if result.success {
        r == Ok::<Option<String>, PluginError>(result.data)
    } else {
        r matches Err(PluginError::HookFailed { plugin: p, hook: h, message }) && p@ == plugin && h@
            == hook && message@ == match result.error {
            Some(m) => m@,
            None => "Unknown error"@,
        }
    }
}

/// Turns a hook result into the caller's outcome.
pub fn hook_outcome(plugin: &LoadedPlugin, hook_name: &str, result: PluginResult) -> (r: Result<
    Option<String>,
    PluginError,
>)
    ensures
        hook_outcome_of(plugin.manifest.name@, hook_name@, result, r),
{
    if result.success {
        Ok(result.data)
    } else {
        let message = match result.error {
            Some(m) => m,
            None => owned("Unknown error"),
        };
        Err(
            PluginError::HookFailed {
                plugin: owned(plugin.name()),
                hook: owned(hook_name),
                message,
            },
        )
    }
}

/// The error for hook data that does not have the shape the caller expects.
pub fn output_mismatch(plugin: &LoadedPlugin, hook_name: &str) -> (r: PluginError)
    ensures
        r matches PluginError::HookOutputMismatch { plugin: p, hook: h } && p@
            == plugin.manifest.name@ && h@ == hook_name@,
{
    PluginError::HookOutputMismatch { plugin: owned(plugin.name()), hook: owned(hook_name) }
}

/// A hook that throws yields a failure whose message ends with the thrown
/// message; a hook that returns nothing (empty output, successful exit)
/// yields success with no data.
pub proof fn lemma_hook_failures_carry_message(
    plugin: Seq<char>,
    hook: Seq<char>,
    out: ProcessOutput,
    envelope: Option<PluginResult>,
    parse_error: Seq<char>,
    result: PluginResult,
    r: Result<Option<String>, PluginError>,
)
    requires
        process_outcome(out, envelope, parse_error, result),
        hook_outcome_of(plugin, hook, result, r),
    ensures
        (out.stdout@.len() > 0 && envelope is Some && !envelope->Some_0.success
            && envelope->Some_0.error is Some) ==> (r is Err && crate::error::error_text(r->Err_0)
            == "Plugin '"@ + plugin + "' hook '"@ + hook + "' failed: "@
            + envelope->Some_0.error->Some_0@),
        out.stdout@.len() == 0 && out.exited_ok ==> r == Ok::<Option<String>, PluginError>(None),
{
}

} // verus!
