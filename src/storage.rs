//! Artifact paths under the output directory, and the storage abstraction
//! that routes reads and writes to the local filesystem or to a storage plugin.

use vstd::prelude::*;
use base64::Engine;
use crate::category::PluginCategory;
use crate::manifest::LoadedPlugin;
use crate::options::{json_quoted, quote_json};
use crate::registry::{opt_ref_info, PluginRegistry};
use crate::text::{join3, owned};

verus! {

/// `baseline/{name}.png`
pub open spec fn baseline_path_of(name: Seq<char>) -> Seq<char> {
    "baseline/"@ + name + ".png"@
}

/// `current/{name}.png`
pub open spec fn current_path_of(name: Seq<char>) -> Seq<char> {
    "current/"@ + name + ".png"@
}

/// `diff/{name}.png`
pub open spec fn diff_path_of(name: Seq<char>) -> Seq<char> {
    "diff/"@ + name + ".png"@
}

/// The baseline image of a shot, relative to the output directory.
pub fn baseline_path(name: &str) -> (r: String)
    ensures
        r@ == baseline_path_of(name@),
{
    join3("baseline/", name, ".png")
}

/// The current image of a shot, relative to the output directory.
pub fn current_path(name: &str) -> (r: String)
    ensures
        r@ == current_path_of(name@),
{
    join3("current/", name, ".png")
}

/// The diff image of a shot, relative to the output directory.
pub fn diff_path(name: &str) -> (r: String)
    ensures
        r@ == diff_path_of(name@),
{
    join3("diff/", name, ".png")
}

/// The standard, padded base64 text of some bytes.
pub uninterp spec fn base64_of(b: Seq<u8>) -> Seq<char>;

/// The bytes a standard, padded base64 text decodes to, or none if it is not
/// valid base64.
pub uninterp spec fn base64_decoded(s: Seq<char>) -> Option<Seq<u8>>;

/// Relies on `base64`'s `STANDARD` engine `encode`: the padded base64 text of
/// `b`. It panics only when the encoded length overflows `usize`, which the
/// bound on `b` rules out.
#[verifier::external_body]
fn encode_base64(b: &[u8]) -> (r: String)
    requires
        b@.len() <= usize::MAX / 2,
    ensures
        r@ == base64_of(b@),
{
    base64::engine::general_purpose::STANDARD.encode(b)
}

/// Relies on `base64`'s `STANDARD` engine `decode`: the decoded bytes, or an
/// error for text that is not valid padded base64.
#[verifier::external_body]
fn decode_base64(s: &str) -> (r: Option<Vec<u8>>)
    ensures
        match r {
            Some(v) => base64_decoded(s@) == Some(v@),
            None => base64_decoded(s@) is None,
        },
{
    match base64::engine::general_purpose::STANDARD.decode(s) {
        Ok(v) => Some(v),
        Err(_) => None,
    }
}

/// `{"path":<path>,"options":null}`, or with a `"data"` member before the options.
pub open spec fn storage_request_of(path: Seq<char>, data: Option<Seq<char>>) -> Seq<char> {
    match data {
        Some(d) => "{\"path\":"@ + json_quoted(path) + ",\"data\":"@ + json_quoted(d)
            + ",\"options\":null}"@,
        None => "{\"path\":"@ + json_quoted(path) + ",\"options\":null}"@,
    }
}

/// The request of a storage hook: the relative path, and for writes the data
/// as base64.
pub fn storage_request(path: &str, data: Option<&str>) -> (r: String)
    ensures
        r@ == storage_request_of(
            path@,
            match data {
                Some(d) => Some(d@),
                None => None,
            },
        ),
{
    let quoted = quote_json(path);
    match data {
        Some(d) => {
            let a = join3("{\"path\":", quoted.as_str(), ",\"data\":");
            let b = quote_json(d);
            join3(a.as_str(), b.as_str(), ",\"options\":null}")
        },
        None => join3("{\"path\":", quoted.as_str(), ",\"options\":null}"),
    }
}

/// What a storage hook may return.
#[derive(Debug, Clone)]
pub struct StorageOutput {
    /// Base64 data, for reads.
    pub data: Option<String>,
    /// Whether the file exists, for existence checks.
    pub exists: Option<bool>,
    /// File names, for listings.
    pub files: Option<Vec<String>>,
}

/// A failure of a storage operation.
#[derive(Debug, Clone, PartialEq, Eq, Structural)]
pub enum StorageError {
    /// The plugin's read returned no data.
    MissingData,
    /// The plugin's data is not valid base64.
    InvalidBase64,
}

impl StorageError {
    /// A human-readable description.
    pub fn message(&self) -> (r: &'static str)
        ensures
            r@ == match self {
                StorageError::MissingData => "Plugin did not return data for read operation"@,
                StorageError::InvalidBase64 => "Failed to decode base64 data from plugin"@,
            },
    {
        match self {
            StorageError::MissingData => "Plugin did not return data for read operation",
            StorageError::InvalidBase64 => "Failed to decode base64 data from plugin",
        }
    }
}

/// The bytes a plugin's `read` returned: its base64 data decoded.
pub fn read_output_bytes(out: &StorageOutput) -> (r: Result<Vec<u8>, StorageError>)
    ensures
        match out.data {
            None => r == Err::<Vec<u8>, StorageError>(StorageError::MissingData),
            Some(d) => match base64_decoded(d@) {
                Some(b) => r matches Ok(v) && v@ == b,
                None => r == Err::<Vec<u8>, StorageError>(StorageError::InvalidBase64),
            },
        },
{
    match &out.data {
        None => Err(StorageError::MissingData),
        Some(d) => match decode_base64(d.as_str()) {
            Some(v) => Ok(v),
            None => Err(StorageError::InvalidBase64),
        },
    }
}

/// Whether a plugin's `exists` reported the file as present (absent when it
/// did not say).
pub fn exists_output(out: &StorageOutput) -> (r: bool)
    ensures
        r == (out.exists == Some(true)),
{
    match out.exists {
        Some(b) => b,
        None => false,
    }
}

/// The files a plugin's `list` reported (none when it did not say).
pub fn list_output(out: StorageOutput) -> (r: Vec<String>)
    ensures
        r@ == match out.files {
            Some(f) => f@,
            None => Seq::<String>::empty(),
        },
{
    match out.files {
        Some(f) => f,
        None => Vec::new(),
    }
}

/// One thing a storage operation asks to be done.
#[derive(Debug, Clone)]
pub enum StorageStep {
    /// Call a hook of the storage plugin with a request (JSON text).
    CallHook {
        /// The hook to call.
        hook: String,
        /// The request.
        request: String,
    },
    /// Read a local file.
    ReadFile {
        /// The full path.
        path: String,
    },
    /// Write a local file, creating its parent directories.
    WriteFile {
        /// The full path.
        path: String,
    },
    /// Copy a local file, creating the destination's parent directories.
    CopyFile {
        /// The source path.
        from: String,
        /// The destination path.
        to: String,
    },
}

/// `step` calls the plugin hook `hook` with the request `request`.
pub open spec fn plugin_call(step: StorageStep, hook: Seq<char>, request: Seq<char>) -> bool {
    step matches StorageStep::CallHook { hook: h, request: r } && h@ == hook && r@ == request
}

/// `step` touches the local filesystem.
pub open spec fn local_file_step(step: StorageStep) -> bool {
    step is ReadFile || step is WriteFile || step is CopyFile
}

/// Baseline storage rooted at an output directory, served by the local
/// filesystem or, when one is registered, by a storage plugin.
pub struct Storage<'a> {
    base_dir: String,
    plugin: Option<&'a LoadedPlugin>,
    working_dir: String,
}

/// `base/rel`
pub open spec fn joined(base: Seq<char>, rel: Seq<char>) -> Seq<char> {
    base + "/"@ + rel
}

impl<'a> Storage<'a> {
    /// The base directory.
    pub closed spec fn base_view(&self) -> Seq<char> {
        self.base_dir@
    }

    /// Whether a plugin serves this storage.
    pub closed spec fn remote(&self) -> bool {
        self.plugin is Some
    }

    /// `r` is the step that writes `data` to `rel`.
    pub open spec fn writes_as(&self, rel: Seq<char>, data: Seq<u8>, r: StorageStep) -> bool {
        &&& self.remote() ==> plugin_call(r, "write"@, storage_request_of(rel, Some(base64_of(data))))
        &&& !self.remote() ==> (r matches StorageStep::WriteFile { path } && path@ == joined(
            self.base_view(),
            rel,
        ))
    }

    /// `r` is the first step of copying `from` to `to`.
    pub open spec fn copies_as(&self, from: Seq<char>, to: Seq<char>, r: StorageStep) -> bool {
        &&& self.remote() ==> plugin_call(r, "read"@, storage_request_of(from, None))
        &&& !self.remote() ==> (r matches StorageStep::CopyFile { from: f, to: t } && f@ == joined(
            self.base_view(),
            from,
        ) && t@ == joined(self.base_view(), to))
    }

    /// Storage rooted at `base_dir`, using the registry's storage plugin if it
    /// has one.
    pub fn new(base_dir: String, working_dir: String, registry: Option<&'a PluginRegistry>) -> (r: Self)
        ensures
            r.base_view() == base_dir@,
            r.remote() == (registry matches Some(reg) && reg@.get(PluginCategory::Storage) is Some),
    {
        let plugin = match registry {
            Some(reg) => reg.get(PluginCategory::Storage),
            None => None,
        };
        proof {
            if let Some(reg) = registry {
                assert(opt_ref_info(plugin) == reg@.get(PluginCategory::Storage));
            }
        }
        Storage { base_dir, plugin, working_dir }
    }

    /// Local-only storage rooted at `base_dir`.
    pub fn local(base_dir: String) -> (r: Self)
        ensures
            r.base_view() == base_dir@,
            !r.remote(),
    {
        let working_dir = base_dir.clone();
        Storage { base_dir, plugin: None, working_dir }
    }

    /// Whether a plugin serves this storage.
    pub fn is_remote(&self) -> (r: bool)
        ensures
            r == self.remote(),
    {
        self.plugin.is_some()
    }

    /// The storage plugin, if any.
    pub fn plugin(&self) -> (r: Option<&'a LoadedPlugin>)
        ensures
            (r is Some) == self.remote(),
    {
        self.plugin
    }

    /// The directory plugin hooks run in.
    pub closed spec fn working_view(&self) -> Seq<char> {
        self.working_dir@
    }

    /// The directory plugin hooks run in.
    pub fn working_dir(&self) -> (r: &str)
        ensures
            r@ == self.working_view(),
    {
        self.working_dir.as_str()
    }

    fn local_path(&self, rel: &str) -> (r: String)
        ensures
            r@ == joined(self.base_view(), rel@),
    {
        join3(self.base_dir.as_str(), "/", rel)
    }

    /// The step that reads `rel`.
    pub fn read_step(&self, rel: &str) -> (r: StorageStep)
        ensures
            self.remote() ==> (r matches StorageStep::CallHook { hook, request } && hook@ == "read"@
                && request@ == storage_request_of(rel@, None)),
            !self.remote() ==> (r matches StorageStep::ReadFile { path } && path@ == joined(
                self.base_view(),
                rel@,
            )),
    {
        if self.plugin.is_some() {
            StorageStep::CallHook { hook: owned("read"), request: storage_request(rel, None) }
        } else {
            StorageStep::ReadFile { path: self.local_path(rel) }
        }
    }

    /// The step that writes `data` to `rel`.
    pub fn write_step(&self, rel: &str, data: &[u8]) -> (r: StorageStep)
        requires
            data@.len() <= usize::MAX / 2,
        ensures
            self.writes_as(rel@, data@, r),
    {
        if self.plugin.is_some() {
            let encoded = encode_base64(data);
            StorageStep::CallHook {
                hook: owned("write"),
                request: storage_request(rel, Some(encoded.as_str())),
            }
        } else {
            StorageStep::WriteFile { path: self.local_path(rel) }
        }
    }

    /// The first step of copying `from` to `to`: with a plugin, a `read` of
    /// `from` (its data then goes to `write_step(to, ..)`, as plugins have no
    /// copy of their own); locally, one file copy.
    pub fn copy_step(&self, from: &str, to: &str) -> (r: StorageStep)
        ensures
            self.copies_as(from@, to@, r),
    {
        if self.plugin.is_some() {
            self.read_step(from)
        } else {
            StorageStep::CopyFile { from: self.local_path(from), to: self.local_path(to) }
        }
    }

    /// The step that checks whether `rel` exists, lists `rel`, or deletes `rel`
    /// through the plugin (`hook` is `exists`, `list` or `delete`).
    pub fn plugin_step(&self, hook: &str, rel: &str) -> (r: Option<StorageStep>)
        ensures
            self.remote() ==> (r matches Some(StorageStep::CallHook { hook: h, request }) && h@
                == hook@ && request@ == storage_request_of(rel@, None)),
            !self.remote() ==> r is None,
    {
        if self.plugin.is_some() {
            Some(StorageStep::CallHook { hook: owned(hook), request: storage_request(rel, None) })
        } else {
            None
        }
    }
}

/// With a storage plugin, copying `from` to `to` is one `read` hook call for
/// `from` followed by one `write` hook call that stores the data read at `to`;
/// neither step touches the local filesystem.
pub proof fn lemma_plugin_copy_reads_then_writes(
    s: Storage,
    from: Seq<char>,
    to: Seq<char>,
    data: Seq<u8>,
    first: StorageStep,
    second: StorageStep,
)
    requires
        s.remote(),
        s.copies_as(from, to, first),
        s.writes_as(to, data, second),
    ensures
        plugin_call(first, "read"@, storage_request_of(from, None)),
        plugin_call(second, "write"@, storage_request_of(to, Some(base64_of(data)))),
        !local_file_step(first),
        !local_file_step(second),
{
}

} // verus!
