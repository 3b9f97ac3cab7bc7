use pixelguard::category::PluginCategory;
use pixelguard::executor::{generate_hook_script, hook_outcome, interpret_process, ProcessOutput};
use pixelguard::manifest::{LoadedPlugin, PluginManifest, PluginResult};
use pixelguard::options::PluginOptions;
use pixelguard::registry::PluginRegistry;
use pixelguard::storage::{exists_output, list_output, read_output_bytes, storage_request, Storage, StorageError, StorageOutput, StorageStep};

fn plugin(name: &str, category: PluginCategory) -> LoadedPlugin {
    let mut options = PluginOptions::new();
    options.insert("testOption".to_string(), "\"testValue\"".to_string());
    LoadedPlugin {
        manifest: PluginManifest {
            name: name.to_string(),
            category,
            entry: "index.js".to_string(),
            hooks: vec!["read".to_string(), "write".to_string()],
            version: "1.0.0".to_string(),
            options_schema: None,
        },
        package_path: "C:\\plugins\\p".to_string(),
        entry_path: "C:\\plugins\\p\\index.js".to_string(),
        options,
    }
}

fn output(stdout: &str, exited_ok: bool, code: Option<i32>, stderr: &str) -> ProcessOutput {
    ProcessOutput { stdout: stdout.to_string(), exited_ok, exit_code: code, stderr: stderr.to_string() }
}

#[test]
fn script_calls_the_hook_and_reports_missing_hooks() {
    let p = plugin("Test Plugin", PluginCategory::Storage);
    let script = generate_hook_script(&p, "testHook", "{\"value\":21}");
    assert!(script.contains("require(\"C:/plugins/p/index.js\")"));
    assert!(script.contains("const input = {\"value\":21};"));
    assert!(script.contains("const options = {\"testOption\":\"testValue\"};"));
    assert!(script.contains("await plugin.testHook(input)"));
    assert!(script.contains("Hook \"testHook\" is not implemented by this plugin"));
}

#[test]
fn empty_output_after_success_is_void_success() {
    let r = interpret_process(&output("", true, Some(0), ""), None, "");
    assert!(r.success && r.data.is_none() && r.error.is_none());
    let p = plugin("Test Plugin", PluginCategory::Storage);
    assert_eq!(hook_outcome(&p, "testHook", r).unwrap(), None);
}

#[test]
fn empty_output_after_failure_names_exit_code() {
    let r = interpret_process(&output("", false, Some(3), "boom"), None, "");
    assert!(!r.success);
    assert_eq!(r.error.unwrap(), "Plugin process exited with code Some(3). Stderr: boom");
}

#[test]
fn unparseable_output_is_quoted() {
    let r = interpret_process(&output("not json", true, Some(0), ""), None, "expected value");
    assert_eq!(r.error.unwrap(), "Failed to parse plugin output as JSON: expected value. Output was: not json");
    let r = interpret_process(&output("not json", false, None, "trace"), None, "expected value");
    assert_eq!(r.error.unwrap(), "Plugin failed (exit code None). Output: not json. Stderr: trace");
}

#[test]
fn thrown_error_reaches_the_caller() {
    let envelope = PluginResult { success: false, data: None, error: Some("Something went wrong".to_string()) };
    let r = interpret_process(&output("{...}", false, Some(1), ""), Some(envelope), "");
    let p = plugin("Test Plugin", PluginCategory::Storage);
    let err = hook_outcome(&p, "testHook", r).unwrap_err();
    assert_eq!(err.message(), "Plugin 'Test Plugin' hook 'testHook' failed: Something went wrong");
    let missing = PluginResult::err("Hook \"testHook\" is not implemented by this plugin");
    assert!(hook_outcome(&p, "testHook", missing).unwrap_err().message().contains("not implemented"));
}

#[test]
fn successful_envelope_hands_back_data() {
    let envelope = PluginResult::ok("{\"received\":21,\"doubled\":42}".to_string());
    let r = interpret_process(&output("{...}", true, Some(0), ""), Some(envelope), "");
    let p = plugin("Test Plugin", PluginCategory::Storage);
    assert_eq!(hook_outcome(&p, "testHook", r).unwrap().unwrap(), "{\"received\":21,\"doubled\":42}");
}

#[test]
fn storage_plugin_copy_reads_then_writes() {
    let mut registry = PluginRegistry::new();
    registry.register(plugin("S3", PluginCategory::Storage));
    let storage = Storage::new("/out".to_string(), "/work".to_string(), Some(&registry));
    assert!(storage.is_remote());
    match storage.copy_step("a", "b") {
        StorageStep::CallHook { hook, request } => {
            assert_eq!(hook, "read");
            assert_eq!(request, "{\"path\":\"a\",\"options\":null}");
        }
        other => panic!("unexpected step {:?}", other),
    }
    match storage.write_step("b", b"hello") {
        StorageStep::CallHook { hook, request } => {
            assert_eq!(hook, "write");
            assert_eq!(request, "{\"path\":\"b\",\"data\":\"aGVsbG8=\",\"options\":null}");
        }
        other => panic!("unexpected step {:?}", other),
    }
}

#[test]
fn local_storage_copies_files_directly() {
    let storage = Storage::local("/out".to_string());
    assert!(!storage.is_remote());
    match storage.copy_step("current/a.png", "baseline/a.png") {
        StorageStep::CopyFile { from, to } => {
            assert_eq!(from, "/out/current/a.png");
            assert_eq!(to, "/out/baseline/a.png");
        }
        other => panic!("unexpected step {:?}", other),
    }
    assert!(storage.plugin_step("delete", "x").is_none());
}

#[test]
fn storage_outputs_decode() {
    let out = StorageOutput { data: Some("aGVsbG8=".to_string()), exists: None, files: None };
    assert_eq!(read_output_bytes(&out).unwrap(), b"hello".to_vec());
    let bad = StorageOutput { data: Some("***".to_string()), exists: None, files: None };
    assert_eq!(read_output_bytes(&bad).unwrap_err(), StorageError::InvalidBase64);
    let none = StorageOutput { data: None, exists: None, files: None };
    assert_eq!(read_output_bytes(&none).unwrap_err(), StorageError::MissingData);
    assert!(!exists_output(&none));
    assert!(exists_output(&StorageOutput { data: None, exists: Some(true), files: None }));
    assert!(list_output(none).is_empty());
    assert_eq!(storage_request("a\"b", None), "{\"path\":\"a\\\"b\",\"options\":null}");
}
