use pixelguard::category::PluginCategory;
use pixelguard::error::PluginError;
use pixelguard::manifest::{entry_file, validate_manifest, LoadedPlugin, PluginManifest, PluginResult};
use pixelguard::options::{merge_options, PluginEntry, PluginOptions};
use pixelguard::registry::PluginRegistry;
use pixelguard::resolver::{has_plugin_field, parent_dir, plugin_candidates, resolve_from_probes};

fn create_test_plugin(name: &str, category: PluginCategory) -> LoadedPlugin {
    LoadedPlugin {
        manifest: PluginManifest {
            name: name.to_string(),
            category,
            entry: "index.js".to_string(),
            hooks: vec!["test".to_string()],
            version: "1.0.0".to_string(),
            options_schema: None,
        },
        package_path: "/test".to_string(),
        entry_path: "/test/index.js".to_string(),
        options: PluginOptions::new(),
    }
}

fn manifest_plugin(name: &str, hooks: &[&str]) -> LoadedPlugin {
    LoadedPlugin {
        manifest: PluginManifest {
            name: name.to_string(),
            category: PluginCategory::Storage,
            entry: "index.js".to_string(),
            hooks: hooks.iter().map(|h| h.to_string()).collect(),
            version: "1.0.0".to_string(),
            options_schema: None,
        },
        package_path: "/plugins/test-plugin".to_string(),
        entry_path: "/plugins/test-plugin/index.js".to_string(),
        options: PluginOptions::new(),
    }
}

fn options(pairs: &[(&str, &str)]) -> PluginOptions {
    let mut o = PluginOptions::new();
    for (k, v) in pairs {
        o.insert(k.to_string(), v.to_string());
    }
    o
}

#[test]
fn plugin_category_can_stack() {
    assert!(PluginCategory::Notifier.can_stack());
    assert!(PluginCategory::Reporter.can_stack());
    assert!(!PluginCategory::Storage.can_stack());
    assert!(!PluginCategory::Capture.can_stack());
    assert!(!PluginCategory::Differ.can_stack());
}

#[test]
fn plugin_result_ok() {
    let result = PluginResult::ok("{\"test\":true}".to_string());

    assert!(result.success);
    assert!(result.data.is_some());
    assert!(result.error.is_none());
}

#[test]
fn plugin_result_err() {
    let result = PluginResult::err("Something went wrong");

    assert!(!result.success);
    assert!(result.data.is_none());
    assert_eq!(result.error.unwrap(), "Something went wrong");
}

#[test]
fn registry_new_is_empty() {
    let registry = PluginRegistry::new();
    assert!(registry.is_empty());
    assert_eq!(registry.len(), 0);
}

#[test]
fn registry_single_winner_category() {
    let mut registry = PluginRegistry::new();

    let plugin1 = create_test_plugin("Storage A", PluginCategory::Storage);
    let plugin2 = create_test_plugin("Storage B", PluginCategory::Storage);

    registry.register(plugin1);
    registry.register(plugin2);

    let active = registry.get(PluginCategory::Storage).unwrap();
    assert_eq!(active.name(), "Storage B");

    assert!(registry.get_by_name("Storage A").is_some());
    assert!(registry.get_by_name("Storage B").is_some());
}

#[test]
fn registry_stackable_notifiers() {
    let mut registry = PluginRegistry::new();

    let plugin1 = create_test_plugin("Slack", PluginCategory::Notifier);
    let plugin2 = create_test_plugin("Teams", PluginCategory::Notifier);

    registry.register(plugin1);
    registry.register(plugin2);

    let notifiers = registry.notifiers();
    assert_eq!(notifiers.len(), 2);
    assert_eq!(notifiers[0].name(), "Slack");
    assert_eq!(notifiers[1].name(), "Teams");

    assert!(registry.get(PluginCategory::Notifier).is_none());
}

#[test]
fn registry_stackable_reporters() {
    let mut registry = PluginRegistry::new();

    let plugin1 = create_test_plugin("JUnit", PluginCategory::Reporter);
    let plugin2 = create_test_plugin("JSON", PluginCategory::Reporter);

    registry.register(plugin1);
    registry.register(plugin2);

    let reporters = registry.reporters();
    assert_eq!(reporters.len(), 2);
}

#[test]
fn registry_has_override() {
    let mut registry = PluginRegistry::new();

    assert!(!registry.has_override(PluginCategory::Storage));
    assert!(!registry.has_override(PluginCategory::Notifier));

    registry.register(create_test_plugin("S3", PluginCategory::Storage));
    registry.register(create_test_plugin("Slack", PluginCategory::Notifier));

    assert!(registry.has_override(PluginCategory::Storage));
    assert!(registry.has_override(PluginCategory::Notifier));
    assert!(!registry.has_override(PluginCategory::Capture));
}

#[test]
fn registry_all_active() {
    let mut registry = PluginRegistry::new();

    registry.register(create_test_plugin("S3", PluginCategory::Storage));
    registry.register(create_test_plugin("Slack", PluginCategory::Notifier));
    registry.register(create_test_plugin("Teams", PluginCategory::Notifier));
    registry.register(create_test_plugin("JUnit", PluginCategory::Reporter));

    let active = registry.all_active();
    assert_eq!(active.len(), 4);
}

#[test]
fn registry_plugin_names() {
    let mut registry = PluginRegistry::new();

    registry.register(create_test_plugin("Plugin A", PluginCategory::Storage));
    registry.register(create_test_plugin("Plugin B", PluginCategory::Notifier));

    let names = registry.plugin_names();
    assert_eq!(names.len(), 2);
    assert!(names.contains(&"Plugin A"));
    assert!(names.contains(&"Plugin B"));
}

#[test]
fn registry_duplicate_name_replaces_entry() {
    let mut registry = PluginRegistry::new();
    let mut first = create_test_plugin("Same", PluginCategory::Storage);
    first.entry_path = "/first/index.js".to_string();
    let mut second = create_test_plugin("Same", PluginCategory::Capture);
    second.entry_path = "/second/index.js".to_string();
    registry.register(first);
    registry.register(second);
    assert_eq!(registry.len(), 1);
    assert_eq!(registry.get_by_name("Same").unwrap().entry_path, "/second/index.js");
    assert_eq!(registry.get(PluginCategory::Storage).unwrap().entry_path, "/first/index.js");
    assert_eq!(registry.get(PluginCategory::Capture).unwrap().entry_path, "/second/index.js");
}

#[test]
fn registry_counts_every_stacked_notifier() {
    let mut registry = PluginRegistry::new();
    for i in 0..5 {
        registry.register(create_test_plugin(&format!("N{}", i), PluginCategory::Notifier));
    }
    assert_eq!(registry.notifiers().len(), 5);
    assert!(registry.get(PluginCategory::Notifier).is_none());
    assert!(registry.get(PluginCategory::Reporter).is_none());
}

#[test]
fn validate_manifest_empty_name() {
    let plugin = manifest_plugin("", &["read"]);
    let result = validate_manifest(&plugin);

    assert!(result.is_err());
    assert!(result.unwrap_err().message().contains("empty name"));
}

#[test]
fn validate_manifest_no_hooks() {
    let plugin = manifest_plugin("Test Plugin", &[]);
    let result = validate_manifest(&plugin);

    assert!(result.is_err());
    assert!(result.unwrap_err().message().contains("no hooks"));
}

#[test]
fn validate_manifest_invalid_hook() {
    let plugin = manifest_plugin("Test Plugin", &["read", "invalidHook"]);
    let result = validate_manifest(&plugin);

    assert!(result.is_err());
    let err = result.unwrap_err();
    assert!(err.message().contains("invalid hook"));
    match err {
        PluginError::InvalidHook { hook, .. } => assert_eq!(hook, "invalidHook"),
        _ => panic!("expected an invalid hook error"),
    }
}

#[test]
fn validate_manifest_accepts_category_hooks() {
    let plugin = manifest_plugin("Test Plugin", &["read", "write", "exists", "list", "delete"]);
    assert!(validate_manifest(&plugin).is_ok());
    let mut notifier = manifest_plugin("Slack", &["notify"]);
    notifier.manifest.category = PluginCategory::Notifier;
    assert!(validate_manifest(&notifier).is_ok());
    notifier.manifest.hooks = vec!["read".to_string()];
    assert!(validate_manifest(&notifier).unwrap_err().message().contains("valid hooks: notify"));
}

#[test]
fn load_plugin_basic() {
    let manifest = PluginManifest {
        name: "Test Plugin".to_string(),
        category: PluginCategory::Storage,
        entry: "index.js".to_string(),
        hooks: vec!["read".to_string(), "write".to_string()],
        version: String::new(),
        options_schema: None,
    };
    let entry = PluginEntry::Name("test-plugin".to_string());
    let plugin = LoadedPlugin::from_package(
        manifest,
        "1.0.0",
        "/p".to_string(),
        "/p/index.js".to_string(),
        &entry,
        None,
    );

    assert_eq!(plugin.manifest.name, "Test Plugin");
    assert_eq!(plugin.manifest.hooks, vec!["read", "write"]);
    assert_eq!(plugin.manifest.version, "1.0.0");
}

#[test]
fn load_plugin_with_inline_options() {
    let entry = PluginEntry::WithOptions {
        name: "test-plugin".to_string(),
        options: options(&[("bucket", "\"test-bucket\"")]),
    };
    let merged = merge_options(&entry, Some(&PluginOptions::new()));

    assert_eq!(merged.get("bucket").unwrap(), "\"test-bucket\"");
}

#[test]
fn load_plugin_global_options_override() {
    let entry = PluginEntry::WithOptions {
        name: "test-plugin".to_string(),
        options: options(&[("bucket", "\"inline-bucket\""), ("region", "\"us-west-1\"")]),
    };
    let global = options(&[("bucket", "\"global-bucket\"")]);
    let merged = merge_options(&entry, Some(&global));

    assert_eq!(merged.get("bucket").unwrap(), "\"global-bucket\"");
    assert_eq!(merged.get("region").unwrap(), "\"us-west-1\"");
}

#[test]
fn options_render_as_json_object() {
    let o = options(&[("bucket", "\"b\""), ("retries", "3")]);
    assert_eq!(o.to_json(), "{\"bucket\":\"b\",\"retries\":3}");
    assert_eq!(PluginOptions::new().to_json(), "{}");
    let quoted = options(&[("a\"b", "1")]);
    assert_eq!(quoted.to_json(), "{\"a\\\"b\":1}");
}

#[test]
fn entry_file_falls_back_to_main_then_index() {
    assert_eq!(entry_file("dist/index.js", "main.js"), "dist/index.js");
    assert_eq!(entry_file("", "main.js"), "main.js");
    assert_eq!(entry_file("", ""), "index.js");
}

#[test]
fn resolve_missing_plugin_fails() {
    let candidates = plugin_candidates("nonexistent-plugin", "/work/project");
    let probes = vec![false; candidates.len()];
    let result = resolve_from_probes("nonexistent-plugin", &candidates, &probes);

    assert!(result.is_err());
    assert!(result.unwrap_err().message().contains("not found"));
}

#[test]
fn candidates_walk_up_the_ancestors() {
    let c = plugin_candidates("pixelguard-plugin-test", "/a/b");
    assert_eq!(
        c,
        vec![
            "/a/b/node_modules/pixelguard-plugin-test",
            "/a/node_modules/pixelguard-plugin-test",
            "/node_modules/pixelguard-plugin-test",
        ]
    );
    assert_eq!(plugin_candidates("./local-plugin", "/a/b"), vec!["/a/b/./local-plugin"]);
    assert_eq!(plugin_candidates("/abs/plugin", "/a/b"), vec!["/abs/plugin"]);
    assert_eq!(parent_dir("/a"), Some("/".to_string()));
    assert_eq!(parent_dir("/"), None);
}

#[test]
fn resolve_picks_first_existing_candidate() {
    let c = plugin_candidates("p", "/a/b");
    let r = resolve_from_probes("p", &c, &vec![false, true, true]);
    assert_eq!(r.unwrap(), "/a/node_modules/p");
}

#[test]
fn package_json_must_declare_the_plugin_field() {
    assert!(!has_plugin_field("{\"name\": \"not-a-plugin\"}"));
    assert!(has_plugin_field("{\"name\": \"valid-plugin\", \"pixelguard\": {\"category\": \"storage\"}}"));
    assert!(!has_plugin_field(""));
}

#[test]
fn loaded_plugin_knows_its_hooks() {
    let p = create_test_plugin("Slack", PluginCategory::Notifier);
    assert!(p.has_hook("test"));
    assert!(!p.has_hook("notify"));
    assert_eq!(p.category(), PluginCategory::Notifier);
}
