use pixelguard::capture::get_screenshot_dirs;
use pixelguard::config::{default_concurrency, Config, NamedViewport, Shot, Viewport};
use pixelguard::detect::ProjectType;
use pixelguard::diff::DiffResult;
use pixelguard::report::{html_escape, summarize};
use pixelguard::shots::{glob_match, matches_patterns, merge_shots, selected_for_update};
use pixelguard::storage::{baseline_path, current_path, diff_path};

fn shot(name: &str, path: &str, wait_for: Option<&str>, delay: Option<u64>) -> Shot {
    Shot { name: name.to_string(), path: path.to_string(), wait_for: wait_for.map(String::from), delay }
}

#[test]
fn project_type_is_known() {
    let storybook = ProjectType::Storybook { base_url: "http://localhost:6006".to_string(), stories: vec![] };
    assert!(storybook.is_known());

    let unknown = ProjectType::Unknown;
    assert!(!unknown.is_known());
}

#[test]
fn project_type_base_url() {
    let storybook = ProjectType::Storybook { base_url: "http://localhost:6006".to_string(), stories: vec![] };
    assert_eq!(storybook.base_url(), Some("http://localhost:6006"));

    let unknown = ProjectType::Unknown;
    assert_eq!(unknown.base_url(), None);
}

#[test]
fn project_type_source_name() {
    let storybook = ProjectType::Storybook { base_url: String::new(), stories: vec![] };
    assert_eq!(storybook.source_name(), "storybook");

    let nextjs = ProjectType::NextJs { base_url: String::new(), routes: vec![] };
    assert_eq!(nextjs.source_name(), "nextjs");

    let vite = ProjectType::Vite { base_url: String::new() };
    assert_eq!(vite.source_name(), "vite");

    let unknown = ProjectType::Unknown;
    assert_eq!(unknown.source_name(), "manual");
}

#[test]
fn html_escape_handles_special_chars() {
    assert_eq!(html_escape("<script>"), "&lt;script&gt;");
    assert_eq!(html_escape("a & b"), "a &amp; b");
    assert_eq!(html_escape("\"quoted\""), "&quot;quoted&quot;");
}

#[test]
fn html_escape_handles_apostrophes_and_plain_text() {
    assert_eq!(html_escape("it's"), "it&#39;s");
    assert_eq!(html_escape(""), "");
    assert_eq!(html_escape("card--default@mobile"), "card--default@mobile");
}

#[test]
fn path_helpers() {
    assert_eq!(baseline_path("button"), "baseline/button.png");
    assert_eq!(current_path("button"), "current/button.png");
    assert_eq!(diff_path("button"), "diff/button.png");
}

#[test]
fn default_config_has_sensible_values() {
    let config = Config::default();

    assert_eq!(config.viewport.width, 1280);
    assert_eq!(config.viewport.height, 720);
    assert_eq!(config.threshold.millionths, 10_000);
    assert_eq!(config.output_dir, ".pixelguard");
    assert_eq!(config.includes, vec!["**/*"]);
    assert_eq!(default_concurrency(), 4);
}

#[test]
fn effective_viewports_returns_default_when_viewports_empty() {
    let config = Config { viewport: Viewport { width: 1920, height: 1080 }, viewports: Vec::new(), ..Default::default() };

    let viewports = config.effective_viewports();
    assert_eq!(viewports.len(), 1);
    assert_eq!(viewports[0].name, "default");
    assert_eq!(viewports[0].width, 1920);
    assert_eq!(viewports[0].height, 1080);
}

#[test]
fn effective_viewports_returns_configured_viewports() {
    let config = Config {
        viewports: vec![
            NamedViewport { name: "desktop".to_string(), width: 1920, height: 1080 },
            NamedViewport { name: "mobile".to_string(), width: 375, height: 667 },
        ],
        ..Default::default()
    };

    let viewports = config.effective_viewports();
    assert_eq!(viewports.len(), 2);
    assert_eq!(viewports[0].name, "desktop");
    assert_eq!(viewports[1].name, "mobile");
}

#[test]
fn get_screenshot_dirs_returns_correct_paths() {
    let config = Config { output_dir: ".pixelguard".to_string(), ..Default::default() };

    let (baseline, current) = get_screenshot_dirs(&config, "/project");

    assert_eq!(baseline, "/project/.pixelguard/baseline");
    assert_eq!(current, "/project/.pixelguard/current");
}

#[test]
fn glob_patterns_match_names() {
    assert!(glob_match("**/*", "anything/at-all"));
    assert!(glob_match("*", "x"));
    assert!(glob_match("button*", "button--primary"));
    assert!(!glob_match("button*", "card--default"));
    assert!(!glob_match("a*", "a/b"));
    // `**` first becomes `.*`, whose star then stands for one segment
    assert!(glob_match("a/**", "a/bc"));
    assert!(!glob_match("a/**", "a/b/c"));
}

#[test]
fn patterns_exclude_before_include() {
    let inc = vec!["button*".to_string()];
    let exc = vec!["*--secondary".to_string()];
    assert!(matches_patterns("button--primary", &inc, &exc));
    assert!(!matches_patterns("button--secondary", &inc, &exc));
    assert!(!matches_patterns("card--default", &inc, &exc));
    assert!(matches_patterns("card--default", &Vec::new(), &exc));
}

#[test]
fn overrides_replace_wait_and_delay_only() {
    let discovered = vec![shot("a", "/a", Some("#root"), Some(100)), shot("b", "/b", None, None)];
    let overrides = vec![shot("a", "/other", None, Some(500)), shot("b", "/x", Some("#main"), None), shot("b", "/y", Some("#late"), Some(9))];
    let merged = merge_shots(discovered, &overrides);
    assert_eq!(merged[0].path, "/a");
    assert_eq!(merged[0].wait_for.as_deref(), Some("#root"));
    assert_eq!(merged[0].delay, Some(500));
    assert_eq!(merged[1].wait_for.as_deref(), Some("#main"));
    assert_eq!(merged[1].delay, None);
}

#[test]
fn update_filter_matches_names_and_viewports() {
    let filter = vec!["button".to_string()];
    assert!(selected_for_update("button", &filter));
    assert!(selected_for_update("button@desktop", &filter));
    assert!(!selected_for_update("buttons", &filter));
    assert!(!selected_for_update("card", &filter));
}

#[test]
fn summary_counts_the_four_categories() {
    let r = DiffResult {
        unchanged: vec!["a".to_string(), "b".to_string()],
        changed: Vec::new(),
        added: vec!["c".to_string()],
        removed: Vec::new(),
    };
    let s = summarize(&r);
    assert_eq!((s.total, s.unchanged, s.added), (3, 2, 1));
    assert!(!s.passed);
}

#[test]
fn story_and_route_shots_are_named_from_their_source() {
    let story = pixelguard::detect::story_shot("button--primary");
    assert_eq!(story.name, "button--primary");
    assert_eq!(story.path, "/iframe.html?id=button--primary&viewMode=story");
    assert_eq!(story.wait_for.as_deref(), Some("#storybook-root"));
    assert_eq!(story.delay, Some(100));
    let route = pixelguard::detect::route_shot("/blog/post");
    assert_eq!(route.name, "page-blog-post");
    assert_eq!(route.path, "/blog/post");
    assert_eq!(route.delay, Some(500));
    assert_eq!(pixelguard::detect::route_shot("/").name, "page-");
}
