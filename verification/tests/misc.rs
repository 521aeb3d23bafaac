use skill_builder::auth::{
    fetch_github_user, list_github_repos, DeviceFlowError, GitHubRepo, REPOS_PER_PAGE,
};
use skill_builder::diff::generate_diff;
use skill_builder::error::OrchestratorError;
use skill_builder::git::{
    check_clone_target, clone_repo, commit_and_push, push_refspec, DEFAULT_BRANCH,
    SEED_COMMIT_MESSAGE,
};
use skill_builder::package::{add_dir_to_zip, create_skill_zip, package_skill};
use skill_builder::settings::{
    get_skills_path, get_workspace_path, init_workspace, needs_git_upgrade, test_api_key,
    AppSettings,
};
use skill_builder::text::{
    char_is_white_space, contains_text, decimal_string, ends_with, find_char, join, parse_u32,
    select_names, starts_with, str_equal, take_before_first, trim,
};
use skill_builder::artifacts::package_file_name;
use skill_builder::workflow::read_api_key;

#[test]
fn test_generate_diff_with_changes() {
    let result = generate_diff(
        "test.md".to_string(),
        "old content".to_string(),
        "new content".to_string(),
    );
    assert!(result.has_changes);
    assert_eq!(result.old_content, "old content");
    assert_eq!(result.new_content, "new content");
}

#[test]
fn test_generate_diff_no_changes() {
    let result = generate_diff(
        "test.md".to_string(),
        "same content".to_string(),
        "same content".to_string(),
    );
    assert!(!result.has_changes);
}

#[test]
fn test_generate_diff_missing_file() {
    // A file that cannot be read counts as empty.
    let result = generate_diff(
        "/nonexistent/path/file.md".to_string(),
        String::new(),
        "new content".to_string(),
    );
    assert!(result.has_changes);
    assert_eq!(result.old_content, "");
    assert_eq!(result.file_path, "/nonexistent/path/file.md");
}

#[test]
fn test_no_changes_detection() {
    let tree = "4b825dc642cb6eb9a060e54bf8d69288fbee4904";
    assert_eq!(commit_and_push(Some(tree), tree), (false, "No changes to commit"));
    assert_eq!(
        commit_and_push(Some("0000000000000000000000000000000000000000"), tree),
        (true, "Committed and pushed")
    );
    assert_eq!(commit_and_push(None, tree), (true, "Committed and pushed"));
}

#[test]
fn decimal_numerals() {
    assert_eq!(decimal_string(0), "0");
    assert_eq!(decimal_string(9), "9");
    assert_eq!(decimal_string(10), "10");
    assert_eq!(decimal_string(1234567890), "1234567890");
    assert_eq!(decimal_string(u128::MAX), u128::MAX.to_string());
    for n in [1u128, 11, 99, 100, 101, 909, 1000, 65535, 18446744073709551616] {
        assert_eq!(decimal_string(n), n.to_string());
    }
}

#[test]
fn parse_numerals() {
    assert_eq!(parse_u32("0"), Some(0));
    assert_eq!(parse_u32("+7"), Some(7));
    assert_eq!(parse_u32("007"), Some(7));
    assert_eq!(parse_u32("4294967295"), Some(u32::MAX));
    assert_eq!(parse_u32("4294967296"), None);
    assert_eq!(parse_u32("42949672950"), None);
    assert_eq!(parse_u32(""), None);
    assert_eq!(parse_u32("+"), None);
    assert_eq!(parse_u32("-1"), None);
    assert_eq!(parse_u32("1 "), None);
    assert_eq!(parse_u32("1x"), None);
    assert_eq!(parse_u32("99999999999999999999999999999999999x"), None);
}

#[test]
fn trimming_agrees_with_std() {
    let samples = [
        "", " ", "a", " a", "a ", "  a b  ", "\t\r\n x \u{a0}\u{3000}", "\u{2003}y\u{2028}",
        "\u{200b}z\u{200b}", "\u{1680}\u{85}q\u{205f}\u{202f}", "\u{feff}w", "a\u{b}\u{c}",
    ];
    for s in samples {
        assert_eq!(trim(s), s.trim(), "{:?}", s);
    }
    for code in 0u32..0x3100 {
        if let Some(c) = char::from_u32(code) {
            assert_eq!(char_is_white_space(c), c.is_whitespace(), "{:x}", code);
        }
    }
}

#[test]
fn searching_text() {
    assert_eq!(find_char("a.b.c", '.'), 1);
    assert_eq!(find_char("abc", '.'), 3);
    assert_eq!(find_char("", '.'), 0);
    assert_eq!(find_char("\u{e9}t\u{e9}.x", '.'), 3);
    assert_eq!(take_before_first("20.11.0", '.'), "20");
    assert_eq!(take_before_first("20", '.'), "20");
    assert_eq!(take_before_first(".5", '.'), "");
    assert!(starts_with("abc", "ab") && starts_with("abc", "") && starts_with("abc", "abc"));
    assert!(!starts_with("abc", "abcd") && !starts_with("abc", "b"));
    assert!(ends_with("abc", "bc") && ends_with("abc", "") && !ends_with("abc", "ab"));
    assert!(str_equal("x", "x") && !str_equal("x", "X") && str_equal("", ""));
    let v = vec!["a".to_string(), "b".to_string()];
    assert!(contains_text(&v, "b") && !contains_text(&v, "c") && !contains_text(&v, ""));
    assert_eq!(join(&v, ", "), "a, b");
    assert_eq!(join(&Vec::new(), ", "), "");
    assert_eq!(join(&vec!["only".to_string()], ", "), "only");
    let w = vec!["b".to_string(), "c".to_string(), "b".to_string()];
    assert_eq!(select_names(&w, &v, true), vec!["b".to_string(), "b".to_string()]);
    assert_eq!(select_names(&w, &v, false), vec!["c".to_string()]);
}

#[test]
fn error_messages() {
    let cases = vec![
        (OrchestratorError::SpawnFailed { reason: "r".to_string() }, "r"),
        (
            OrchestratorError::DuplicateAgent { agent_id: "x".to_string() },
            "Agent 'x' is already running",
        ),
        (OrchestratorError::AgentNotFound { agent_id: "x".to_string() }, "Agent 'x' not found"),
        (
            OrchestratorError::KillFailed { agent_id: "x".to_string(), reason: "r".to_string() },
            "Failed to kill sidecar: r",
        ),
        (
            OrchestratorError::StepNotConfigured { step_id: 99, nearest: 8 },
            "Unknown step_id 99. The nearest configured step is 8; the configured steps are 0, 3, 5, 6, 7, 8. Use run_parallel_agents for step 2.",
        ),
        (OrchestratorError::PersistenceError { reason: "locked".to_string() }, "locked"),
        (
            OrchestratorError::PathTraversalRejected { label: "skills_path".to_string() },
            "Invalid skill path: path traversal not allowed on skills_path",
        ),
        (OrchestratorError::InvalidAction { reason: "bad".to_string() }, "bad"),
        (OrchestratorError::MissingSetting { reason: "none".to_string() }, "none"),
        (OrchestratorError::OperationRefused { reason: "no".to_string() }, "no"),
        (
            OrchestratorError::ReconciliationPartialFailure { failed: 2 },
            "2 item(s) could not be reconciled",
        ),
    ];
    for (error, text) in cases {
        assert_eq!(error.message(), text);
    }
}

#[test]
fn settings_paths() {
    let mut settings = AppSettings::empty();
    assert!(settings.anthropic_api_key.is_none());
    assert_eq!(get_workspace_path(&settings).unwrap_err().message(), "Workspace path not initialized");
    assert_eq!(
        get_skills_path(&settings).unwrap_err().message(),
        "Skills path not configured. Please set it in Settings."
    );
    assert!(init_workspace(&mut settings, "/home/u/.vibedata/skill-builder"));
    assert_eq!(get_workspace_path(&settings).unwrap(), "/home/u/.vibedata/skill-builder");
    assert!(!init_workspace(&mut settings, "/home/u/.vibedata/skill-builder"));
    assert!(init_workspace(&mut settings, "/other"));
    assert_eq!(settings.workspace_path.as_deref(), Some("/other"));
    settings.skills_path = Some("/skills".to_string());
    assert_eq!(get_skills_path(&settings).unwrap(), "/skills");
    assert_eq!(read_api_key(Some("k".to_string())).unwrap(), "k");
    assert_eq!(read_api_key(None).unwrap_err().message(), "Anthropic API key not configured");
    assert!(needs_git_upgrade(true, false));
    assert!(!needs_git_upgrade(true, true));
    assert!(!needs_git_upgrade(false, false));
    assert!(test_api_key(200) && test_api_key(400) && test_api_key(500) && !test_api_key(401));
}

#[test]
fn clone_seeding() {
    assert!(check_clone_target(false).is_ok());
    assert_eq!(
        check_clone_target(true).unwrap_err().message(),
        "Directory already contains a git repository. Choose a different folder."
    );
    let both = clone_repo("/d".to_string(), false, false);
    assert_eq!(both.result.path, "/d");
    assert!(both.result.created_readme && both.result.created_gitignore && both.commit);
    assert_eq!(both.stage, vec!["README.md", ".gitignore"]);
    let readme = clone_repo("/d".to_string(), false, true);
    assert!(readme.result.created_readme && !readme.result.created_gitignore && readme.commit);
    assert_eq!(readme.stage, vec!["README.md"]);
    let ignore = clone_repo("/d".to_string(), true, false);
    assert_eq!(ignore.stage, vec![".gitignore"]);
    assert!(ignore.commit);
    let none = clone_repo("/d".to_string(), true, true);
    assert!(!none.result.created_readme && !none.result.created_gitignore && !none.commit);
    assert!(none.stage.is_empty());
    assert_eq!(push_refspec(Some("dev")), "refs/heads/dev:refs/heads/dev");
    assert_eq!(push_refspec(None), "refs/heads/main:refs/heads/main");
    assert_eq!(DEFAULT_BRANCH, "main");
    assert_eq!(SEED_COMMIT_MESSAGE, "Initialize skill repo with README and .gitignore");
}

#[test]
fn github_replies() {
    assert_eq!(REPOS_PER_PAGE, 100);
    assert_eq!(list_github_repos(1, 100), Some(2));
    assert_eq!(list_github_repos(1, 150), Some(2));
    assert_eq!(list_github_repos(1, 99), None);
    assert_eq!(list_github_repos(7, 0), None);
    assert_eq!(list_github_repos(u32::MAX, 100), None);
    assert_eq!(fetch_github_user(true, "{}".to_string()).unwrap(), "{}");
    let e = fetch_github_user(false, "Bad credentials".to_string()).unwrap_err();
    assert_eq!(e.message(), "GitHub API error: Bad credentials");
    assert!(matches!(e, DeviceFlowError::Api { .. }));
    let h = DeviceFlowError::Http { reason: "timed out".to_string() };
    assert_eq!(h.message(), "HTTP request failed: timed out");
    let repo = GitHubRepo {
        full_name: "u/r".to_string(),
        name: "r".to_string(),
        private: true,
        description: None,
        clone_url: "https://example.invalid/u/r.git".to_string(),
    };
    assert!(repo.private && repo.description.is_none());
    let copy = repo.clone();
    assert_eq!(copy.full_name, "u/r");
    assert_eq!(copy.clone_url, repo.clone_url);
    let diff = generate_diff("f".to_string(), "a".to_string(), "b".to_string()).clone();
    assert_eq!((diff.old_content.as_str(), diff.new_content.as_str()), ("a", "b"));
    let cloned = clone_repo("/d".to_string(), false, true).result.clone();
    assert!(cloned.created_readme && !cloned.created_gitignore);
}

#[test]
fn package_names() {
    assert_eq!(package_file_name("my-skill"), "my-skill.skill");
    assert_eq!(package_skill("my-skill", "/w/my-skill", true).unwrap(), "my-skill.skill");
    assert_eq!(
        package_skill("my-skill", "/w/my-skill", false).unwrap_err().message(),
        "Skill directory not found: /w/my-skill"
    );
    let roots: Vec<(String, bool)> =
        create_skill_zip(true, true).into_iter().map(|a| (a.path, a.is_dir)).collect();
    assert_eq!(roots, vec![("SKILL.md".to_string(), false), ("references".to_string(), true)]);
    assert!(create_skill_zip(false, false).is_empty());
    assert_eq!(create_skill_zip(false, true).len(), 1);
    let file = add_dir_to_zip("references", "deep-dive.md", false);
    assert_eq!((file.path.as_str(), file.is_dir), ("references/deep-dive.md", false));
    let dir = add_dir_to_zip("references", "sub", true);
    assert_eq!((dir.path.as_str(), dir.is_dir), ("references/sub", true));
    let nested = add_dir_to_zip(&dir.path, "nested.md", false);
    assert_eq!(nested.path, "references/sub/nested.md");
}

/// The names under which a package stores the files of a skill directory,
/// given as the relative paths of its files.
fn archive_names(files: &[&str]) -> Vec<String> {
    let has = |name: &str| files.iter().any(|f| *f == name);
    let under = |dir: &str| files.iter().any(|f| f.starts_with(&format!("{}/", dir)));
    let mut names = Vec::new();
    let mut pending: Vec<(String, bool)> = create_skill_zip(has("SKILL.md"), under("references"))
        .into_iter()
        .map(|a| (a.path, a.is_dir))
        .collect();
    while let Some((path, is_dir)) = pending.pop() {
        if !is_dir {
            names.push(path);
            continue;
        }
        let prefix = format!("{}/", path);
        let mut children: Vec<(String, bool)> = Vec::new();
        for file in files.iter().filter(|f| f.starts_with(&prefix)) {
            let rest = &file[prefix.len()..];
            let (child, child_is_dir) = match rest.split_once('/') {
                Some((dir, _)) => (dir, true),
                None => (rest, false),
            };
            let entry = add_dir_to_zip(&path, child, child_is_dir);
            if !children.iter().any(|c| c.0 == entry.path) {
                children.push((entry.path, entry.is_dir));
            }
        }
        pending.extend(children);
    }
    names
}

#[test]
fn test_package_skill_creates_zip() {
    let names = archive_names(&[
        "SKILL.md",
        "references/deep-dive.md",
        "context/decisions.md",
        "workflow.md",
    ]);
    assert_eq!(package_skill("my-skill", "/tmp/my-skill", true).unwrap(), "my-skill.skill");
    assert!(names.contains(&"SKILL.md".to_string()));
    assert!(names.contains(&"references/deep-dive.md".to_string()));
    assert!(!names.iter().any(|n| n.starts_with("context/")));
    assert!(!names.contains(&"workflow.md".to_string()));
}

#[test]
fn test_package_skill_nested_references() {
    let names =
        archive_names(&["SKILL.md", "references/top.md", "references/sub/nested.md"]);
    assert!(names.contains(&"SKILL.md".to_string()));
    assert!(names.contains(&"references/top.md".to_string()));
    assert!(names.contains(&"references/sub/nested.md".to_string()));
    assert_eq!(names.len(), 3);
}

#[test]
fn test_package_skill_missing_dir() {
    let result = package_skill("path", "/nonexistent/path", false);
    assert!(result.is_err());
}
