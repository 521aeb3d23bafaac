use skill_builder::prompts::{copy_prompts_from, resolve_prompts_dir};

#[test]
fn test_resolve_prompts_dir_dev_mode() {
    // Without a resource directory the prompts at the root of the
    // repository are taken.
    let dev_path = resolve_prompts_dir(&vec![false, true]);
    assert!(dev_path.is_ok());
    assert_eq!(dev_path.unwrap(), 1);
}

#[test]
fn test_copy_prompts_creates_dir_and_copies_md_files() {
    assert!(copy_prompts_from("shared-context.md"));
    assert!(copy_prompts_from("01-research.md"));
    // Non-.md file should be ignored
    assert!(!copy_prompts_from("README.txt"));
}

#[test]
fn prompts_dir_in_order() {
    assert_eq!(resolve_prompts_dir(&vec![true, true]).unwrap(), 0);
    assert_eq!(resolve_prompts_dir(&vec![true, false]).unwrap(), 0);
    assert_eq!(resolve_prompts_dir(&vec![false, false, true]).unwrap(), 2);
    for none in [vec![], vec![false], vec![false, false]] {
        assert_eq!(
            resolve_prompts_dir(&none).unwrap_err().message(),
            "Could not find bundled prompts directory"
        );
    }
}

#[test]
fn prompt_names_agree_with_std() {
    let samples = [
        "a.md", ".md", "..md", "md", "a.MD", "a.md.txt", "a.b.md", "amd", "a.mdx", "", ".", "a.",
        "\u{e9}.md", "x.m", "notes.md ", " .md",
    ];
    for name in samples {
        let expected = std::path::Path::new(name).extension().and_then(|e| e.to_str()) == Some("md");
        assert_eq!(copy_prompts_from(name), expected, "{:?}", name);
    }
}
