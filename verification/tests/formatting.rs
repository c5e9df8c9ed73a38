use devmoji::commits::ConventionalCommits;
use devmoji::config::{Config, ConfigDevmojiEntry, ConfigFile};
use devmoji::devmoji::Devmoji;

fn with_defaults<F: FnOnce(&ConventionalCommits)>(f: F) {
    let cfg = Config::load(None);
    let dm = Devmoji::new(&cfg);
    let cc = ConventionalCommits::new(&dm, &cfg);
    f(&cc);
}

#[test]
fn format_commit_default_pack() {
    with_defaults(|cc| {
        assert_eq!(cc.format_commit("feat: add x", false), "feat: \u{2728} add x");
    });
}

#[test]
fn format_commit_compound_precedence() {
    with_defaults(|cc| {
        assert_eq!(
            cc.format_commit("chore(release): v1", false),
            "chore(release): \u{1f680} v1"
        );
    });
}

#[test]
fn format_commit_breaking_footer_forces_bang() {
    with_defaults(|cc| {
        assert_eq!(
            cc.format_commit("fix: x\n\nBREAKING CHANGE: y", false),
            "fix!: \u{1f4a5} \u{1f41b} x\n\nBREAKING CHANGE: y"
        );
    });
}

#[test]
fn format_commit_explicit_bang() {
    with_defaults(|cc| {
        assert_eq!(
            cc.format_commit("feat!: redo", false),
            "feat!: \u{1f4a5} \u{2728} redo"
        );
    });
}

#[test]
fn format_commit_dedups_type_and_scope_emoji() {
    let file = ConfigFile {
        types: vec![],
        devmoji: vec![
            ConfigDevmojiEntry {
                code: "x".to_string(),
                emoji: Some("bug".to_string()),
                gitmoji: None,
                description: None,
            },
            ConfigDevmojiEntry {
                code: "y".to_string(),
                emoji: Some("bug".to_string()),
                gitmoji: None,
                description: None,
            },
        ],
    };
    let cfg = Config::load(Some(&file));
    let dm = Devmoji::new(&cfg);
    let cc = ConventionalCommits::new(&dm, &cfg);
    assert_eq!(cc.format_commit("x(y): m", false), "x(y): \u{1f41b} m");
}

#[test]
fn format_commit_resolves_other_shortcodes() {
    with_defaults(|cc| {
        assert_eq!(
            cc.format_commit("fix: :zap: speed", false),
            "fix: \u{1f41b} \u{26a1}\u{fe0f} speed"
        );
    });
}

#[test]
fn format_commit_type_and_scope_emoji() {
    with_defaults(|cc| {
        assert_eq!(
            cc.format_commit("fix(security): patch", false),
            "fix(security): \u{1f41b} \u{1f512}\u{fe0f} patch"
        );
    });
}

#[test]
fn format_commit_leaves_unmatched_text() {
    with_defaults(|cc| {
        assert_eq!(cc.format_commit("no header here", false), "no header here");
    });
}

#[test]
fn format_commit_skips_shortcode_headers() {
    with_defaults(|cc| {
        assert_eq!(
            cc.format_commit(":sparkles: already done", false),
            "\u{2728} already done"
        );
    });
}

#[test]
fn format_commit_only_first_header() {
    with_defaults(|cc| {
        assert_eq!(
            cc.format_commit("feat: a\nfix: b", false),
            "feat: \u{2728} a\nfix: b"
        );
    });
}

#[test]
fn format_log_rewrites_every_header() {
    with_defaults(|cc| {
        assert_eq!(
            cc.format_log("feat: a\nfix: b", false),
            "feat: \u{2728} a\nfix: \u{1f41b} b"
        );
    });
}

#[test]
fn lint_bypasses_special_subjects() {
    with_defaults(|cc| {
        assert_eq!(cc.lint("Merge branch 'x' into y"), Ok(()));
        assert_eq!(cc.lint("fixup! earlier"), Ok(()));
        assert_eq!(cc.lint("Revert \"feat: add\""), Ok(()));
    });
}

#[test]
fn lint_rejects_non_headers() {
    with_defaults(|cc| {
        assert_eq!(
            cc.lint("not a real header"),
            Err(vec![
                "Expecting a commit message like: type(scope): description".to_string()
            ])
        );
    });
}

#[test]
fn lint_reports_type_and_description_together() {
    with_defaults(|cc| {
        assert_eq!(
            cc.lint("foo: "),
            Err(vec![
                "Type should be one of: feat, fix, docs, style, refactor, perf, test, chore, build, ci"
                    .to_string(),
                "Missing description".to_string(),
            ])
        );
    });
}

#[test]
fn lint_accepts_good_headers() {
    with_defaults(|cc| {
        assert_eq!(cc.lint("feat(ui): add button"), Ok(()));
        assert_eq!(cc.lint("fix!: urgent patch"), Ok(()));
    });
}

#[test]
fn lint_reports_missing_description_alone() {
    with_defaults(|cc| {
        assert_eq!(cc.lint("feat: "), Err(vec!["Missing description".to_string()]));
    });
}
