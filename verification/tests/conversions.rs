use devmoji::config::{Config, ConfigDevmojiEntry, ConfigFile};
use devmoji::devmoji::Devmoji;

fn default_resolver() -> Devmoji {
    Devmoji::new(&Config::load(None))
}

#[test]
fn get_resolves_canonical_code() {
    let dm = default_resolver();
    assert_eq!(dm.get("sparkles"), "\u{2728}");
    assert_eq!(dm.get("rocket"), "\u{1f680}");
}

#[test]
fn get_resolves_pack_alias() {
    let dm = default_resolver();
    assert_eq!(dm.get("feat"), "\u{2728}");
    assert_eq!(dm.get("chore-release"), "\u{1f680}");
}

#[test]
fn get_unknown_code_stays_wrapped() {
    let dm = default_resolver();
    assert_eq!(dm.get("doesnotexist"), ":doesnotexist:");
}

#[test]
fn get_alias_cycle_is_unresolvable() {
    let file = ConfigFile {
        types: vec![],
        devmoji: vec![
            ConfigDevmojiEntry {
                code: "a".to_string(),
                emoji: Some("b".to_string()),
                gitmoji: None,
                description: None,
            },
            ConfigDevmojiEntry {
                code: "b".to_string(),
                emoji: Some("a".to_string()),
                gitmoji: None,
                description: None,
            },
        ],
    };
    let cfg = Config::load(Some(&file));
    let dm = Devmoji::new(&cfg);
    assert_eq!(dm.get("a"), ":a:");
    assert_eq!(dm.get("b"), ":b:");
}

#[test]
fn demojify_rewrites_glyphs() {
    let dm = default_resolver();
    assert_eq!(dm.demojify("a \u{2728} b"), "a :sparkles: b");
}

#[test]
fn demojify_handles_variation_selector() {
    let dm = default_resolver();
    assert_eq!(dm.demojify("\u{26a1}\u{fe0f}"), ":zap:");
    assert_eq!(dm.demojify("\u{26a1}"), ":zap:");
    assert_eq!(dm.demojify("x\u{fe0f}y"), "xy");
}

#[test]
fn emojify_resolves_tokens() {
    let dm = default_resolver();
    assert_eq!(dm.emojify("fix :bug: now"), "fix \u{1f41b} now");
    assert_eq!(dm.emojify(":doesnotexist: stays"), ":doesnotexist: stays");
}

#[test]
fn emojify_is_idempotent_on_samples() {
    let dm = default_resolver();
    for x in [
        "feat: :sparkles: \u{2728} plain",
        ":rocket: lift",
        "no emoji here",
        ":a::b: odd :: colons :",
        "\u{26a1}\u{fe0f} fast",
    ] {
        let once = dm.emojify(x);
        assert_eq!(dm.emojify(&once), once);
    }
}

#[test]
fn demojify_after_emojify_matches_demojify() {
    let dm = default_resolver();
    for x in [
        ":rocket: lift",
        "\u{26a1}\u{fe0f} fast :bug:",
        "plain text",
    ] {
        assert_eq!(dm.demojify(&dm.emojify(x)), dm.demojify(x));
    }
}

#[test]
fn devmojify_prefers_pack_aliases() {
    let dm = default_resolver();
    assert_eq!(dm.devmojify("\u{2728}"), ":feat:");
    assert_eq!(dm.devmojify(":sparkles:"), ":feat:");
    assert_eq!(dm.devmojify(":doesnotexist:"), ":doesnotexist:");
}

#[test]
fn strip_removes_emoji_and_one_leading_space() {
    let dm = default_resolver();
    assert_eq!(dm.strip("fix: bug \u{2728}"), "fix: bug");
    assert_eq!(dm.strip("fix: :bug: done \u{1f680}"), "fix: done");
}

#[test]
fn strip_output_has_no_shortcode() {
    let dm = default_resolver();
    for x in ["fix: :bug: done \u{1f680}", "\u{2728}\u{2728}", "a :zap: b"] {
        let out = dm.strip(x);
        for (i, c) in out.char_indices() {
            if c == ':' {
                // A token needs a closing colon after a nonempty code run.
                let rest: Vec<char> = out[i + 1..].chars().collect();
                let run = rest
                    .iter()
                    .take_while(|c| c.is_ascii_alphanumeric() || matches!(c, '_' | '+' | '-'))
                    .count();
                assert!(!(run >= 1 && rest.get(run) == Some(&':')), "token in {out:?}");
            }
        }
    }
}

#[test]
fn strip_can_expose_stray_colons() {
    // The colons around a removed token may join with surviving text:
    // stripping is only token-free when every colon sat inside a token.
    let dm = default_resolver();
    assert_eq!(dm.strip(":q :a::"), ":q:");
}

#[test]
fn pack_keeps_merge_order_and_overrides() {
    let file = ConfigFile {
        types: vec!["feat".to_string(), "wip".to_string()],
        devmoji: vec![
            ConfigDevmojiEntry {
                code: "feat".to_string(),
                emoji: Some("rocket".to_string()),
                gitmoji: None,
                description: None,
            },
            ConfigDevmojiEntry {
                code: "zap2".to_string(),
                emoji: None,
                gitmoji: Some("zap".to_string()),
                description: None,
            },
        ],
    };
    let cfg = Config::load(Some(&file));
    assert_eq!(cfg.types.len(), 11);
    assert_eq!(cfg.types[10], "wip");
    assert_eq!(cfg.devmojis[0].code, "feat");
    assert_eq!(cfg.devmojis[0].emoji, "rocket");
    assert_eq!(cfg.devmojis[0].description, "a new feature");
    let last = cfg.devmojis.last().unwrap();
    assert_eq!(last.code, "zap2");
    assert_eq!(last.emoji, "zap");
    assert_eq!(last.description, "Improving performance.");
}

#[test]
fn default_config_has_builtin_types() {
    let cfg = Config::load(None);
    assert_eq!(
        cfg.types,
        vec!["feat", "fix", "docs", "style", "refactor", "perf", "test", "chore", "build", "ci"]
    );
    assert_eq!(cfg.devmojis.len(), 19);
    assert_eq!(cfg.devmojis[0].code, "feat");
    assert_eq!(cfg.devmojis[0].emoji, "sparkles");
}
