//! The resolved configuration: the commit type vocabulary and the ordered
//! emoji pack, merged from built-in defaults and an optional configuration
//! file that the caller has already read and parsed.

use vstd::prelude::*;
use crate::gitmoji::{gitmoji_defs, GitmojiV};

verus! {

/// One entry of the emoji pack: an alias code, the emoji it stands for
/// (a glyph, a canonical shortcode, or another pack code), and a
/// human-readable description.
pub struct DevmojiEntry {
    pub code: String,
    pub emoji: String,
    pub description: String,
}

/// The mathematical shape of a pack entry: (code, emoji, description).
pub type PackV = (Seq<char>, Seq<char>, Seq<char>);

pub open spec fn entry_v(e: DevmojiEntry) -> PackV {
    (e.code@, e.emoji@, e.description@)
}

pub open spec fn pack_v(p: Seq<DevmojiEntry>) -> Seq<PackV> {
    p.map_values(|e: DevmojiEntry| entry_v(e))
}

/// One pack entry of a configuration file; `emoji`, `gitmoji` and
/// `description` are each optional there.
pub struct ConfigDevmojiEntry {
    pub code: String,
    pub emoji: Option<String>,
    pub gitmoji: Option<String>,
    pub description: Option<String>,
}

/// The mathematical shape of a configuration pack entry.
pub type CfgEntryV = (Seq<char>, Option<Seq<char>>, Option<Seq<char>>, Option<Seq<char>>);

pub open spec fn opt_v(o: Option<String>) -> Option<Seq<char>> {
    match o {
        Some(s) => Some(s@),
        None => None,
    }
}

pub open spec fn cfg_entry_v(e: ConfigDevmojiEntry) -> CfgEntryV {
    (e.code@, opt_v(e.emoji), opt_v(e.gitmoji), opt_v(e.description))
}

/// The content of a configuration file: extra commit types and extra or
/// overriding pack entries.
pub struct ConfigFile {
    pub types: Vec<String>,
    pub devmoji: Vec<ConfigDevmojiEntry>,
}

/// The resolved configuration.
pub struct Config {
    pub types: Vec<String>,
    pub devmojis: Vec<DevmojiEntry>,
}

impl Config {
    pub open spec fn types_v(&self) -> Seq<Seq<char>> {
        self.types@.map_values(|s: String| s@)
    }

    pub open spec fn pack_v(&self) -> Seq<PackV> {
        pack_v(self.devmojis@)
    }
}

/// The built-in commit types.
pub open spec fn default_types_defs() -> Seq<Seq<char>> {
    seq![
        "feat"@, "fix"@, "docs"@, "style"@, "refactor"@,
        "perf"@, "test"@, "chore"@, "build"@, "ci"@,
    ]
}

/// The built-in emoji pack.
pub open spec fn default_pack_defs() -> Seq<PackV> {
    seq![
        ("feat"@, "sparkles"@, "a new feature"@),
        ("fix"@, "bug"@, "a bug fix"@),
        ("docs"@, "books"@, "documentation only changes"@),
        ("style"@, "art"@, "changes that do not affect the meaning of the code"@),
        ("refactor"@, "recycle"@, "a code change that neither fixes a bug nor adds a feature"@),
        ("perf"@, "zap"@, "a code change that improves performance"@),
        ("test"@, "rotating_light"@, "adding missing or correcting existing tests"@),
        ("chore"@, "wrench"@, "changes to the build process or auxiliary tools"@),
        ("chore-release"@, "rocket"@, "code deployment or publishing to external repositories"@),
        ("chore-deps"@, "link"@, "add or delete dependencies"@),
        ("build"@, "package"@, "changes related to build processes"@),
        ("ci"@, "construction_worker"@, "updates to the continuous integration system"@),
        ("release"@, "rocket"@, "code deployment or publishing to external repositories"@),
        ("security"@, "lock"@, "fixing security issues"@),
        ("i18n"@, "globe_with_meridians"@, "internationalization and localization"@),
        ("breaking"@, "boom"@, "introducing breaking changes"@),
        ("config"@, "gear"@, "changing configuration files"@),
        ("add"@, "heavy_plus_sign"@, "add something"@),
        ("remove"@, "heavy_minus_sign"@, "remove something"@),
    ]
}

/// First entry of the gitmoji table with the given code, if any.
pub open spec fn git_find(gd: Seq<GitmojiV>, code: Seq<char>) -> Option<GitmojiV>
    decreases gd.len(),
{
    if gd.len() == 0 {
        None
    } else if gd[0].0 == code {
        Some(gd[0])
    } else {
        git_find(gd.drop_first(), code)
    }
}

/// The emoji a configuration entry resolves to: its own `emoji` field, or
/// the code of the gitmoji it names, if that gitmoji exists.
pub open spec fn resolve_emoji_spec(e: CfgEntryV) -> Option<Seq<char>> {
    if e.1 is Some {
        e.1
    } else if e.2 is Some {
        match git_find(gitmoji_defs(), e.2->0) {
            Some(t) => Some(t.0),
            None => None,
        }
    } else {
        None
    }
}

/// The description a configuration entry resolves to: its own field, or
/// the description of the gitmoji it names.
pub open spec fn resolve_desc_spec(e: CfgEntryV) -> Option<Seq<char>> {
    if e.3 is Some {
        e.3
    } else if e.2 is Some {
        match git_find(gitmoji_defs(), e.2->0) {
            Some(t) => Some(t.2),
            None => None,
        }
    } else {
        None
    }
}

/// Index of the first pack entry with the given code, or -1.
pub open spec fn pack_find_idx(p: Seq<PackV>, code: Seq<char>) -> int
    decreases p.len(),
{
    if p.len() == 0 {
        -1
    } else if p[0].0 == code {
        0
    } else {
        let r = pack_find_idx(p.drop_first(), code);
        if r < 0 {
            -1
        } else {
            r + 1
        }
    }
}

pub proof fn lemma_pack_find_idx(p: Seq<PackV>, code: Seq<char>)
    ensures
        pack_find_idx(p, code) < p.len(),
        pack_find_idx(p, code) >= 0 ==> p[pack_find_idx(p, code)].0 == code,
        pack_find_idx(p, code) < 0 ==> forall|i: int| 0 <= i < p.len() ==> p[i].0 != code,
        pack_find_idx(p, code) >= 0 ==> forall|i: int|
            0 <= i < pack_find_idx(p, code) ==> p[i].0 != code,
    decreases p.len(),
{
    if p.len() > 0 && p[0].0 != code {
        lemma_pack_find_idx(p.drop_first(), code);
        assert(forall|i: int| 1 <= i < p.len() ==> p[i] == p.drop_first()[i - 1]);
    }
}

/// One step of the type merge: append the type unless it is present.
pub open spec fn merge_types_step(acc: Seq<Seq<char>>, t: Seq<char>) -> Seq<Seq<char>> {
    if acc.contains(t) {
        acc
    } else {
        acc.push(t)
    }
}

pub open spec fn merge_types_spec(acc: Seq<Seq<char>>, add: Seq<Seq<char>>) -> Seq<Seq<char>>
    decreases add.len(),
{
    if add.len() == 0 {
        acc
    } else {
        merge_types_spec(merge_types_step(acc, add[0]), add.drop_first())
    }
}

/// One step of the pack merge: a configuration entry overrides the fields
/// of the entry with its code, or appends a new entry.
pub open spec fn merge_pack_step(acc: Seq<PackV>, e: CfgEntryV) -> Seq<PackV> {
    let em = resolve_emoji_spec(e);
    let d = resolve_desc_spec(e);
    let i = pack_find_idx(acc, e.0);
    if i >= 0 {
        let old_entry = acc[i];
        acc.update(
            i,
            (
                old_entry.0,
                if em is Some { em->0 } else { old_entry.1 },
                if d is Some { d->0 } else { old_entry.2 },
            ),
        )
    } else {
        acc.push((e.0, if em is Some { em->0 } else { Seq::empty() },
                  if d is Some { d->0 } else { Seq::empty() }))
    }
}

pub open spec fn merge_pack_spec(acc: Seq<PackV>, add: Seq<CfgEntryV>) -> Seq<PackV>
    decreases add.len(),
{
    if add.len() == 0 {
        acc
    } else {
        merge_pack_spec(merge_pack_step(acc, add[0]), add.drop_first())
    }
}

proof fn lemma_merge_types_push(acc: Seq<Seq<char>>, a: Seq<Seq<char>>, x: Seq<char>)
    ensures
        merge_types_spec(acc, a.push(x)) == merge_types_step(merge_types_spec(acc, a), x),
    decreases a.len(),
{
    if a.len() == 0 {
        assert(a.push(x)[0] == x);
        assert(a.push(x).drop_first() =~= a);
        assert(merge_types_spec(acc, a.push(x))
            == merge_types_spec(merge_types_step(acc, x), a));
        assert(merge_types_spec(merge_types_step(acc, x), a) == merge_types_step(acc, x));
        assert(merge_types_spec(acc, a) == acc);
    } else {
        assert(a.push(x)[0] == a[0]);
        assert(a.push(x).drop_first() =~= a.drop_first().push(x));
        assert(merge_types_spec(acc, a.push(x))
            == merge_types_spec(merge_types_step(acc, a[0]), a.drop_first().push(x)));
        assert(merge_types_spec(acc, a)
            == merge_types_spec(merge_types_step(acc, a[0]), a.drop_first()));
        lemma_merge_types_push(merge_types_step(acc, a[0]), a.drop_first(), x);
    }
}

proof fn lemma_merge_pack_push(acc: Seq<PackV>, a: Seq<CfgEntryV>, x: CfgEntryV)
    ensures
        merge_pack_spec(acc, a.push(x)) == merge_pack_step(merge_pack_spec(acc, a), x),
    decreases a.len(),
{
    if a.len() == 0 {
        assert(a.push(x)[0] == x);
        assert(a.push(x).drop_first() =~= a);
        assert(merge_pack_spec(acc, a.push(x))
            == merge_pack_spec(merge_pack_step(acc, x), a));
        assert(merge_pack_spec(merge_pack_step(acc, x), a) == merge_pack_step(acc, x));
        assert(merge_pack_spec(acc, a) == acc);
    } else {
        assert(a.push(x)[0] == a[0]);
        assert(a.push(x).drop_first() =~= a.drop_first().push(x));
        assert(merge_pack_spec(acc, a.push(x))
            == merge_pack_spec(merge_pack_step(acc, a[0]), a.drop_first().push(x)));
        assert(merge_pack_spec(acc, a)
            == merge_pack_spec(merge_pack_step(acc, a[0]), a.drop_first()));
        lemma_merge_pack_push(merge_pack_step(acc, a[0]), a.drop_first(), x);
    }
}

fn pack_entry(code: &str, emoji: &str, description: &str) -> (e: DevmojiEntry)
    ensures
        entry_v(e) == (code@, emoji@, description@),
{
    DevmojiEntry {
        code: code.to_owned(),
        emoji: emoji.to_owned(),
        description: description.to_owned(),
    }
}

/// The built-in commit types, as a vector.
pub fn default_types() -> (v: Vec<String>)
    ensures
        v@.map_values(|s: String| s@) == default_types_defs(),
{
    let mut v: Vec<String> = Vec::new();
    v.push("feat".to_owned());
    v.push("fix".to_owned());
    v.push("docs".to_owned());
    v.push("style".to_owned());
    v.push("refactor".to_owned());
    v.push("perf".to_owned());
    v.push("test".to_owned());
    v.push("chore".to_owned());
    v.push("build".to_owned());
    v.push("ci".to_owned());
    proof {
        assert(v@.map_values(|s: String| s@) =~= default_types_defs());
    }
    v
}

/// The built-in emoji pack, as a vector.
pub fn default_pack() -> (v: Vec<DevmojiEntry>)
    ensures
        pack_v(v@) == default_pack_defs(),
{
    let mut v: Vec<DevmojiEntry> = Vec::new();
    v.push(pack_entry("feat", "sparkles", "a new feature"));
    v.push(pack_entry("fix", "bug", "a bug fix"));
    v.push(pack_entry("docs", "books", "documentation only changes"));
    v.push(pack_entry("style", "art", "changes that do not affect the meaning of the code"));
    v.push(pack_entry("refactor", "recycle", "a code change that neither fixes a bug nor adds a feature"));
    v.push(pack_entry("perf", "zap", "a code change that improves performance"));
    v.push(pack_entry("test", "rotating_light", "adding missing or correcting existing tests"));
    v.push(pack_entry("chore", "wrench", "changes to the build process or auxiliary tools"));
    v.push(pack_entry("chore-release", "rocket", "code deployment or publishing to external repositories"));
    v.push(pack_entry("chore-deps", "link", "add or delete dependencies"));
    v.push(pack_entry("build", "package", "changes related to build processes"));
    v.push(pack_entry("ci", "construction_worker", "updates to the continuous integration system"));
    v.push(pack_entry("release", "rocket", "code deployment or publishing to external repositories"));
    v.push(pack_entry("security", "lock", "fixing security issues"));
    v.push(pack_entry("i18n", "globe_with_meridians", "internationalization and localization"));
    v.push(pack_entry("breaking", "boom", "introducing breaking changes"));
    v.push(pack_entry("config", "gear", "changing configuration files"));
    v.push(pack_entry("add", "heavy_plus_sign", "add something"));
    v.push(pack_entry("remove", "heavy_minus_sign", "remove something"));
    proof {
        assert(pack_v(v@) =~= default_pack_defs());
    }
    v
}

/// The emoji a configuration entry names, if any: its own `emoji` field
/// first, else the code of the gitmoji it refers to.
pub fn resolve_config_emoji(entry: &ConfigDevmojiEntry) -> (r: Option<String>)
    ensures
        opt_v(r) == resolve_emoji_spec(cfg_entry_v(*entry)),
{
    match &entry.emoji {
        Some(e) => Some(e.clone()),
        None => match &entry.gitmoji {
            Some(g) => match find_gitmoji(g) {
                Some(t) => Some(t.code),
                None => None,
            },
            None => None,
        },
    }
}

/// The description a configuration entry names, if any: its own field
/// first, else the description of the gitmoji it refers to.
pub fn resolve_config_description(entry: &ConfigDevmojiEntry) -> (r: Option<String>)
    ensures
        opt_v(r) == resolve_desc_spec(cfg_entry_v(*entry)),
{
    match &entry.description {
        Some(d) => Some(d.clone()),
        None => match &entry.gitmoji {
            Some(g) => match find_gitmoji(g) {
                Some(t) => Some(t.description),
                None => None,
            },
            None => None,
        },
    }
}

/// First gitmoji entry whose code equals `code`.
fn find_gitmoji(code: &String) -> (r: Option<crate::gitmoji::GitmojiEntry>)
    ensures
        match r {
            Some(t) => git_find(gitmoji_defs(), code@) == Some(crate::gitmoji::gitmoji_v(t)),
            None => git_find(gitmoji_defs(), code@) is None,
        },
{
    let table = crate::gitmoji::gitmoji_table();
    let ghost gd = gitmoji_defs();
    let mut j: usize = 0;
    while j < table.len()
        invariant
            j <= table.len(),
            gd == gitmoji_defs(),
            table@.map_values(|e: crate::gitmoji::GitmojiEntry| crate::gitmoji::gitmoji_v(e)) == gd,
            forall|k: int| 0 <= k < j ==> gd[k].0 != code@,
        decreases table.len() - j,
    {
        assert(gd[j as int] == crate::gitmoji::gitmoji_v(table@[j as int]));
        if table[j].code == *code {
            assert(gd[j as int].0 == code@);
            proof {
                lemma_git_find_at(gd, code@, j as int);
            }
            let e = &table[j];
            let hit = crate::gitmoji::GitmojiEntry {
                code: e.code.clone(),
                emoji: e.emoji.clone(),
                description: e.description.clone(),
            };
            assert(crate::gitmoji::gitmoji_v(hit) == gd[j as int]);
            return Some(hit);
        }
        j += 1;
    }
    proof {
        lemma_git_find_none(gd, code@);
    }
    None
}

/// `git_find` returns the first matching entry.
proof fn lemma_git_find_at(gd: Seq<GitmojiV>, code: Seq<char>, j: int)
    requires
        0 <= j < gd.len(),
        gd[j].0 == code,
        forall|k: int| 0 <= k < j ==> gd[k].0 != code,
    ensures
        git_find(gd, code) == Some(gd[j]),
    decreases j,
{
    if j > 0 {
        assert(forall|k: int| 0 <= k < gd.drop_first().len() ==> gd.drop_first()[k] == gd[k + 1]);
        lemma_git_find_at(gd.drop_first(), code, j - 1);
    }
}

/// `git_find` returns nothing when no entry matches.
proof fn lemma_git_find_none(gd: Seq<GitmojiV>, code: Seq<char>)
    requires
        forall|k: int| 0 <= k < gd.len() ==> gd[k].0 != code,
    ensures
        git_find(gd, code) is None,
    decreases gd.len(),
{
    if gd.len() > 0 {
        assert(forall|k: int| 0 <= k < gd.drop_first().len() ==> gd.drop_first()[k] == gd[k + 1]);
        lemma_git_find_none(gd.drop_first(), code);
    }
}

impl Config {
    /// Builds the resolved configuration: the defaults, merged with the
    /// optional configuration file.  Types are appended unless present;
    /// pack entries override the entry with their code or are appended.
    pub fn load(file_config: Option<&ConfigFile>) -> (c: Config)
        ensures
            match file_config {
                None => c.types_v() == default_types_defs() && c.pack_v() == default_pack_defs(),
                Some(f) => c.types_v() == merge_types_spec(
                    default_types_defs(),
                    f.types@.map_values(|s: String| s@),
                ) && c.pack_v() == merge_pack_spec(
                    default_pack_defs(),
                    f.devmoji@.map_values(|e: ConfigDevmojiEntry| cfg_entry_v(e)),
                ),
            },
    {
        let mut types = default_types();
        let mut devmojis = default_pack();
        let cfg = match file_config {
            None => {
                return Config { types, devmojis };
            },
            Some(cfg) => cfg,
        };

        let ghost add_types = cfg.types@.map_values(|s: String| s@);
        let mut i: usize = 0;
        while i < cfg.types.len()
            invariant
                i <= cfg.types.len(),
                add_types == cfg.types@.map_values(|s: String| s@),
                types@.map_values(|s: String| s@) == merge_types_spec(
                    default_types_defs(),
                    add_types.take(i as int),
                ),
            decreases cfg.types.len() - i,
        {
            let t = &cfg.types[i];
            let mut found = false;
            let mut j: usize = 0;
            while j < types.len()
                invariant
                    j <= types.len(),
                    found <==> exists|k: int| 0 <= k < j && types@[k]@ == t@,
                decreases types.len() - j,
            {
                if types[j] == *t {
                    found = true;
                }
                j += 1;
            }
            let ghost tv = types@.map_values(|s: String| s@);
            assert(found <==> tv.contains(t@)) by {
                if found {
                    let k = choose|k: int| 0 <= k < types@.len() && types@[k]@ == t@;
                    assert(tv[k] == t@);
                }
                if tv.contains(t@) {
                    let k = choose|k: int| 0 <= k < tv.len() && tv[k] == t@;
                    assert(types@[k]@ == t@);
                }
            }
            if !found {
                types.push(t.clone());
            }
            proof {
                assert(types@.map_values(|s: String| s@) =~= merge_types_step(tv, t@));
                lemma_merge_types_push(default_types_defs(), add_types.take(i as int), add_types[i as int]);
                assert(add_types.take(i as int).push(add_types[i as int]) =~= add_types.take(i + 1));
            }
            i += 1;
        }
        proof {
            assert(add_types.take(add_types.len() as int) =~= add_types);
        }

        let ghost add_pack = cfg.devmoji@.map_values(|e: ConfigDevmojiEntry| cfg_entry_v(e));
        let mut i: usize = 0;
        while i < cfg.devmoji.len()
            invariant
                i <= cfg.devmoji.len(),
                add_pack == cfg.devmoji@.map_values(|e: ConfigDevmojiEntry| cfg_entry_v(e)),
                pack_v(devmojis@) == merge_pack_spec(default_pack_defs(), add_pack.take(i as int)),
            decreases cfg.devmoji.len() - i,
        {
            let e = &cfg.devmoji[i];
            let em = resolve_config_emoji(e);
            let d = resolve_config_description(e);
            let ghost pv = pack_v(devmojis@);
            let ghost ev = cfg_entry_v(*e);

            let mut at: usize = 0;
            let mut found = false;
            let mut j: usize = 0;
            while j < devmojis.len()
                invariant
                    j <= devmojis.len(),
                    at < j || !found,
                    pv == pack_v(devmojis@),
                    ev == cfg_entry_v(*e),
                    !found ==> forall|k: int| 0 <= k < j ==> pv[k].0 != ev.0,
                    found ==> 0 <= at < j && pv[at as int].0 == ev.0
                        && forall|k: int| 0 <= k < at ==> pv[k].0 != ev.0,
                decreases devmojis.len() - j,
            {
                assert(pv[j as int] == entry_v(devmojis@[j as int]));
                if !found && devmojis[j].code == e.code {
                    found = true;
                    at = j;
                }
                j += 1;
            }
            proof {
                lemma_pack_find_idx(pv, ev.0);
            }
            if found {
                assert(pack_find_idx(pv, ev.0) == at);
                if let Some(s) = em {
                    devmojis[at].emoji = s;
                }
                if let Some(s) = d {
                    devmojis[at].description = s;
                }
                proof {
                    assert(pack_v(devmojis@) =~= merge_pack_step(pv, ev));
                }
            } else {
                assert(pack_find_idx(pv, ev.0) < 0);
                let code = e.code.clone();
                let emoji = match em {
                    Some(s) => s,
                    None => String::new(),
                };
                let description = match d {
                    Some(s) => s,
                    None => String::new(),
                };
                devmojis.push(DevmojiEntry { code, emoji, description });
                proof {
                    assert(pack_v(devmojis@) =~= merge_pack_step(pv, ev));
                }
            }
            proof {
                lemma_merge_pack_push(default_pack_defs(), add_pack.take(i as int), add_pack[i as int]);
                assert(add_pack.take(i as int).push(add_pack[i as int]) =~= add_pack.take(i + 1));
            }
            i += 1;
        }
        proof {
            assert(add_pack.take(add_pack.len() as int) =~= add_pack);
        }

        Config { types, devmojis }
    }
}

} // verus!

