//! Rewriting and linting of conventional-commit headers: each recognized
//! header gains the emoji computed from its type, scope, extra shortcodes
//! and breaking-change markers.

use vstd::prelude::*;
use crate::config::{Config, PackV};
use crate::devmoji::{
    pack_emoji, get_spec, DefV, Devmoji, devmojify_spec, emojify_spec,
};
use crate::header::{
    header_at, HeaderV, HeaderMatch, try_header_at, ws_run, ws_run_exec, lemma_header_end,
};
use crate::text::{
    chars_of, string_from_chars, append_str, append_range, vec_range, prefix_at,
    starts_with_at, is_space_char, space_char, str_eq_range,
};

use colored::Colorize;

verus! {

/// What `lookup_pack_code` returns: the resolved emoji of the first pack
/// entry with the given code, if any.
pub open spec fn lookup_pack_code_spec(pack: Seq<PackV>, defs: Seq<DefV>, code: Seq<char>) -> Option<
    Seq<char>,
> {
    match pack_emoji(pack, code) {
        Some(em) => Some(get_spec(pack, defs, em)),
        None => None,
    }
}

/// Appends `x` unless it is empty or already present.
pub open spec fn push_unique_spec(acc: Seq<Seq<char>>, x: Seq<char>) -> Seq<Seq<char>> {
    if x.len() == 0 || acc.contains(x) {
        acc
    } else {
        acc.push(x)
    }
}

/// Resolves and appends every captured shortcode, deduplicating.
pub open spec fn push_codes_spec(
    pack: Seq<PackV>,
    defs: Seq<DefV>,
    acc: Seq<Seq<char>>,
    codes: Seq<Seq<char>>,
) -> Seq<Seq<char>>
    decreases codes.len(),
{
    if codes.len() == 0 {
        acc
    } else {
        push_codes_spec(
            pack,
            defs,
            push_unique_spec(acc, get_spec(pack, defs, codes[0])),
            codes.drop_first(),
        )
    }
}

/// The emoji sequence of a header before the captured shortcodes join:
/// the breaking emoji first when the change is breaking; one compound
/// emoji for `type-scope` when the pack defines it, else the type's and
/// the scope's; deduplicated, with empty resolutions dropped.
pub open spec fn format_emoji_base(
    pack: Seq<PackV>,
    defs: Seq<DefV>,
    commit_type: Seq<char>,
    scope: Option<Seq<char>>,
    breaking: bool,
) -> Seq<Seq<char>> {
    let e0: Seq<Seq<char>> = if breaking {
        seq![get_spec(pack, defs, "boom"@)]
    } else {
        Seq::empty()
    };
    let te = lookup_pack_code_spec(pack, defs, commit_type);
    match scope {
        Some(sc) => {
            let compound = commit_type + seq!['-'] + sc;
            match lookup_pack_code_spec(pack, defs, compound) {
                Some(e) => push_unique_spec(e0, e),
                None => {
                    let a = match te {
                        Some(e) => push_unique_spec(e0, e),
                        None => e0,
                    };
                    match lookup_pack_code_spec(pack, defs, sc) {
                        Some(e) => push_unique_spec(a, e),
                        None => a,
                    }
                },
            }
        },
        None => match te {
            Some(e) => push_unique_spec(e0, e),
            None => e0,
        },
    }
}

/// The emoji sequence of one header: the base for its type, scope and
/// breaking flag, then every captured shortcode, deduplicated.
pub open spec fn format_emoji_spec(
    pack: Seq<PackV>,
    defs: Seq<DefV>,
    commit_type: Seq<char>,
    scope: Option<Seq<char>>,
    codes: Seq<Seq<char>>,
    breaking: bool,
) -> Seq<Seq<char>> {
    push_codes_spec(
        pack,
        defs,
        format_emoji_base(pack, defs, commit_type, scope, breaking),
        codes,
    )
}

/// The elements joined with the separator between each pair.
pub open spec fn join_spec(l: Seq<Seq<char>>, sep: Seq<char>) -> Seq<char>
    decreases l.len(),
{
    if l.len() == 0 {
        Seq::empty()
    } else if l.len() == 1 {
        l[0]
    } else {
        l[0] + sep + join_spec(l.drop_first(), sep)
    }
}

/// The text a recognized header is replaced by.
pub open spec fn replacement_spec(
    pack: Seq<PackV>,
    defs: Seq<DefV>,
    h: HeaderV,
    has_breaking: bool,
) -> Seq<char> {
    let breaking = h.breaking || has_breaking;
    let emojis = format_emoji_spec(pack, defs, h.cap, h.scope, h.codes, breaking);
    let joined = join_spec(emojis, seq![' ']);
    h.cap + (match h.scope {
        Some(sc) => seq!['('] + sc + seq![')'],
        None => Seq::empty(),
    }) + (if breaking {
        seq!['!']
    } else {
        Seq::empty()
    }) + seq![':', ' '] + joined + (if joined.len() > 0 {
        seq![' ']
    } else {
        Seq::empty()
    })
}

/// Whether position `q` starts a line.
pub open spec fn line_start(s: Seq<char>, q: int) -> bool {
    0 <= q <= s.len() && (q == 0 || s[q - 1] == '\n')
}

/// Whether some line's leading whitespace is followed by the literal
/// `BREAKING CHANGE`.
pub open spec fn has_breaking_spec(s: Seq<char>) -> bool {
    exists|q: int|
        line_start(s, q) && prefix_at(s, q + ws_run(s, q), "BREAKING CHANGE"@)
}

/// The splicing pass: scan left to right; a match is replaced, or, when
/// skipped, kept verbatim; its span is consumed either way.  A match is
/// skipped when its type starts with a colon, and in single-header mode
/// also when it is not anchored at the start or one was already
/// replaced.
pub open spec fn splice_from(
    pack: Seq<PackV>,
    defs: Seq<DefV>,
    s: Seq<char>,
    i: int,
    first_only: bool,
    found: bool,
    hb: bool,
) -> Seq<char>
    decreases s.len() - i when 0 <= i <= s.len() via splice_from_decreases
{
    if i < 0 || i >= s.len() {
        Seq::empty()
    } else {
        match header_at(s, i) {
            Some(h) => {
                if (first_only && (i != 0 || found)) || h.cap[0] == ':' {
                    s.subrange(i, h.end) + splice_from(pack, defs, s, h.end, first_only, found, hb)
                } else {
                    replacement_spec(pack, defs, h, hb)
                        + splice_from(pack, defs, s, h.end, first_only, true, hb)
                }
            },
            None => seq![s[i]] + splice_from(pack, defs, s, i + 1, first_only, found, hb),
        }
    }
}

#[via_fn]
proof fn splice_from_decreases(
    pack: Seq<PackV>,
    defs: Seq<DefV>,
    s: Seq<char>,
    i: int,
    first_only: bool,
    found: bool,
    hb: bool,
) {
    if 0 <= i < s.len() && header_at(s, i) is Some {
        lemma_header_end(s, i);
    }
}

/// What formatting does to a whole text: normalize to pack aliases,
/// splice every eligible header, then render every shortcode as its
/// emoji.
pub open spec fn format_text_spec(
    pack: Seq<PackV>,
    defs: Seq<DefV>,
    git: Seq<Seq<char>>,
    text: Seq<char>,
    first_only: bool,
) -> Seq<char> {
    let t = devmojify_spec(pack, defs, git, text);
    let hb = has_breaking_spec(t);
    emojify_spec(pack, defs, splice_from(pack, defs, t, 0, first_only, false, hb))
}

/// Index of the first newline at or after `i`, or the length.
pub open spec fn first_nl(s: Seq<char>, i: int) -> int
    decreases s.len() - i when 0 <= i <= s.len()
{
    if i < 0 || i >= s.len() {
        s.len() as int
    } else if s[i] == '\n' {
        i
    } else {
        first_nl(s, i + 1)
    }
}

/// The first line of the text: up to the first newline, with the
/// carriage return of a `\r\n` ending removed.
pub open spec fn first_line_spec(s: Seq<char>) -> Seq<char> {
    let e = first_nl(s, 0);
    let line = s.subrange(0, e);
    if e < s.len() && line.len() > 0 && line[line.len() - 1] == '\r' {
        line.drop_last()
    } else {
        line
    }
}

/// Position of the leftmost header match at or after `i`.
pub open spec fn first_match_from(s: Seq<char>, i: int) -> Option<int>
    decreases s.len() - i when 0 <= i <= s.len()
{
    if i < 0 || i >= s.len() {
        None
    } else if header_at(s, i) is Some {
        Some(i)
    } else {
        first_match_from(s, i + 1)
    }
}

/// Commit subjects that are never linted.
pub open spec fn lint_bypass(fl: Seq<char>) -> bool {
    ||| prefix_at(fl, 0, "Merge branch"@)
    ||| prefix_at(fl, 0, "fixup!"@)
    ||| prefix_at(fl, 0, "squash!"@)
    ||| prefix_at(fl, 0, "Revert"@)
    ||| prefix_at(fl, 0, "revert"@)
}

pub open spec fn generic_diag() -> Seq<char> {
    "Expecting a commit message like: type(scope): description"@
}

pub open spec fn type_diag(types: Seq<Seq<char>>) -> Seq<char> {
    "Type should be one of: "@ + join_spec(types, ", "@)
}

pub open spec fn missing_desc_diag() -> Seq<char> {
    "Missing description"@
}

pub open spec fn all_space(s: Seq<char>) -> bool {
    forall|k: int| 0 <= k < s.len() ==> is_space_char(s[k])
}

/// The linter's diagnostics: none for a bypassed subject; the generic
/// message when no header match is anchored at the start; else, an
/// unknown type and a missing description each add their message.
pub open spec fn lint_diags(types: Seq<Seq<char>>, text: Seq<char>) -> Seq<Seq<char>> {
    let fl = first_line_spec(text);
    if lint_bypass(fl) {
        Seq::empty()
    } else {
        match first_match_from(fl, 0) {
            None => seq![generic_diag()],
            Some(p) => if p != 0 {
                seq![generic_diag()]
            } else {
                let h = header_at(fl, 0)->0;
                let e1: Seq<Seq<char>> = if types.contains(h.cap) {
                    Seq::empty()
                } else {
                    seq![type_diag(types)]
                };
                let e2: Seq<Seq<char>> = if all_space(fl.skip(h.end)) {
                    seq![missing_desc_diag()]
                } else {
                    Seq::empty()
                };
                e1 + e2
            },
        }
    }
}

/// Pairwise distinctness of an emoji sequence.
pub open spec fn distinct_emojis(l: Seq<Seq<char>>) -> bool {
    forall|i: int, j: int| 0 <= i < j < l.len() ==> l[i] != l[j]
}

proof fn lemma_push_unique_distinct(acc: Seq<Seq<char>>, x: Seq<char>)
    requires
        distinct_emojis(acc),
    ensures
        distinct_emojis(push_unique_spec(acc, x)),
{
    if !(x.len() == 0 || acc.contains(x)) {
        let r = acc.push(x);
        assert forall|i: int, j: int| 0 <= i < j < r.len() implies r[i] != r[j] by {
            if j == r.len() - 1 {
                assert(r[j] == x);
                if r[i] == x {
                    assert(acc[i] == x);
                    assert(acc.contains(x));
                }
            }
        }
    }
}

proof fn lemma_push_codes_distinct(
    pack: Seq<PackV>,
    defs: Seq<DefV>,
    acc: Seq<Seq<char>>,
    codes: Seq<Seq<char>>,
)
    requires
        distinct_emojis(acc),
    ensures
        distinct_emojis(push_codes_spec(pack, defs, acc, codes)),
    decreases codes.len(),
{
    if codes.len() > 0 {
        lemma_push_unique_distinct(acc, get_spec(pack, defs, codes[0]));
        lemma_push_codes_distinct(
            pack,
            defs,
            push_unique_spec(acc, get_spec(pack, defs, codes[0])),
            codes.drop_first(),
        );
    }
}

/// Law: the emoji sequence of a header never holds the same emoji twice;
/// in particular, a type and a scope that resolve to one emoji yield it
/// once.
pub proof fn lemma_format_emoji_distinct(
    pack: Seq<PackV>,
    defs: Seq<DefV>,
    commit_type: Seq<char>,
    scope: Option<Seq<char>>,
    codes: Seq<Seq<char>>,
    breaking: bool,
)
    ensures
        distinct_emojis(format_emoji_spec(pack, defs, commit_type, scope, codes, breaking)),
{
    let e0: Seq<Seq<char>> = if breaking {
        seq![get_spec(pack, defs, "boom"@)]
    } else {
        Seq::empty()
    };
    assert(distinct_emojis(e0));
    let te = lookup_pack_code_spec(pack, defs, commit_type);
    match scope {
        Some(sc) => {
            let compound = commit_type + seq!['-'] + sc;
            match lookup_pack_code_spec(pack, defs, compound) {
                Some(e) => {
                    lemma_push_unique_distinct(e0, e);
                },
                None => {
                    let a = match te {
                        Some(e) => push_unique_spec(e0, e),
                        None => e0,
                    };
                    if te is Some {
                        lemma_push_unique_distinct(e0, te->0);
                    }
                    match lookup_pack_code_spec(pack, defs, sc) {
                        Some(e) => {
                            lemma_push_unique_distinct(a, e);
                        },
                        None => {},
                    }
                },
            }
        },
        None => {
            if te is Some {
                lemma_push_unique_distinct(e0, te->0);
            }
        },
    }
    lemma_push_codes_distinct(
        pack,
        defs,
        format_emoji_base(pack, defs, commit_type, scope, breaking),
        codes,
    );
}


/// Relies on `colored::Colorize::blue`: the rendering depends on the
/// global colour override and the environment, so nothing is promised
/// of the result.
#[verifier::external_body]
fn style_type(s: &str) -> String {
    s.blue().to_string()
}

/// Relies on `colored::Colorize::bold`: the rendering depends on the
/// global colour override and the environment, so nothing is promised
/// of the result.
#[verifier::external_body]
fn style_scope(s: &str) -> String {
    s.bold().to_string()
}

/// Appends the emoji unless it is empty or already present.
fn push_unique(vec: &mut Vec<String>, item: String)
    ensures
        final(vec)@.map_values(|s: String| s@) == push_unique_spec(
            old(vec)@.map_values(|s: String| s@),
            item@,
        ),
{
    let ghost acc = vec@.map_values(|s: String| s@);
    if item.as_str().is_empty() {
        assert(item@.len() == 0);
        return;
    }
    let mut present = false;
    let mut j: usize = 0;
    while j < vec.len()
        invariant
            j <= vec@.len(),
            acc == vec@.map_values(|s: String| s@),
            present <==> exists|k: int| 0 <= k < j && acc[k] == item@,
        decreases vec@.len() - j,
    {
        assert(acc[j as int] == vec@[j as int]@);
        if !present && vec[j] == item {
            present = true;
        }
        j += 1;
    }
    proof {
        if present {
            let k = choose|k: int| 0 <= k < acc.len() && acc[k] == item@;
            assert(acc.contains(item@));
        } else {
            assert(!acc.contains(item@)) by {
                if acc.contains(item@) {
                    let k = choose|k: int| 0 <= k < acc.len() && acc[k] == item@;
                }
            }
        }
    }
    if !present {
        vec.push(item);
        proof {
            assert(vec@.map_values(|s: String| s@) =~= acc.push(item@));
        }
    }
}

proof fn lemma_push_codes_push(
    pack: Seq<PackV>,
    defs: Seq<DefV>,
    acc: Seq<Seq<char>>,
    a: Seq<Seq<char>>,
    x: Seq<char>,
)
    ensures
        push_codes_spec(pack, defs, acc, a.push(x)) == push_unique_spec(
            push_codes_spec(pack, defs, acc, a),
            get_spec(pack, defs, x),
        ),
    decreases a.len(),
{
    if a.len() == 0 {
        assert(a.push(x)[0] == x);
        assert(a.push(x).drop_first() =~= a);
        assert(push_codes_spec(pack, defs, acc, a.push(x))
            == push_codes_spec(pack, defs, push_unique_spec(acc, get_spec(pack, defs, x)), a));
        assert(push_codes_spec(pack, defs, push_unique_spec(acc, get_spec(pack, defs, x)), a)
            == push_unique_spec(acc, get_spec(pack, defs, x)));
        assert(push_codes_spec(pack, defs, acc, a) == acc);
    } else {
        assert(a.push(x)[0] == a[0]);
        assert(a.push(x).drop_first() =~= a.drop_first().push(x));
        assert(push_codes_spec(pack, defs, acc, a.push(x)) == push_codes_spec(
            pack,
            defs,
            push_unique_spec(acc, get_spec(pack, defs, a[0])),
            a.drop_first().push(x),
        ));
        assert(push_codes_spec(pack, defs, acc, a) == push_codes_spec(
            pack,
            defs,
            push_unique_spec(acc, get_spec(pack, defs, a[0])),
            a.drop_first(),
        ));
        lemma_push_codes_push(
            pack,
            defs,
            push_unique_spec(acc, get_spec(pack, defs, a[0])),
            a.drop_first(),
            x,
        );
    }
}

proof fn lemma_join_push(l: Seq<Seq<char>>, sep: Seq<char>, x: Seq<char>)
    ensures
        join_spec(l.push(x), sep) == if l.len() == 0 {
            x
        } else {
            join_spec(l, sep) + sep + x
        },
    decreases l.len(),
{
    if l.len() == 0 {
        assert(l.push(x)[0] == x);
    } else {
        assert(l.push(x)[0] == l[0]);
        assert(l.push(x).drop_first() =~= l.drop_first().push(x));
        lemma_join_push(l.drop_first(), sep, x);
        if l.len() == 1 {
            assert(join_spec(l, sep) == l[0]);
            assert(l.push(x).len() == 2);
            assert(join_spec(l.push(x), sep) == l[0] + sep + join_spec(l.drop_first().push(x), sep));
            assert(l.drop_first().len() == 0);
            assert(join_spec(l.drop_first().push(x), sep) == x);
        } else {
            assert(join_spec(l, sep) == l[0] + sep + join_spec(l.drop_first(), sep));
            assert((l[0] + sep + join_spec(l.drop_first(), sep)) + sep + x
                =~= l[0] + sep + (join_spec(l.drop_first(), sep) + sep + x));
        }
    }
}

/// Joins the strings with the separator.
fn join_strings(v: &Vec<String>, sep: &str) -> (r: String)
    ensures
        r@ == join_spec(v@.map_values(|s: String| s@), sep@),
{
    let ghost l = v@.map_values(|s: String| s@);
    let mut out: Vec<char> = Vec::new();
    let mut i: usize = 0;
    while i < v.len()
        invariant
            i <= v@.len(),
            l == v@.map_values(|s: String| s@),
            out@ == join_spec(l.take(i as int), sep@),
        decreases v@.len() - i,
    {
        let ghost out0 = out@;
        if i > 0 {
            append_str(&mut out, sep);
        }
        append_str(&mut out, v[i].as_str());
        proof {
            assert(l[i as int] == v@[i as int]@);
            lemma_join_push(l.take(i as int), sep@, l[i as int]);
            assert(l.take(i as int).push(l[i as int]) =~= l.take(i + 1));
            if i == 0 {
                assert(out@ =~= join_spec(l.take(i + 1), sep@));
            } else {
                assert(out@ =~= join_spec(l.take(i as int), sep@) + sep@ + l[i as int]);
            }
        }
        i += 1;
    }
    proof {
        assert(l.take(l.len() as int) =~= l);
    }
    string_from_chars(&out)
}

/// Whether the text has a line whose leading whitespace is followed by
/// the breaking-change marker.
fn has_breaking_exec(s: &Vec<char>) -> (b: bool)
    ensures
        b == has_breaking_spec(s@),
{
    let mut q: usize = 0;
    while q < s.len()
        invariant
            q <= s@.len(),
            forall|p: int| 0 <= p < q && line_start(s@, p)
                ==> !prefix_at(s@, p + ws_run(s@, p), "BREAKING CHANGE"@),
        decreases s@.len() - q,
    {
        if q == 0 || s[q - 1] == '\n' {
            let w = ws_run_exec(s, q);
            if starts_with_at(s, q + w, "BREAKING CHANGE") {
                proof {
                    assert(line_start(s@, q as int));
                    assert(has_breaking_spec(s@));
                }
                return true;
            }
        }
        q += 1;
    }
    proof {
        assert(!has_breaking_spec(s@)) by {
            if has_breaking_spec(s@) {
                let p = choose|p: int|
                    line_start(s@, p) && prefix_at(s@, p + ws_run(s@, p), "BREAKING CHANGE"@);
                if p == s@.len() {
                    reveal_strlit("BREAKING CHANGE");
                    assert(ws_run(s@, p) == 0);
                    assert(p + "BREAKING CHANGE"@.len() > s@.len());
                }
            }
        }
    }
    false
}

/// The first line of the text, as a vector.
fn first_line_exec(s: &Vec<char>) -> (r: Vec<char>)
    ensures
        r@ == first_line_spec(s@),
{
    let mut e: usize = 0;
    while e < s.len() && s[e] != '\n'
        invariant
            e <= s@.len(),
            first_nl(s@, 0) == first_nl(s@, e as int),
        decreases s@.len() - e,
    {
        e += 1;
    }
    let mut line = vec_range(s, 0, e);
    if e < s.len() && line.len() > 0 {
        if line[line.len() - 1] == '\r' {
            line.pop();
            proof {
                assert(line@ =~= s@.subrange(0, first_nl(s@, 0)).drop_last());
            }
        }
    }
    line
}

/// The header rewriter and linter over a resolver and a configuration.
pub struct ConventionalCommits<'a> {
    pub devmoji: &'a Devmoji,
    pub config: &'a Config,
}

impl<'a> ConventionalCommits<'a> {
    pub fn new(devmoji: &'a Devmoji, config: &'a Config) -> (r: ConventionalCommits<'a>)
        ensures
            r.devmoji == devmoji,
            r.config == config,
    {
        ConventionalCommits { devmoji, config }
    }

    /// The resolved emoji of the first pack entry whose code is
    /// `code`, if any.
    fn lookup_pack_code(&self, code: &Vec<char>) -> (r: Option<String>)
        ensures
            match r {
                Some(e) => lookup_pack_code_spec(
                    self.devmoji.pack_view(),
                    self.devmoji.defs_view(),
                    code@,
                ) == Some(e@),
                None => lookup_pack_code_spec(
                    self.devmoji.pack_view(),
                    self.devmoji.defs_view(),
                    code@,
                ) is None,
            },
    {
        let ghost pv = self.devmoji.pack_view();
        let mut j: usize = 0;
        while j < self.devmoji.pack.len()
            invariant
                j <= self.devmoji.pack@.len(),
                pv == self.devmoji.pack_view(),
                forall|k: int| 0 <= k < j ==> pv[k].0 != code@,
            decreases self.devmoji.pack@.len() - j,
        {
            assert(pv[j as int] == crate::config::entry_v(self.devmoji.pack@[j as int]));
            if str_eq_range(self.devmoji.pack[j].code.as_str(), code, 0, code.len()) {
                proof {
                    assert(code@.subrange(0, code@.len() as int) =~= code@);
                    crate::config::lemma_pack_find_idx(pv, code@);
                    assert(crate::config::pack_find_idx(pv, code@) == j);
                }
                let emoji = &self.devmoji.pack[j].emoji;
                return Some(self.devmoji.get(emoji.as_str()));
            }
            proof {
                assert(code@.subrange(0, code@.len() as int) =~= code@);
            }
            j += 1;
        }
        proof {
            crate::config::lemma_pack_find_idx(pv, code@);
        }
        None
    }

    /// The space-joined emoji sequence of one header.
    fn format_emoji(
        &self,
        commit_type: &Vec<char>,
        scope: Option<&Vec<char>>,
        codes: &Vec<Vec<char>>,
        breaking: bool,
    ) -> (r: String)
        ensures
            r@ == join_spec(
                format_emoji_spec(
                    self.devmoji.pack_view(),
                    self.devmoji.defs_view(),
                    commit_type@,
                    match scope {
                        Some(sc) => Some(sc@),
                        None => None,
                    },
                    codes@.map_values(|v: Vec<char>| v@),
                    breaking,
                ),
                seq![' '],
            ),
    {
        let ghost pv = self.devmoji.pack_view();
        let ghost dv = self.devmoji.defs_view();
        let mut emojis: Vec<String> = Vec::new();
        if breaking {
            emojis.push(self.devmoji.get("boom"));
            proof {
                assert(emojis@.map_values(|s: String| s@) =~= seq![get_spec(pv, dv, "boom"@)]);
            }
        } else {
            proof {
                assert(emojis@.map_values(|s: String| s@) =~= Seq::<Seq<char>>::empty());
            }
        }
        let type_emoji = self.lookup_pack_code(commit_type);
        let ghost e0 = emojis@.map_values(|s: String| s@);
        match scope {
            Some(sc) => {
                let mut compound = vec_range(commit_type, 0, commit_type.len());
                compound.push('-');
                append_range(&mut compound, sc, 0, sc.len());
                proof {
                    assert(commit_type@.subrange(0, commit_type@.len() as int) =~= commit_type@);
                    assert(sc@.subrange(0, sc@.len() as int) =~= sc@);
                    assert(compound@ =~= commit_type@ + seq!['-'] + sc@);
                }
                match self.lookup_pack_code(&compound) {
                    Some(e) => {
                        push_unique(&mut emojis, e);
                    },
                    None => {
                        if let Some(e) = type_emoji {
                            push_unique(&mut emojis, e);
                        }
                        if let Some(e) = self.lookup_pack_code(sc) {
                            push_unique(&mut emojis, e);
                        }
                    },
                }
            },
            None => {
                if let Some(e) = type_emoji {
                    push_unique(&mut emojis, e);
                }
            },
        }
        let ghost e1 = emojis@.map_values(|s: String| s@);
        let ghost codes_v = codes@.map_values(|v: Vec<char>| v@);
        let mut k: usize = 0;
        while k < codes.len()
            invariant
                k <= codes@.len(),
                pv == self.devmoji.pack_view(),
                dv == self.devmoji.defs_view(),
                codes_v == codes@.map_values(|v: Vec<char>| v@),
                emojis@.map_values(|s: String| s@) == push_codes_spec(
                    pv,
                    dv,
                    e1,
                    codes_v.take(k as int),
                ),
            decreases codes@.len() - k,
        {
            assert(codes_v[k as int] == codes@[k as int]@);
            let code_str = string_from_chars(&codes[k]);
            let e = self.devmoji.get(code_str.as_str());
            push_unique(&mut emojis, e);
            proof {
                lemma_push_codes_push(pv, dv, e1, codes_v.take(k as int), codes_v[k as int]);
                assert(codes_v.take(k as int).push(codes_v[k as int]) =~= codes_v.take(k + 1));
            }
            k += 1;
        }
        proof {
            assert(codes_v.take(codes_v.len() as int) =~= codes_v);
            reveal_strlit(" ");
            assert(" "@ =~= seq![' ']);
        }
        join_strings(&emojis, " ")
    }

    /// The replacement text of one recognized header.
    fn build_replacement(
        &self,
        tv: &Vec<char>,
        i: usize,
        m: &HeaderMatch,
        hb: bool,
        color: bool,
    ) -> (r: Vec<char>)
        requires
            m.matches(tv@, i as int),
        ensures
            !color ==> r@ == replacement_spec(
                self.devmoji.pack_view(),
                self.devmoji.defs_view(),
                header_at(tv@, i as int)->0,
                hb,
            ),
    {
        let ghost h = header_at(tv@, i as int)->0;
        let mut r: Vec<char> = Vec::new();
        let cap = vec_range(tv, i, m.cap_end);
        if color {
            let styled = style_type(string_from_chars(&cap).as_str());
            append_str(&mut r, styled.as_str());
        } else {
            append_range(&mut r, &cap, 0, cap.len());
            proof {
                assert(cap@.subrange(0, cap@.len() as int) =~= cap@);
            }
        }
        let scope_vec: Option<Vec<char>> = if m.has_scope {
            Some(vec_range(tv, m.scope_start, m.scope_end))
        } else {
            None
        };
        match &scope_vec {
            Some(sv) => {
                r.push('(');
                if color {
                    let styled = style_scope(string_from_chars(sv).as_str());
                    append_str(&mut r, styled.as_str());
                } else {
                    append_range(&mut r, sv, 0, sv.len());
                    proof {
                        assert(sv@.subrange(0, sv@.len() as int) =~= sv@);
                    }
                }
                r.push(')');
            },
            None => {},
        }
        let breaking = m.breaking || hb;
        if breaking {
            r.push('!');
        }
        r.push(':');
        r.push(' ');
        let ghost head = r@;
        let emojis = self.format_emoji(
            &cap,
            match &scope_vec {
                Some(sv) => Some(sv),
                None => None,
            },
            &m.codes,
            breaking,
        );
        append_str(&mut r, emojis.as_str());
        if !emojis.as_str().is_empty() {
            r.push(' ');
        }
        proof {
            if !color {
                assert(r@ =~= replacement_spec(
                    self.devmoji.pack_view(),
                    self.devmoji.defs_view(),
                    h,
                    hb,
                ));
            }
        }
        r
    }

    /// Rewrites every eligible header of the text and renders the whole
    /// result in emoji form.  With `first_only`, only a header anchored
    /// at the start of the text is rewritten.  Under `color` the type
    /// and scope carry terminal styling, which depends on the global
    /// colour override.
    #[verifier::rlimit(60)]
    fn format(&self, text: &str, first_only: bool, color: bool) -> (r: String)
        ensures
            !color ==> r@ == format_text_spec(
                self.devmoji.pack_view(),
                self.devmoji.defs_view(),
                self.devmoji.git_view(),
                text@,
                first_only,
            ),
    {
        let ghost pv = self.devmoji.pack_view();
        let ghost dv = self.devmoji.defs_view();
        let ghost gv = self.devmoji.git_view();
        let t = self.devmoji.devmojify(text);
        let tv = chars_of(t.as_str());
        let hb = has_breaking_exec(&tv);
        let mut out: Vec<char> = Vec::new();
        let mut found = false;
        let mut i: usize = 0;
        while i < tv.len()
            invariant
                i <= tv@.len(),
                pv == self.devmoji.pack_view(),
                dv == self.devmoji.defs_view(),
                gv == self.devmoji.git_view(),
                tv@ == devmojify_spec(pv, dv, gv, text@),
                hb == has_breaking_spec(tv@),
                !color ==> splice_from(pv, dv, tv@, 0, first_only, false, hb)
                    == out@ + splice_from(pv, dv, tv@, i as int, first_only, found, hb),
            decreases tv@.len() - i,
        {
            let ghost out0 = out@;
            match try_header_at(&tv, i) {
                Some(m) => {
                    let ghost h = header_at(tv@, i as int)->0;
                    assert(h.cap[0] == tv@[i as int]);
                    let skip = (first_only && (i != 0 || found)) || tv[i] == ':';
                    if skip {
                        append_range(&mut out, &tv, i, m.end);
                        proof {
                            if !color {
                                assert(splice_from(pv, dv, tv@, i as int, first_only, found, hb)
                                    == tv@.subrange(i as int, h.end)
                                    + splice_from(pv, dv, tv@, h.end, first_only, found, hb));
                                assert(out0 + splice_from(pv, dv, tv@, i as int, first_only, found, hb)
                                    =~= out@ + splice_from(pv, dv, tv@, h.end, first_only, found, hb));
                            }
                        }
                        i = m.end;
                    } else {
                        let rep = self.build_replacement(&tv, i, &m, hb, color);
                        append_range(&mut out, &rep, 0, rep.len());
                        proof {
                            assert(rep@.subrange(0, rep@.len() as int) =~= rep@);
                            if !color {
                                assert(splice_from(pv, dv, tv@, i as int, first_only, found, hb)
                                    == replacement_spec(pv, dv, h, hb)
                                    + splice_from(pv, dv, tv@, h.end, first_only, true, hb));
                                assert(out0 + splice_from(pv, dv, tv@, i as int, first_only, found, hb)
                                    =~= out@ + splice_from(pv, dv, tv@, h.end, first_only, true, hb));
                            }
                        }
                        i = m.end;
                        found = true;
                    }
                },
                None => {
                    out.push(tv[i]);
                    proof {
                        if !color {
                            assert(splice_from(pv, dv, tv@, i as int, first_only, found, hb)
                                == seq![tv@[i as int]]
                                + splice_from(pv, dv, tv@, i + 1, first_only, found, hb));
                            assert(out0 + splice_from(pv, dv, tv@, i as int, first_only, found, hb)
                                =~= out@ + splice_from(pv, dv, tv@, i + 1, first_only, found, hb));
                        }
                    }
                    i += 1;
                },
            }
        }
        proof {
            if !color {
                assert(out@ + splice_from(pv, dv, tv@, tv@.len() as int, first_only, found, hb)
                    =~= out@);
            }
        }
        let mid = string_from_chars(&out);
        self.devmoji.emojify(mid.as_str())
    }

    /// Rewrites the first header of a commit message.
    pub fn format_commit(&self, text: &str, color: bool) -> (r: String)
        ensures
            !color ==> r@ == format_text_spec(
                self.devmoji.pack_view(),
                self.devmoji.defs_view(),
                self.devmoji.git_view(),
                text@,
                true,
            ),
    {
        self.format(text, true, color)
    }

    /// Rewrites every header of a log text.
    pub fn format_log(&self, text: &str, color: bool) -> (r: String)
        ensures
            !color ==> r@ == format_text_spec(
                self.devmoji.pack_view(),
                self.devmoji.defs_view(),
                self.devmoji.git_view(),
                text@,
                false,
            ),
    {
        self.format(text, false, color)
    }

    /// Lints the first line of the text against the header grammar and
    /// the configured type vocabulary.
    pub fn lint(&self, text: &str) -> (r: Result<(), Vec<String>>)
        ensures
            ({
                let diags = lint_diags(self.config.types_v(), text@);
                match r {
                    Ok(()) => diags.len() == 0,
                    Err(v) => v@.map_values(|s: String| s@) == diags && diags.len() > 0,
                }
            }),
    {
        let ghost diags = lint_diags(self.config.types_v(), text@);
        let tv = chars_of(text);
        let fl = first_line_exec(&tv);
        if starts_with_at(&fl, 0, "Merge branch") || starts_with_at(&fl, 0, "fixup!")
            || starts_with_at(&fl, 0, "squash!") || starts_with_at(&fl, 0, "Revert")
            || starts_with_at(&fl, 0, "revert") {
            return Ok(());
        }
        assert(!lint_bypass(fl@));

        let mut pos: usize = 0;
        let mut hit: Option<HeaderMatch> = None;
        loop
            invariant_except_break
                hit is None,
            invariant
                pos <= fl@.len(),
                first_match_from(fl@, 0) == first_match_from(fl@, pos as int),
            ensures
                match hit {
                    Some(m) => m.matches(fl@, pos as int)
                        && first_match_from(fl@, 0) == Some(pos as int),
                    None => first_match_from(fl@, 0) is None,
                },
            decreases fl@.len() - pos,
        {
            if pos >= fl.len() {
                proof {
                    assert(first_match_from(fl@, pos as int) is None);
                }
                break;
            }
            match try_header_at(&fl, pos) {
                Some(m) => {
                    proof {
                        assert(first_match_from(fl@, pos as int) == Some(pos as int));
                    }
                    hit = Some(m);
                    break;
                },
                None => {
                    proof {
                        assert(first_match_from(fl@, pos as int)
                            == first_match_from(fl@, pos + 1));
                    }
                    pos += 1;
                },
            }
        }

        let mut errors: Vec<String> = Vec::new();
        match hit {
            None => {
                errors.push("Expecting a commit message like: type(scope): description".to_owned());
                proof {
                    reveal_strlit("Expecting a commit message like: type(scope): description");
                    assert(errors@.map_values(|s: String| s@) =~= diags);
                }
                Err(errors)
            },
            Some(m) => {
                if pos != 0 {
                    errors.push(
                        "Expecting a commit message like: type(scope): description".to_owned(),
                    );
                    proof {
                        assert(errors@.map_values(|s: String| s@) =~= diags);
                    }
                    return Err(errors);
                }
                let ghost h = header_at(fl@, 0)->0;

                let mut known = false;
                let mut j: usize = 0;
                let ghost ts = self.config.types_v();
                while j < self.config.types.len()
                    invariant
                        j <= self.config.types@.len(),
                        ts == self.config.types_v(),
                        m.matches(fl@, 0),
                        h == header_at(fl@, 0)->0,
                        known <==> exists|k: int| 0 <= k < j && ts[k] == h.cap,
                    decreases self.config.types@.len() - j,
                {
                    assert(ts[j as int] == self.config.types@[j as int]@);
                    if !known && str_eq_range(self.config.types[j].as_str(), &fl, 0, m.cap_end) {
                        known = true;
                    }
                    j += 1;
                }
                proof {
                    if known {
                        let k = choose|k: int| 0 <= k < ts.len() && ts[k] == h.cap;
                        assert(ts.contains(h.cap));
                    } else {
                        assert(!ts.contains(h.cap)) by {
                            if ts.contains(h.cap) {
                                let k = choose|k: int| 0 <= k < ts.len() && ts[k] == h.cap;
                            }
                        }
                    }
                }
                if !known {
                    let mut msg = "Type should be one of: ".to_owned();
                    let joined = join_strings(&self.config.types, ", ");
                    msg.append(joined.as_str());
                    errors.push(msg);
                }

                let mut rest_blank = true;
                let mut k: usize = m.end;
                while k < fl.len()
                    invariant
                        m.end <= k <= fl@.len(),
                        m.matches(fl@, 0),
                        h == header_at(fl@, 0)->0,
                        rest_blank <==> (forall|p: int|
                            h.end <= p < k ==> is_space_char(fl@[p])),
                    decreases fl@.len() - k,
                {
                    if !space_char(fl[k]) {
                        rest_blank = false;
                    }
                    k += 1;
                }
                proof {
                    assert(rest_blank == all_space(fl@.skip(h.end))) by {
                        if rest_blank {
                            assert forall|p: int| 0 <= p < fl@.skip(h.end).len()
                                implies is_space_char(fl@.skip(h.end)[p]) by {
                                assert(fl@.skip(h.end)[p] == fl@[p + h.end]);
                            }
                        } else {
                            let p = choose|p: int| h.end <= p < fl@.len() && !is_space_char(fl@[p]);
                            assert(fl@.skip(h.end)[p - h.end] == fl@[p]);
                        }
                    }
                }
                if rest_blank {
                    errors.push("Missing description".to_owned());
                }
                if errors.len() == 0 {
                    proof {
                        assert(diags.len() == 0);
                    }
                    Ok(())
                } else {
                    proof {
                        assert(errors@.map_values(|s: String| s@) =~= diags);
                    }
                    Err(errors)
                }
            },
        }
    }
}

} // verus!
