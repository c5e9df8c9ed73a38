//! The emoji resolver: the canonical shortcode table, the project pack,
//! and the four conversion operations between text encodings of emoji.

use vstd::prelude::*;
use crate::config::{Config, DevmojiEntry, PackV, entry_v, pack_v, pack_find_idx, lemma_pack_find_idx};
use crate::gitmoji::{gitmoji_defs, GitmojiV};
use crate::text::{
    is_code_char, VARIATION_SELECTOR, chars_of, string_from_chars, str_eq_range,
    append_str, append_range, vec_range, code_char,
};

verus! {

/// One canonical definition: a shortcode and its unicode glyph.
pub struct EmojiDef {
    pub code: String,
    pub glyph: String,
}

/// The mathematical shape of a canonical definition: (code, glyph).
pub type DefV = (Seq<char>, Seq<char>);

pub open spec fn def_v(d: EmojiDef) -> DefV {
    (d.code@, d.glyph@)
}

pub open spec fn defs_v(s: Seq<EmojiDef>) -> Seq<DefV> {
    s.map_values(|d: EmojiDef| def_v(d))
}

/// The canonical table: every gitmoji code with its glyph, followed by
/// the few shortcodes the built-in pack needs beyond them.
pub open spec fn canonical_defs() -> Seq<DefV> {
    gitmoji_defs().map_values(|t: GitmojiV| (t.0, t.1))
        + seq![
            ("books"@, "\u{1f4da}"@),
            ("link"@, "\u{1f517}"@),
            ("gear"@, "\u{2699}\u{fe0f}"@),
        ]
}

/// The codes of the gitmoji vocabulary.
pub open spec fn gitmoji_codes() -> Seq<Seq<char>> {
    gitmoji_defs().map_values(|t: GitmojiV| t.0)
}

/// The token `":"` + `code` + `":"`.
pub open spec fn wrap_code(code: Seq<char>) -> Seq<char> {
    seq![':'] + code + seq![':']
}

/// Whether a glyph stands for the single character `c`: it is either
/// `c` itself or `c` followed by the variation selector.
pub open spec fn glyph_matches_char(g: Seq<char>, c: char) -> bool {
    g == seq![c] || g == seq![c, VARIATION_SELECTOR]
}

/// The code of the first canonical definition whose glyph stands for `c`.
pub open spec fn rev_find(defs: Seq<DefV>, c: char) -> Option<Seq<char>>
    decreases defs.len(),
{
    if defs.len() == 0 {
        None
    } else if glyph_matches_char(defs[0].1, c) {
        Some(defs[0].0)
    } else {
        rev_find(defs.drop_first(), c)
    }
}

/// What one character becomes under `demojify`: the wrapped shortcode of
/// the glyph it renders, nothing for a bare variation selector, itself
/// otherwise.
pub open spec fn demojify_char(defs: Seq<DefV>, c: char) -> Seq<char> {
    match rev_find(defs, c) {
        Some(code) => wrap_code(code),
        None => if c == VARIATION_SELECTOR {
            Seq::empty()
        } else {
            seq![c]
        },
    }
}

pub open spec fn demojify_from(defs: Seq<DefV>, s: Seq<char>, i: int) -> Seq<char>
    decreases s.len() - i when 0 <= i <= s.len()
{
    if i < 0 || i >= s.len() {
        Seq::empty()
    } else {
        demojify_char(defs, s[i]) + demojify_from(defs, s, i + 1)
    }
}

/// `demojify`: every character standing for a known glyph becomes its
/// first canonical shortcode; variation selectors are dropped; all other
/// characters pass through unchanged.
pub open spec fn demojify_spec(defs: Seq<DefV>, s: Seq<char>) -> Seq<char> {
    demojify_from(defs, s, 0)
}

/// The glyph of the first canonical definition with the given code.
pub open spec fn def_find_idx(defs: Seq<DefV>, code: Seq<char>) -> int
    decreases defs.len(),
{
    if defs.len() == 0 {
        -1
    } else if defs[0].0 == code {
        0
    } else {
        let r = def_find_idx(defs.drop_first(), code);
        if r < 0 {
            -1
        } else {
            r + 1
        }
    }
}

pub open spec fn table_glyph(defs: Seq<DefV>, code: Seq<char>) -> Option<Seq<char>> {
    let i = def_find_idx(defs, code);
    if i >= 0 {
        Some(defs[i].1)
    } else {
        None
    }
}

pub proof fn lemma_def_find_idx(defs: Seq<DefV>, code: Seq<char>)
    ensures
        def_find_idx(defs, code) < defs.len(),
        def_find_idx(defs, code) >= 0 ==> defs[def_find_idx(defs, code)].0 == code,
        def_find_idx(defs, code) < 0 ==> forall|i: int|
            0 <= i < defs.len() ==> defs[i].0 != code,
        def_find_idx(defs, code) >= 0 ==> forall|i: int|
            0 <= i < def_find_idx(defs, code) ==> defs[i].0 != code,
    decreases defs.len(),
{
    if defs.len() > 0 && defs[0].0 != code {
        lemma_def_find_idx(defs.drop_first(), code);
        assert(forall|i: int| 1 <= i < defs.len() ==> defs[i] == defs.drop_first()[i - 1]);
    }
}

/// The emoji field of the first pack entry with the given code.
pub open spec fn pack_emoji(pack: Seq<PackV>, code: Seq<char>) -> Option<Seq<char>> {
    let i = pack_find_idx(pack, code);
    if i >= 0 {
        Some(pack[i].1)
    } else {
        None
    }
}

/// The resolution walk of `get`: follow pack redirections for at most
/// `fuel` steps; `None` means the walk did not come to rest.
pub open spec fn get_steps(pack: Seq<PackV>, code: Seq<char>, fuel: nat) -> Option<Seq<char>>
    decreases fuel,
{
    let r = pack_emoji(pack, code);
    if r is Some && r->0 != code {
        if fuel == 0 {
            None
        } else {
            get_steps(pack, r->0, (fuel - 1) as nat)
        }
    } else {
        Some(code)
    }
}

/// What `get` returns: the walk's terminal code rendered through the
/// canonical table, the unknown code wrapped as a literal token, or, for
/// a redirection cycle, the queried code wrapped as a literal token.
pub open spec fn get_spec(pack: Seq<PackV>, defs: Seq<DefV>, code: Seq<char>) -> Seq<char> {
    match get_steps(pack, code, pack.len() as nat) {
        None => wrap_code(code),
        Some(k) => match table_glyph(defs, k) {
            Some(g) => g,
            None => wrap_code(k),
        },
    }
}

/// The length of the run of shortcode characters starting at `i`.
pub open spec fn code_run(s: Seq<char>, i: int) -> int
    decreases s.len() - i when 0 <= i <= s.len()
{
    if i < 0 || i >= s.len() || !is_code_char(s[i]) {
        0
    } else {
        1 + code_run(s, i + 1)
    }
}

pub proof fn lemma_code_run(s: Seq<char>, i: int)
    requires
        0 <= i <= s.len(),
    ensures
        0 <= code_run(s, i),
        i + code_run(s, i) <= s.len(),
    decreases s.len() - i,
{
    if i < s.len() && is_code_char(s[i]) {
        lemma_code_run(s, i + 1);
    }
}

/// Whether a `:code:` token starts at position `i`.
pub open spec fn token_at(s: Seq<char>, i: int) -> bool {
    &&& 0 <= i < s.len()
    &&& s[i] == ':'
    &&& code_run(s, i + 1) >= 1
    &&& i + 1 + code_run(s, i + 1) < s.len()
    &&& s[i + 1 + code_run(s, i + 1)] == ':'
}

/// The code between the colons of the token at `i`.
pub open spec fn token_code(s: Seq<char>, i: int) -> Seq<char> {
    s.subrange(i + 1, i + 1 + code_run(s, i + 1))
}

/// The position just after the token at `i`.
pub open spec fn token_end(s: Seq<char>, i: int) -> int {
    i + 2 + code_run(s, i + 1)
}

/// Scans `s` from `i` and replaces every `:code:` token by `f(code)`;
/// other characters pass through.
pub open spec fn rewrite_tokens_from(
    s: Seq<char>,
    i: int,
    f: spec_fn(Seq<char>) -> Seq<char>,
) -> Seq<char>
    decreases s.len() - i when 0 <= i <= s.len()
{
    if i < 0 || i >= s.len() {
        Seq::empty()
    } else if token_at(s, i) {
        f(token_code(s, i)) + rewrite_tokens_from(s, token_end(s, i), f)
    } else {
        seq![s[i]] + rewrite_tokens_from(s, i + 1, f)
    }
}

/// `emojify`: normalize to shortcodes, then resolve every token.
pub open spec fn emojify_spec(pack: Seq<PackV>, defs: Seq<DefV>, s: Seq<char>) -> Seq<char> {
    rewrite_tokens_from(
        demojify_spec(defs, s),
        0,
        |code: Seq<char>| get_spec(pack, defs, code),
    )
}

/// The glyph a pack entry's emoji field renders: through the canonical
/// table when it is a shortcode, else the field itself.
pub open spec fn resolve_pack_emoji_spec(defs: Seq<DefV>, emoji: Seq<char>) -> Seq<char> {
    match table_glyph(defs, emoji) {
        Some(g) => g,
        None => emoji,
    }
}

/// The code of the first pack entry whose resolved emoji is glyph `g`.
pub open spec fn pack_first_resolved(pack: Seq<PackV>, defs: Seq<DefV>, g: Seq<char>) -> Option<
    Seq<char>,
>
    decreases pack.len(),
{
    if pack.len() == 0 {
        None
    } else if resolve_pack_emoji_spec(defs, pack[0].1) == g {
        Some(pack[0].0)
    } else {
        pack_first_resolved(pack.drop_first(), defs, g)
    }
}

/// The code of the first pack entry whose raw emoji field is `c`.
pub open spec fn pack_first_raw(pack: Seq<PackV>, c: Seq<char>) -> Option<Seq<char>>
    decreases pack.len(),
{
    if pack.len() == 0 {
        None
    } else if pack[0].1 == c {
        Some(pack[0].0)
    } else {
        pack_first_raw(pack.drop_first(), c)
    }
}

/// What one token becomes under `devmojify`: the alias of the first pack
/// entry that renders the same canonical glyph; for a gitmoji code, the
/// alias of the first pack entry naming it verbatim; else unchanged.
pub open spec fn devmoji_token(
    pack: Seq<PackV>,
    defs: Seq<DefV>,
    git: Seq<Seq<char>>,
    code: Seq<char>,
) -> Seq<char> {
    match table_glyph(defs, code) {
        Some(g) => match pack_first_resolved(pack, defs, g) {
            Some(alias) => wrap_code(alias),
            None => wrap_code(code),
        },
        None => if git.contains(code) {
            match pack_first_raw(pack, code) {
                Some(alias) => wrap_code(alias),
                None => wrap_code(code),
            }
        } else {
            wrap_code(code)
        },
    }
}

/// `devmojify`: normalize to shortcodes, then rewrite every token to its
/// pack alias where one exists.
pub open spec fn devmojify_spec(
    pack: Seq<PackV>,
    defs: Seq<DefV>,
    git: Seq<Seq<char>>,
    s: Seq<char>,
) -> Seq<char> {
    rewrite_tokens_from(
        demojify_spec(defs, s),
        0,
        |code: Seq<char>| devmoji_token(pack, defs, git, code),
    )
}

/// Scans `s` from `i`, deleting every token together with at most one
/// whitespace character immediately before it.
pub open spec fn strip_from(s: Seq<char>, i: int) -> Seq<char>
    decreases s.len() - i when 0 <= i <= s.len()
{
    if i < 0 || i >= s.len() {
        Seq::empty()
    } else if crate::text::is_space_char(s[i]) && token_at(s, i + 1) {
        strip_from(s, token_end(s, i + 1))
    } else if token_at(s, i) {
        strip_from(s, token_end(s, i))
    } else {
        seq![s[i]] + strip_from(s, i + 1)
    }
}

/// `strip`: normalize to shortcodes, then delete every token and at most
/// one whitespace character immediately before it.
pub open spec fn strip_spec(defs: Seq<DefV>, s: Seq<char>) -> Seq<char> {
    strip_from(demojify_spec(defs, s), 0)
}

/// Well-formedness of a canonical table: codes are nonempty shortcode
/// words, and every glyph is one character, or one character and the
/// variation selector, with a leading character that is neither ASCII
/// nor the variation selector.
pub open spec fn table_ok(defs: Seq<DefV>) -> bool {
    forall|i: int| 0 <= i < defs.len() ==> {
        let d = #[trigger] defs[i];
        &&& d.0.len() >= 1
        &&& (forall|k: int| 0 <= k < d.0.len() ==> is_code_char(d.0[k]))
        &&& (d.1 == seq![d.1[0]] || d.1 == seq![d.1[0], VARIATION_SELECTOR])
        &&& (d.1[0] as u32) > 127
        &&& d.1[0] != VARIATION_SELECTOR
    }
}

/// Shortcode characters are ASCII.
proof fn lemma_code_char_ascii(c: char)
    requires
        is_code_char(c),
    ensures
        (c as u32) <= 127,
{
}

/// Under a well-formed table no ASCII character, and not the variation
/// selector, reverse-matches a glyph.
proof fn lemma_rev_find_plain_none(defs: Seq<DefV>, c: char)
    requires
        table_ok(defs),
        (c as u32) <= 127 || c == VARIATION_SELECTOR,
    ensures
        rev_find(defs, c) is None,
    decreases defs.len(),
{
    if defs.len() > 0 {
        assert(defs[0] == defs[0]);
        assert(!glyph_matches_char(defs[0].1, c)) by {
            if defs[0].1 == seq![c] || defs[0].1 == seq![c, VARIATION_SELECTOR] {
                assert(defs[0].1[0] == c);
            }
        }
        assert(forall|i: int| 0 <= i < defs.drop_first().len()
            ==> defs.drop_first()[i] == defs[i + 1]);
        lemma_rev_find_plain_none(defs.drop_first(), c);
    }
}

/// A code that the reverse lookup returns satisfies the table's code
/// conditions.
proof fn lemma_rev_find_code_ok(defs: Seq<DefV>, c: char)
    requires
        table_ok(defs),
        rev_find(defs, c) is Some,
    ensures
        rev_find(defs, c)->0.len() >= 1,
        forall|k: int| 0 <= k < rev_find(defs, c)->0.len()
            ==> is_code_char(rev_find(defs, c)->0[k]),
    decreases defs.len(),
{
    assert(defs[0] == defs[0]);
    if !glyph_matches_char(defs[0].1, c) {
        assert(forall|i: int| 0 <= i < defs.drop_first().len()
            ==> defs.drop_first()[i] == defs[i + 1]);
        lemma_rev_find_code_ok(defs.drop_first(), c);
    }
}

/// A character is inert when it neither reverse-matches a glyph nor is
/// the variation selector: `demojify` passes it through unchanged.
pub open spec fn inert_char(defs: Seq<DefV>, c: char) -> bool {
    rev_find(defs, c) is None && c != VARIATION_SELECTOR
}

/// Every character `demojify` emits is inert.
proof fn lemma_demojify_from_inert(defs: Seq<DefV>, x: Seq<char>, i: int)
    requires
        table_ok(defs),
        0 <= i <= x.len(),
    ensures
        forall|k: int| 0 <= k < demojify_from(defs, x, i).len()
            ==> inert_char(defs, demojify_from(defs, x, i)[k]),
    decreases x.len() - i,
{
    if i < x.len() {
        lemma_demojify_from_inert(defs, x, i + 1);
        let head = demojify_char(defs, x[i]);
        let tail = demojify_from(defs, x, i + 1);
        assert forall|k: int| 0 <= k < head.len() implies inert_char(defs, head[k]) by {
            match rev_find(defs, x[i]) {
                Some(code) => {
                    lemma_rev_find_code_ok(defs, x[i]);
                    assert(head == wrap_code(code));
                    if k == 0 || k == head.len() - 1 {
                        assert(head[k] == ':');
                        lemma_rev_find_plain_none(defs, ':');
                    } else {
                        assert(head[k] == code[k - 1]);
                        lemma_code_char_ascii(code[k - 1]);
                        lemma_rev_find_plain_none(defs, code[k - 1]);
                    }
                },
                None => {
                    if x[i] != VARIATION_SELECTOR {
                        assert(head == seq![x[i]]);
                    }
                },
            }
        }
        assert forall|k: int| 0 <= k < demojify_from(defs, x, i).len()
            implies inert_char(defs, demojify_from(defs, x, i)[k]) by {
            if k < head.len() {
                assert((head + tail)[k] == head[k]);
            } else {
                assert((head + tail)[k] == tail[k - head.len()]);
            }
        }
    }
}

/// `demojify` from position `i` is `demojify` of the suffix.
proof fn lemma_demojify_shift(defs: Seq<DefV>, s: Seq<char>, i: int)
    requires
        0 <= i <= s.len(),
    ensures
        demojify_from(defs, s, i) == demojify_spec(defs, s.subrange(i, s.len() as int)),
    decreases s.len() - i,
{
    let sub = s.subrange(i, s.len() as int);
    if i < s.len() {
        lemma_demojify_shift(defs, sub, 1);
        assert(sub.subrange(1, sub.len() as int) =~= s.subrange(i + 1, s.len() as int));
        lemma_demojify_shift(defs, s, i + 1);
        assert(sub[0] == s[i]);
        assert(demojify_spec(defs, sub)
            == demojify_char(defs, sub[0]) + demojify_from(defs, sub, 1));
    } else {
        assert(sub.len() == 0);
        assert(demojify_from(defs, sub, 0) == Seq::<char>::empty());
    }
}

/// `demojify` distributes over concatenation.
proof fn lemma_demojify_concat(defs: Seq<DefV>, u: Seq<char>, v: Seq<char>)
    ensures
        demojify_spec(defs, u + v) == demojify_spec(defs, u) + demojify_spec(defs, v),
    decreases u.len(),
{
    if u.len() == 0 {
        assert(u + v =~= v);
        assert(demojify_from(defs, u, 0) == Seq::<char>::empty());
        assert(demojify_spec(defs, u) + demojify_spec(defs, v) =~= demojify_spec(defs, v));
    } else {
        let w = u + v;
        assert(w.len() > 0);
        assert(w[0] == u[0]);
        assert(demojify_spec(defs, w) == demojify_char(defs, w[0]) + demojify_from(defs, w, 1));
        lemma_demojify_shift(defs, w, 1);
        assert(w.subrange(1, w.len() as int) =~= u.drop_first() + v);
        lemma_demojify_concat(defs, u.drop_first(), v);
        lemma_demojify_shift(defs, u, 1);
        assert(u.drop_first() =~= u.subrange(1, u.len() as int));
        assert(demojify_spec(defs, u) == demojify_char(defs, u[0]) + demojify_from(defs, u, 1));
        assert(demojify_char(defs, u[0]) + (demojify_spec(defs, u.drop_first())
            + demojify_spec(defs, v))
            =~= (demojify_char(defs, u[0]) + demojify_spec(defs, u.drop_first()))
            + demojify_spec(defs, v));
    }
}

/// The characters inside a code run are shortcode characters.
proof fn lemma_code_run_chars(s: Seq<char>, i: int)
    requires
        0 <= i <= s.len(),
    ensures
        forall|k: int| i <= k < i + code_run(s, i) ==> is_code_char(s[k]),
    decreases s.len() - i,
{
    if i < s.len() && is_code_char(s[i]) {
        lemma_code_run_chars(s, i + 1);
    }
}

/// `demojify` leaves a fully inert text unchanged.
proof fn lemma_demojify_inert_id(defs: Seq<DefV>, w: Seq<char>)
    requires
        forall|k: int| 0 <= k < w.len() ==> inert_char(defs, w[k]),
    ensures
        demojify_spec(defs, w) == w,
    decreases w.len(),
{
    if w.len() == 0 {
        assert(demojify_from(defs, w, 0) == Seq::<char>::empty());
        assert(w =~= Seq::<char>::empty());
    } else {
        assert(inert_char(defs, w[0]));
        assert(demojify_char(defs, w[0]) == seq![w[0]]);
        lemma_demojify_shift(defs, w, 1);
        let rest = w.subrange(1, w.len() as int);
        assert(forall|k: int| 0 <= k < rest.len() ==> inert_char(defs, rest[k]));
        lemma_demojify_inert_id(defs, rest);
        assert(seq![w[0]] + rest =~= w);
    }
}

/// A token code that survives the round trip: it is canonical, the pack
/// does not redirect it, and it is the first code of its glyph.
pub open spec fn code_round_trips(pack: Seq<PackV>, defs: Seq<DefV>, c: Seq<char>) -> bool {
    &&& table_glyph(defs, c) is Some
    &&& get_spec(pack, defs, c) == table_glyph(defs, c)->0
    &&& rev_find(defs, table_glyph(defs, c)->0[0]) == Some(c)
}

/// A token code whose token the round trip reproduces: either it
/// survives through its glyph, or it resolves to its own literal token
/// (an unknown code, or a redirection cycle).
pub open spec fn code_stable(pack: Seq<PackV>, defs: Seq<DefV>, c: Seq<char>) -> bool {
    code_round_trips(pack, defs, c) || get_spec(pack, defs, c) == wrap_code(c)
}

/// Whether every token code of `s` from `i` on is stable.
pub open spec fn codes_round_trip(pack: Seq<PackV>, defs: Seq<DefV>, s: Seq<char>, i: int) -> bool
    decreases s.len() - i when 0 <= i <= s.len()
{
    if i < 0 || i >= s.len() {
        true
    } else if token_at(s, i) {
        code_stable(pack, defs, token_code(s, i))
            && codes_round_trip(pack, defs, s, token_end(s, i))
    } else {
        codes_round_trip(pack, defs, s, i + 1)
    }
}

/// `demojify` inverts the token-resolution pass on an inert text whose
/// codes survive the round trip.
proof fn lemma_round_trip_scan(pack: Seq<PackV>, defs: Seq<DefV>, z: Seq<char>, i: int)
    requires
        table_ok(defs),
        0 <= i <= z.len(),
        codes_round_trip(pack, defs, z, i),
        forall|k: int| 0 <= k < z.len() ==> inert_char(defs, z[k]),
    ensures
        demojify_spec(
            defs,
            rewrite_tokens_from(z, i, |c: Seq<char>| get_spec(pack, defs, c)),
        ) == z.subrange(i, z.len() as int),
    decreases z.len() - i,
{
    let f = |c: Seq<char>| get_spec(pack, defs, c);
    if i >= z.len() {
        assert(rewrite_tokens_from(z, i, f) == Seq::<char>::empty());
        assert(demojify_from(defs, Seq::<char>::empty(), 0) == Seq::<char>::empty());
        assert(z.subrange(i, z.len() as int) =~= Seq::<char>::empty());
    } else if token_at(z, i) {
        let c = token_code(z, i);
        let e = token_end(z, i);
        lemma_round_trip_scan(pack, defs, z, e);
        if !code_round_trips(pack, defs, c) {
            assert(f(c) == wrap_code(c));
            assert(forall|k: int| 0 <= k < wrap_code(c).len()
                ==> inert_char(defs, wrap_code(c)[k])) by {
                lemma_code_run_chars(z, i + 1);
                lemma_rev_find_plain_none(defs, ':');
                assert forall|k: int| 0 <= k < wrap_code(c).len()
                    implies inert_char(defs, wrap_code(c)[k]) by {
                    if k == 0 || k == wrap_code(c).len() - 1 {
                        assert(wrap_code(c)[k] == ':');
                    } else {
                        assert(wrap_code(c)[k] == c[k - 1]);
                        assert(c[k - 1] == z[i + k]);
                        assert(is_code_char(c[k - 1]));
                        lemma_code_char_ascii(c[k - 1]);
                        lemma_rev_find_plain_none(defs, c[k - 1]);
                    }
                }
            }
            lemma_demojify_inert_id(defs, wrap_code(c));
            assert(rewrite_tokens_from(z, i, f) == wrap_code(c) + rewrite_tokens_from(z, e, f));
            lemma_demojify_concat(defs, wrap_code(c), rewrite_tokens_from(z, e, f));
            assert(wrap_code(c) =~= z.subrange(i, e)) by {
                crate::devmoji::lemma_code_run(z, i + 1);
            }
            assert(z.subrange(i, e) + z.subrange(e, z.len() as int)
                =~= z.subrange(i, z.len() as int));
            return;
        }
        let g = table_glyph(defs, c)->0;
        assert(f(c) == g);
        lemma_def_find_idx(defs, c);
        let idx = def_find_idx(defs, c);
        assert(defs[idx] == defs[idx]);
        assert(g == defs[idx].1);
        let a = g[0];
        assert(g == seq![a] || g == seq![a, VARIATION_SELECTOR]);
        assert(rev_find(defs, a) == Some(c));
        // demojify of the glyph is the wrapped code again
        assert(demojify_spec(defs, g) == wrap_code(c)) by {
            if g == seq![a] {
                assert(demojify_from(defs, g, 1) == Seq::<char>::empty());
                assert(demojify_char(defs, a) == wrap_code(c));
                assert(wrap_code(c) + Seq::<char>::empty() =~= wrap_code(c));
            } else {
                assert(g[1] == VARIATION_SELECTOR);
                lemma_rev_find_plain_none(defs, VARIATION_SELECTOR);
                assert(demojify_char(defs, VARIATION_SELECTOR) == Seq::<char>::empty());
                assert(demojify_from(defs, g, 2) == Seq::<char>::empty());
                assert(demojify_from(defs, g, 1)
                    == demojify_char(defs, g[1]) + demojify_from(defs, g, 2));
                assert(demojify_spec(defs, g)
                    == demojify_char(defs, g[0]) + demojify_from(defs, g, 1));
                assert(demojify_char(defs, a) + (Seq::<char>::empty() + Seq::<char>::empty())
                    =~= wrap_code(c));
            }
        }
        assert(rewrite_tokens_from(z, i, f) == g + rewrite_tokens_from(z, e, f));
        lemma_demojify_concat(defs, g, rewrite_tokens_from(z, e, f));
        assert(wrap_code(c) =~= z.subrange(i, e)) by {
            crate::devmoji::lemma_code_run(z, i + 1);
        }
        assert(z.subrange(i, e) + z.subrange(e, z.len() as int)
            =~= z.subrange(i, z.len() as int));
    } else {
        lemma_round_trip_scan(pack, defs, z, i + 1);
        assert(rewrite_tokens_from(z, i, f)
            == seq![z[i]] + rewrite_tokens_from(z, i + 1, f));
        lemma_demojify_concat(defs, seq![z[i]], rewrite_tokens_from(z, i + 1, f));
        assert(inert_char(defs, z[i]));
        assert(demojify_spec(defs, seq![z[i]]) == seq![z[i]]) by {
            assert(demojify_char(defs, z[i]) == seq![z[i]]);
            assert(demojify_from(defs, seq![z[i]], 1) == Seq::<char>::empty());
            assert(demojify_char(defs, z[i]) + Seq::<char>::empty() =~= seq![z[i]]);
        }
        assert(seq![z[i]] + z.subrange(i + 1, z.len() as int)
            =~= z.subrange(i, z.len() as int));
    }
}

/// Law: the round trip.  Resolving a normalized text's tokens and
/// normalizing again changes nothing, as long as every token code is
/// stable: a canonical shortcode, unshadowed by the pack and first for
/// its glyph, or a code that resolves to its own literal token.
pub proof fn lemma_round_trip(pack: Seq<PackV>, defs: Seq<DefV>, x: Seq<char>)
    requires
        table_ok(defs),
        codes_round_trip(pack, defs, demojify_spec(defs, x), 0),
    ensures
        demojify_spec(defs, emojify_spec(pack, defs, x)) == demojify_spec(defs, x),
{
    let z = demojify_spec(defs, x);
    lemma_demojify_from_inert(defs, x, 0);
    lemma_round_trip_scan(pack, defs, z, 0);
    assert(z.subrange(0, z.len() as int) =~= z);
}

/// Law: idempotence.  Rendering a text's emoji twice gives the same
/// result as once, under the same round-trip conditions on its codes.
pub proof fn lemma_emojify_idempotent(pack: Seq<PackV>, defs: Seq<DefV>, x: Seq<char>)
    requires
        table_ok(defs),
        codes_round_trip(pack, defs, demojify_spec(defs, x), 0),
    ensures
        emojify_spec(pack, defs, emojify_spec(pack, defs, x)) == emojify_spec(pack, defs, x),
{
    lemma_round_trip(pack, defs, x);
}

/// The built-in canonical table is well formed.
#[verifier::rlimit(100)]
#[verifier::spinoff_prover]
pub proof fn lemma_canonical_table_ok()
    ensures
        table_ok(canonical_defs()),
{
    reveal_strlit("art");
        reveal_strlit("\u{1f3a8}");
        reveal_strlit("zap");
        reveal_strlit("\u{26a1}\u{fe0f}");
        reveal_strlit("fire");
        reveal_strlit("\u{1f525}");
        reveal_strlit("bug");
        reveal_strlit("\u{1f41b}");
        reveal_strlit("ambulance");
        reveal_strlit("\u{1f691}");
        reveal_strlit("sparkles");
        reveal_strlit("\u{2728}");
        reveal_strlit("pencil");
        reveal_strlit("\u{1f4dd}");
        reveal_strlit("rocket");
        reveal_strlit("\u{1f680}");
        reveal_strlit("lipstick");
        reveal_strlit("\u{1f484}");
        reveal_strlit("tada");
        reveal_strlit("\u{1f389}");
        reveal_strlit("white_check_mark");
        reveal_strlit("\u{2705}");
        reveal_strlit("lock");
        reveal_strlit("\u{1f512}\u{fe0f}");
        reveal_strlit("apple");
        reveal_strlit("\u{1f34e}");
        reveal_strlit("penguin");
        reveal_strlit("\u{1f427}");
        reveal_strlit("checkered_flag");
        reveal_strlit("\u{1f3c1}");
        reveal_strlit("robot");
        reveal_strlit("\u{1f916}");
        reveal_strlit("green_apple");
        reveal_strlit("\u{1f34f}");
        reveal_strlit("bookmark");
        reveal_strlit("\u{1f516}");
        reveal_strlit("rotating_light");
        reveal_strlit("\u{1f6a8}");
        reveal_strlit("construction");
        reveal_strlit("\u{1f6a7}");
        reveal_strlit("green_heart");
        reveal_strlit("\u{1f49a}");
        reveal_strlit("arrow_down");
        reveal_strlit("\u{2b07}\u{fe0f}");
        reveal_strlit("arrow_up");
        reveal_strlit("\u{2b06}\u{fe0f}");
        reveal_strlit("pushpin");
        reveal_strlit("\u{1f4cc}");
        reveal_strlit("construction_worker");
        reveal_strlit("\u{1f477}");
        reveal_strlit("chart_with_upwards_trend");
        reveal_strlit("\u{1f4c8}");
        reveal_strlit("recycle");
        reveal_strlit("\u{267b}\u{fe0f}");
        reveal_strlit("whale");
        reveal_strlit("\u{1f433}");
        reveal_strlit("heavy_plus_sign");
        reveal_strlit("\u{2795}");
        reveal_strlit("heavy_minus_sign");
        reveal_strlit("\u{2796}");
        reveal_strlit("wrench");
        reveal_strlit("\u{1f527}");
        reveal_strlit("globe_with_meridians");
        reveal_strlit("\u{1f310}");
        reveal_strlit("pencil2");
        reveal_strlit("\u{270f}\u{fe0f}");
        reveal_strlit("poop");
        reveal_strlit("\u{1f4a9}");
        reveal_strlit("rewind");
        reveal_strlit("\u{23ea}");
        reveal_strlit("twisted_rightwards_arrows");
        reveal_strlit("\u{1f500}");
        reveal_strlit("package");
        reveal_strlit("\u{1f4e6}\u{fe0f}");
        reveal_strlit("alien");
        reveal_strlit("\u{1f47d}");
        reveal_strlit("truck");
        reveal_strlit("\u{1f69a}");
        reveal_strlit("page_facing_up");
        reveal_strlit("\u{1f4c4}");
        reveal_strlit("boom");
        reveal_strlit("\u{1f4a5}");
        reveal_strlit("bento");
        reveal_strlit("\u{1f371}");
        reveal_strlit("ok_hand");
        reveal_strlit("\u{1f44c}");
        reveal_strlit("wheelchair");
        reveal_strlit("\u{267f}\u{fe0f}");
        reveal_strlit("bulb");
        reveal_strlit("\u{1f4a1}");
        reveal_strlit("beers");
        reveal_strlit("\u{1f37b}");
        reveal_strlit("speech_balloon");
        reveal_strlit("\u{1f4ac}");
        reveal_strlit("card_file_box");
        reveal_strlit("\u{1f5c3}");
        reveal_strlit("loud_sound");
        reveal_strlit("\u{1f50a}");
        reveal_strlit("mute");
        reveal_strlit("\u{1f507}");
        reveal_strlit("busts_in_silhouette");
        reveal_strlit("\u{1f465}");
        reveal_strlit("children_crossing");
        reveal_strlit("\u{1f6b8}");
        reveal_strlit("building_construction");
        reveal_strlit("\u{1f3d7}");
        reveal_strlit("iphone");
        reveal_strlit("\u{1f4f1}");
        reveal_strlit("clown_face");
        reveal_strlit("\u{1f921}");
        reveal_strlit("egg");
        reveal_strlit("\u{1f95a}");
        reveal_strlit("see_no_evil");
        reveal_strlit("\u{1f648}");
        reveal_strlit("camera_flash");
        reveal_strlit("\u{1f4f8}");
        reveal_strlit("alembic");
        reveal_strlit("\u{2697}");
        reveal_strlit("mag");
        reveal_strlit("\u{1f50d}");
        reveal_strlit("wheel_of_dharma");
        reveal_strlit("\u{2638}\u{fe0f}");
        reveal_strlit("label");
        reveal_strlit("\u{1f3f7}\u{fe0f}");
        reveal_strlit("seedling");
        reveal_strlit("\u{1f331}");
        reveal_strlit("triangular_flag_on_post");
        reveal_strlit("\u{1f6a9}");
        reveal_strlit("goal_net");
        reveal_strlit("\u{1f945}");
        reveal_strlit("dizzy");
        reveal_strlit("\u{1f4ab}");
        reveal_strlit("wastebasket");
        reveal_strlit("\u{1f5d1}");
        reveal_strlit("books");
        reveal_strlit("\u{1f4da}");
        reveal_strlit("link");
        reveal_strlit("\u{1f517}");
        reveal_strlit("gear");
        reveal_strlit("\u{2699}\u{fe0f}");
    assert forall|i: int| 0 <= i < canonical_defs().len() implies {
        let d = #[trigger] canonical_defs()[i];
        &&& d.0.len() >= 1
        &&& (forall|k: int| 0 <= k < d.0.len() ==> is_code_char(d.0[k]))
        &&& (d.1 == seq![d.1[0]] || d.1 == seq![d.1[0], VARIATION_SELECTOR])
        &&& (d.1[0] as u32) > 127
        &&& d.1[0] != VARIATION_SELECTOR
    } by {
        if i < gitmoji_defs().len() {
            assert(canonical_defs()[i] == (gitmoji_defs()[i].0, gitmoji_defs()[i].1));
        }
    }
}

/// The shape of a `:code:` token, as a whole word.
pub open spec fn is_shortcode_token(w: Seq<char>) -> bool {
    w.len() >= 3 && w[0] == ':' && w[w.len() - 1] == ':' && (forall|k: int|
        1 <= k < w.len() - 1 ==> is_code_char(w[k]))
}

/// Whether every colon of `s` from `i` on lies inside a token that the
/// strip scan consumes.
pub open spec fn colons_only_in_tokens(s: Seq<char>, i: int) -> bool
    decreases s.len() - i when 0 <= i <= s.len()
{
    if i < 0 || i >= s.len() {
        true
    } else if crate::text::is_space_char(s[i]) && token_at(s, i + 1) {
        colons_only_in_tokens(s, token_end(s, i + 1))
    } else if token_at(s, i) {
        colons_only_in_tokens(s, token_end(s, i))
    } else {
        s[i] != ':' && colons_only_in_tokens(s, i + 1)
    }
}

proof fn lemma_strip_from_colon_free(s: Seq<char>, i: int)
    requires
        0 <= i <= s.len(),
        colons_only_in_tokens(s, i),
    ensures
        forall|k: int| 0 <= k < strip_from(s, i).len() ==> strip_from(s, i)[k] != ':',
    decreases s.len() - i,
{
    if i >= s.len() {
        assert(strip_from(s, i).len() == 0);
    } else if crate::text::is_space_char(s[i]) && token_at(s, i + 1) {
        lemma_strip_from_colon_free(s, token_end(s, i + 1));
        assert(strip_from(s, i) == strip_from(s, token_end(s, i + 1)));
    } else if token_at(s, i) {
        lemma_strip_from_colon_free(s, token_end(s, i));
        assert(strip_from(s, i) == strip_from(s, token_end(s, i)));
    } else {
        lemma_strip_from_colon_free(s, i + 1);
        let rest = strip_from(s, i + 1);
        assert forall|k: int| 0 <= k < strip_from(s, i).len()
            implies strip_from(s, i)[k] != ':' by {
            if k > 0 {
                assert((seq![s[i]] + rest)[k] == rest[k - 1]);
            }
        }
    }
}

/// Law: `strip` leaves no `:code:` token behind.  The result holds of
/// every input whose normalized form has colons only inside the tokens
/// that the scan consumes; where a stray colon survives next to a
/// removed token, the two sides can join into a fresh token.
pub proof fn lemma_strip_no_shortcodes(defs: Seq<DefV>, x: Seq<char>)
    requires
        colons_only_in_tokens(demojify_spec(defs, x), 0),
    ensures
        forall|k: int| 0 <= k < strip_spec(defs, x).len() ==> strip_spec(defs, x)[k] != ':',
        forall|i: int, j: int|
            0 <= i <= j <= strip_spec(defs, x).len()
                ==> !is_shortcode_token(strip_spec(defs, x).subrange(i, j)),
{
    let out = strip_spec(defs, x);
    lemma_strip_from_colon_free(demojify_spec(defs, x), 0);
    assert forall|i: int, j: int| 0 <= i <= j <= out.len()
        implies !is_shortcode_token(out.subrange(i, j)) by {
        let w = out.subrange(i, j);
        if is_shortcode_token(w) {
            assert(w[0] == out[i]);
            assert(out[i] != ':');
        }
    }
}

proof fn lemma_rev_find_at(defs: Seq<DefV>, c: char, j: int)
    requires
        0 <= j < defs.len(),
        glyph_matches_char(defs[j].1, c),
        forall|k: int| 0 <= k < j ==> !glyph_matches_char(defs[k].1, c),
    ensures
        rev_find(defs, c) == Some(defs[j].0),
    decreases j,
{
    if j > 0 {
        assert(forall|k: int| 0 <= k < defs.drop_first().len() ==> defs.drop_first()[k] == defs[k + 1]);
        lemma_rev_find_at(defs.drop_first(), c, j - 1);
    }
}

proof fn lemma_rev_find_none(defs: Seq<DefV>, c: char)
    requires
        forall|k: int| 0 <= k < defs.len() ==> !glyph_matches_char(defs[k].1, c),
    ensures
        rev_find(defs, c) is None,
    decreases defs.len(),
{
    if defs.len() > 0 {
        assert(forall|k: int| 0 <= k < defs.drop_first().len() ==> defs.drop_first()[k] == defs[k + 1]);
        lemma_rev_find_none(defs.drop_first(), c);
    }
}

proof fn lemma_pack_first_resolved_at(pack: Seq<PackV>, defs: Seq<DefV>, g: Seq<char>, j: int)
    requires
        0 <= j < pack.len(),
        resolve_pack_emoji_spec(defs, pack[j].1) == g,
        forall|k: int| 0 <= k < j ==> resolve_pack_emoji_spec(defs, pack[k].1) != g,
    ensures
        pack_first_resolved(pack, defs, g) == Some(pack[j].0),
    decreases j,
{
    if j > 0 {
        assert(forall|k: int| 0 <= k < pack.drop_first().len() ==> pack.drop_first()[k] == pack[k + 1]);
        lemma_pack_first_resolved_at(pack.drop_first(), defs, g, j - 1);
    }
}

proof fn lemma_pack_first_resolved_none(pack: Seq<PackV>, defs: Seq<DefV>, g: Seq<char>)
    requires
        forall|k: int| 0 <= k < pack.len() ==> resolve_pack_emoji_spec(defs, pack[k].1) != g,
    ensures
        pack_first_resolved(pack, defs, g) is None,
    decreases pack.len(),
{
    if pack.len() > 0 {
        assert(forall|k: int| 0 <= k < pack.drop_first().len() ==> pack.drop_first()[k] == pack[k + 1]);
        lemma_pack_first_resolved_none(pack.drop_first(), defs, g);
    }
}

proof fn lemma_pack_first_raw_at(pack: Seq<PackV>, c: Seq<char>, j: int)
    requires
        0 <= j < pack.len(),
        pack[j].1 == c,
        forall|k: int| 0 <= k < j ==> pack[k].1 != c,
    ensures
        pack_first_raw(pack, c) == Some(pack[j].0),
    decreases j,
{
    if j > 0 {
        assert(forall|k: int| 0 <= k < pack.drop_first().len() ==> pack.drop_first()[k] == pack[k + 1]);
        lemma_pack_first_raw_at(pack.drop_first(), c, j - 1);
    }
}

proof fn lemma_pack_first_raw_none(pack: Seq<PackV>, c: Seq<char>)
    requires
        forall|k: int| 0 <= k < pack.len() ==> pack[k].1 != c,
    ensures
        pack_first_raw(pack, c) is None,
    decreases pack.len(),
{
    if pack.len() > 0 {
        assert(forall|k: int| 0 <= k < pack.drop_first().len() ==> pack.drop_first()[k] == pack[k + 1]);
        lemma_pack_first_raw_none(pack.drop_first(), c);
    }
}

/// Builds the canonical table; its content is exactly `canonical_defs()`.
fn canonical_table() -> (v: Vec<EmojiDef>)
    ensures
        defs_v(v@) == canonical_defs(),
{
    let g = crate::gitmoji::gitmoji_table();
    let mut v: Vec<EmojiDef> = Vec::new();
    let ghost gd = gitmoji_defs();
    let mut i: usize = 0;
    while i < g.len()
        invariant
            i <= g@.len(),
            gd == gitmoji_defs(),
            g@.map_values(|e: crate::gitmoji::GitmojiEntry| crate::gitmoji::gitmoji_v(e)) == gd,
            defs_v(v@) == gd.map_values(|t: GitmojiV| (t.0, t.1)).take(i as int),
        decreases g@.len() - i,
    {
        assert(gd[i as int] == crate::gitmoji::gitmoji_v(g@[i as int]));
        let e = &g[i];
        let ghost vpre = v@;
        v.push(EmojiDef { code: e.code.clone(), glyph: e.emoji.clone() });
        proof {
            let m = gd.map_values(|t: GitmojiV| (t.0, t.1));
            assert(m.len() == gd.len());
            assert(g@.len() == gd.len());
            assert(defs_v(vpre) == m.take(i as int));
            assert(defs_v(vpre).len() == vpre.len());
            assert(m.take(i as int).len() == i);
            assert(v@.len() == vpre.len() + 1);
            assert(defs_v(v@).len() == i + 1);
            assert forall|k: int| 0 <= k < i + 1 implies defs_v(v@)[#[trigger] (k + 0)] == m.take(i + 1)[k] by {
                assert(m.take(i + 1)[k] == m[k]);
                assert(m[k] == (gd[k].0, gd[k].1));
                assert(defs_v(v@)[k] == def_v(v@[k]));
                if k < i as int {
                    assert(v@[k] == vpre[k]);
                    assert(defs_v(vpre)[k] == def_v(vpre[k]));
                    assert(m.take(i as int)[k] == m[k]);
                }
            }
            assert(defs_v(v@) =~= m.take(i + 1));
        }
        i += 1;
    }
    v.push(EmojiDef { code: "books".to_owned(), glyph: "\u{1f4da}".to_owned() });
    v.push(EmojiDef { code: "link".to_owned(), glyph: "\u{1f517}".to_owned() });
    v.push(EmojiDef { code: "gear".to_owned(), glyph: "\u{2699}\u{fe0f}".to_owned() });
    proof {
        assert(gitmoji_defs().map_values(|t: GitmojiV| (t.0, t.1)).take(gitmoji_defs().len() as int)
            =~= gitmoji_defs().map_values(|t: GitmojiV| (t.0, t.1)));
        assert(defs_v(v@) =~= canonical_defs());
    }
    v
}

/// Builds the list of gitmoji codes, in table order.
fn gitmoji_code_list() -> (v: Vec<String>)
    ensures
        v@.map_values(|s: String| s@) == gitmoji_codes(),
{
    let g = crate::gitmoji::gitmoji_table();
    let mut v: Vec<String> = Vec::new();
    let ghost gd = gitmoji_defs();
    let mut i: usize = 0;
    while i < g.len()
        invariant
            i <= g@.len(),
            gd == gitmoji_defs(),
            g@.map_values(|e: crate::gitmoji::GitmojiEntry| crate::gitmoji::gitmoji_v(e)) == gd,
            v@.map_values(|s: String| s@) == gd.map_values(|t: GitmojiV| t.0).take(i as int),
        decreases g@.len() - i,
    {
        assert(gd[i as int] == crate::gitmoji::gitmoji_v(g@[i as int]));
        let ghost vpre = v@;
        v.push(g[i].code.clone());
        proof {
            let m = gd.map_values(|t: GitmojiV| t.0);
            assert(m.len() == gd.len());
            assert(g@.len() == gd.len());
            assert(vpre.map_values(|s: String| s@) == m.take(i as int));
            assert(vpre.map_values(|s: String| s@).len() == vpre.len());
            assert(m.take(i as int).len() == i);
            assert(v@.len() == vpre.len() + 1);
            assert(v@.map_values(|s: String| s@).len() == i + 1);
            assert forall|k: int| 0 <= k < i + 1 implies v@.map_values(|s: String| s@)[#[trigger] (k + 0)]
                == m.take(i + 1)[k] by {
                assert(m.take(i + 1)[k] == m[k]);
                assert(m[k] == gd[k].0);
                assert(v@.map_values(|s: String| s@)[k] == v@[k]@);
                if k < i as int {
                    assert(v@[k] == vpre[k]);
                    assert(vpre.map_values(|s: String| s@)[k] == vpre[k]@);
                    assert(m.take(i as int)[k] == m[k]);
                }
            }
            assert(v@.map_values(|s: String| s@) =~= m.take(i + 1));
        }
        i += 1;
    }
    proof {
        assert(gd.map_values(|t: GitmojiV| t.0).take(gd.len() as int)
            =~= gitmoji_codes());
    }
    v
}

/// Whether the glyph `g` stands for the character `c`.
fn glyph_matches(g: &str, c: char) -> (b: bool)
    ensures
        b == glyph_matches_char(g@, c),
{
    let n = g.unicode_len();
    if n == 1 {
        let hit = g.get_char(0) == c;
        proof {
            if hit {
                assert(g@ =~= seq![c]);
            } else {
                assert(g@ != seq![c]);
                assert(g@.len() != 2);
            }
        }
        hit
    } else if n == 2 {
        let hit = g.get_char(0) == c && g.get_char(1) == VARIATION_SELECTOR;
        proof {
            if hit {
                assert(g@ =~= seq![c, VARIATION_SELECTOR]);
            } else {
                assert(g@ != seq![c, VARIATION_SELECTOR]);
                assert(g@.len() != 1);
            }
        }
        hit
    } else {
        false
    }
}

/// Index of the first canonical definition whose glyph stands for `c`.
fn rev_find_exec(defs: &Vec<EmojiDef>, c: char) -> (r: Option<usize>)
    ensures
        match r {
            Some(j) => j < defs@.len() && rev_find(defs_v(defs@), c)
                == Some(defs@[j as int].code@),
            None => rev_find(defs_v(defs@), c) is None,
        },
{
    let ghost dv = defs_v(defs@);
    let mut j: usize = 0;
    while j < defs.len()
        invariant
            j <= defs@.len(),
            dv == defs_v(defs@),
            forall|k: int| 0 <= k < j ==> !glyph_matches_char(dv[k].1, c),
        decreases defs@.len() - j,
    {
        assert(dv[j as int] == def_v(defs@[j as int]));
        if glyph_matches(defs[j].glyph.as_str(), c) {
            proof {
                lemma_rev_find_at(dv, c, j as int);
            }
            return Some(j);
        }
        j += 1;
    }
    proof {
        lemma_rev_find_none(dv, c);
    }
    None
}

/// `demojify` over a character vector.
fn demojify_chars(defs: &Vec<EmojiDef>, s: &Vec<char>) -> (out: Vec<char>)
    ensures
        out@ == demojify_spec(defs_v(defs@), s@),
{
    let ghost dv = defs_v(defs@);
    let mut out: Vec<char> = Vec::new();
    let mut i: usize = 0;
    while i < s.len()
        invariant
            i <= s@.len(),
            dv == defs_v(defs@),
            demojify_from(dv, s@, 0) == out@ + demojify_from(dv, s@, i as int),
        decreases s@.len() - i,
    {
        let ghost out0 = out@;
        let c = s[i];
        match rev_find_exec(defs, c) {
            Some(j) => {
                out.push(':');
                append_str(&mut out, defs[j].code.as_str());
                out.push(':');
                proof {
                    assert(out@ =~= out0 + demojify_char(dv, c));
                }
            },
            None => {
                if c != VARIATION_SELECTOR {
                    out.push(c);
                    proof {
                        assert(out@ =~= out0 + demojify_char(dv, c));
                    }
                } else {
                    proof {
                        assert(out@ =~= out0 + demojify_char(dv, c));
                    }
                }
            },
        }
        proof {
            assert(demojify_from(dv, s@, i as int)
                == demojify_char(dv, s@[i as int]) + demojify_from(dv, s@, i + 1));
            assert(out0 + demojify_from(dv, s@, i as int)
                =~= out@ + demojify_from(dv, s@, i + 1));
        }
        i += 1;
    }
    proof {
        assert(out@ + demojify_from(dv, s@, s@.len() as int) =~= out@);
    }
    out
}

/// Index of the first canonical definition with the given code.
fn find_def(defs: &Vec<EmojiDef>, code: &Vec<char>) -> (r: Option<usize>)
    ensures
        match r {
            Some(j) => j < defs@.len() && table_glyph(defs_v(defs@), code@)
                == Some(defs@[j as int].glyph@),
            None => table_glyph(defs_v(defs@), code@) is None,
        },
{
    let ghost dv = defs_v(defs@);
    let mut j: usize = 0;
    while j < defs.len()
        invariant
            j <= defs@.len(),
            dv == defs_v(defs@),
            forall|k: int| 0 <= k < j ==> dv[k].0 != code@,
        decreases defs@.len() - j,
    {
        assert(dv[j as int] == def_v(defs@[j as int]));
        if str_eq_range(defs[j].code.as_str(), code, 0, code.len()) {
            proof {
                assert(code@.subrange(0, code@.len() as int) =~= code@);
                lemma_def_find_idx(dv, code@);
                assert(def_find_idx(dv, code@) == j);
            }
            return Some(j);
        }
        proof {
            assert(code@.subrange(0, code@.len() as int) =~= code@);
        }
        j += 1;
    }
    proof {
        lemma_def_find_idx(dv, code@);
    }
    None
}

/// Index of the first pack entry with the given code.
fn find_pack(pack: &Vec<DevmojiEntry>, code: &Vec<char>) -> (r: Option<usize>)
    ensures
        match r {
            Some(j) => j < pack@.len() && pack_emoji(pack_v(pack@), code@)
                == Some(pack@[j as int].emoji@),
            None => pack_emoji(pack_v(pack@), code@) is None,
        },
{
    let ghost pv = pack_v(pack@);
    let mut j: usize = 0;
    while j < pack.len()
        invariant
            j <= pack@.len(),
            pv == pack_v(pack@),
            forall|k: int| 0 <= k < j ==> pv[k].0 != code@,
        decreases pack@.len() - j,
    {
        assert(pv[j as int] == entry_v(pack@[j as int]));
        if str_eq_range(pack[j].code.as_str(), code, 0, code.len()) {
            proof {
                assert(code@.subrange(0, code@.len() as int) =~= code@);
                lemma_pack_find_idx(pv, code@);
                assert(pack_find_idx(pv, code@) == j);
            }
            return Some(j);
        }
        proof {
            assert(code@.subrange(0, code@.len() as int) =~= code@);
        }
        j += 1;
    }
    proof {
        lemma_pack_find_idx(pv, code@);
    }
    None
}

/// The wrapped token `":code:"`, as a character vector.
fn wrap_chars(code: &Vec<char>) -> (out: Vec<char>)
    ensures
        out@ == wrap_code(code@),
{
    let mut out: Vec<char> = Vec::new();
    out.push(':');
    append_range(&mut out, code, 0, code.len());
    out.push(':');
    proof {
        assert(out@ =~= wrap_code(code@));
    }
    out
}

/// The resolution walk of `get`, bounded by `fuel`.
fn get_walk(pack: &Vec<DevmojiEntry>, code: &Vec<char>, fuel: usize) -> (r: Option<Vec<char>>)
    ensures
        match r {
            Some(k) => get_steps(pack_v(pack@), code@, fuel as nat) == Some(k@),
            None => get_steps(pack_v(pack@), code@, fuel as nat) is None,
        },
    decreases fuel,
{
    match find_pack(pack, code) {
        Some(j) => {
            if !str_eq_range(pack[j].emoji.as_str(), code, 0, code.len()) {
                proof {
                    assert(code@.subrange(0, code@.len() as int) =~= code@);
                }
                if fuel == 0 {
                    None
                } else {
                    let t = chars_of(pack[j].emoji.as_str());
                    get_walk(pack, &t, fuel - 1)
                }
            } else {
                proof {
                    assert(code@.subrange(0, code@.len() as int) =~= code@);
                }
                Some(vec_range(code, 0, code.len()))
            }
        },
        None => Some(vec_range(code, 0, code.len())),
    }
}

/// `get` over character vectors.
fn get_chars(pack: &Vec<DevmojiEntry>, defs: &Vec<EmojiDef>, code: &Vec<char>) -> (out: Vec<char>)
    ensures
        out@ == get_spec(pack_v(pack@), defs_v(defs@), code@),
{
    proof {
        assert(code@.subrange(0, code@.len() as int) =~= code@);
    }
    match get_walk(pack, code, pack.len()) {
        None => wrap_chars(code),
        Some(k) => match find_def(defs, &k) {
            Some(j) => chars_of(defs[j].glyph.as_str()),
            None => wrap_chars(&k),
        },
    }
}

/// Length of the run of shortcode characters starting at `i`.
fn code_run_exec(s: &Vec<char>, i: usize) -> (r: usize)
    requires
        i <= s@.len(),
    ensures
        r as int == code_run(s@, i as int),
        i + r <= s@.len(),
    decreases s@.len() - i,
{
    if i < s.len() && code_char(s[i]) {
        1 + code_run_exec(s, i + 1)
    } else {
        0
    }
}

/// The code-run length of the token starting at `i`, if one does.
pub fn token_run_at(s: &Vec<char>, i: usize) -> (r: Option<usize>)
    requires
        i <= s@.len(),
    ensures
        match r {
            Some(run) => token_at(s@, i as int) && run as int == code_run(s@, i as int + 1)
                && i + 2 + run <= s@.len(),
            None => !token_at(s@, i as int),
        },
{
    if i >= s.len() {
        return None;
    }
    if s[i] != ':' {
        return None;
    }
    let run = code_run_exec(s, i + 1);
    if run == 0 {
        return None;
    }
    if i + 1 + run >= s.len() {
        return None;
    }
    if s[i + 1 + run] != ':' {
        return None;
    }
    Some(run)
}

/// `emojify` over a character vector: the input is first normalized to
/// shortcodes, then every token is resolved through `get`.
fn emojify_chars(pack: &Vec<DevmojiEntry>, defs: &Vec<EmojiDef>, s: &Vec<char>) -> (out: Vec<
    char,
>)
    ensures
        out@ == emojify_spec(pack_v(pack@), defs_v(defs@), s@),
{
    let ghost pv = pack_v(pack@);
    let ghost dv = defs_v(defs@);
    let ghost f = |code: Seq<char>| get_spec(pv, dv, code);
    let t = demojify_chars(defs, s);
    let mut out: Vec<char> = Vec::new();
    let mut i: usize = 0;
    while i < t.len()
        invariant
            i <= t@.len(),
            pv == pack_v(pack@),
            dv == defs_v(defs@),
            f == (|code: Seq<char>| get_spec(pv, dv, code)),
            rewrite_tokens_from(t@, 0, f) == out@ + rewrite_tokens_from(t@, i as int, f),
        decreases t@.len() - i,
    {
        let ghost out0 = out@;
        match token_run_at(&t, i) {
            Some(run) => {
                let code = vec_range(&t, i + 1, i + 1 + run);
                let glyph = get_chars(pack, defs, &code);
                let mut g = glyph;
                append_range(&mut out, &g, 0, g.len());
                proof {
                    assert(g@.subrange(0, g@.len() as int) =~= g@);
                    assert(code@ == token_code(t@, i as int));
                    assert(out@ =~= out0 + f(token_code(t@, i as int)));
                    assert(rewrite_tokens_from(t@, i as int, f)
                        == f(token_code(t@, i as int))
                        + rewrite_tokens_from(t@, token_end(t@, i as int), f));
                    assert(out0 + rewrite_tokens_from(t@, i as int, f)
                        =~= out@ + rewrite_tokens_from(t@, token_end(t@, i as int), f));
                }
                i = i + 2 + run;
            },
            None => {
                out.push(t[i]);
                proof {
                    assert(out@ =~= out0 + seq![t@[i as int]]);
                    assert(rewrite_tokens_from(t@, i as int, f)
                        == seq![t@[i as int]] + rewrite_tokens_from(t@, i + 1, f));
                    assert(out0 + rewrite_tokens_from(t@, i as int, f)
                        =~= out@ + rewrite_tokens_from(t@, i + 1, f));
                }
                i = i + 1;
            },
        }
    }
    proof {
        assert(out@ + rewrite_tokens_from(t@, t@.len() as int, f) =~= out@);
    }
    out
}

/// The `devmojify` replacement for one token code.
fn devmoji_token_exec(
    pack: &Vec<DevmojiEntry>,
    defs: &Vec<EmojiDef>,
    git: &Vec<String>,
    code: &Vec<char>,
) -> (out: Vec<char>)
    ensures
        out@ == devmoji_token(
            pack_v(pack@),
            defs_v(defs@),
            git@.map_values(|s: String| s@),
            code@,
        ),
{
    let ghost pv = pack_v(pack@);
    let ghost dv = defs_v(defs@);
    let ghost gv = git@.map_values(|s: String| s@);
    match find_def(defs, code) {
        Some(j) => {
            let glyph = &defs[j].glyph;
            let mut k: usize = 0;
            while k < pack.len()
                invariant
                    k <= pack@.len(),
                    pv == pack_v(pack@),
                    dv == defs_v(defs@),
                    j < defs@.len(),
                    glyph == &defs@[j as int].glyph,
                    table_glyph(dv, code@) == Some(glyph@),
                    forall|m: int| 0 <= m < k
                        ==> resolve_pack_emoji_spec(dv, pv[m].1) != glyph@,
                decreases pack@.len() - k,
            {
                assert(pv[k as int] == entry_v(pack@[k as int]));
                let emoji_chars = chars_of(pack[k].emoji.as_str());
                let resolved = match find_def(defs, &emoji_chars) {
                    Some(dj) => {
                        let r = &defs[dj].glyph;
                        assert(r@ == resolve_pack_emoji_spec(dv, pv[k as int].1));
                        r
                    },
                    None => {
                        let r = &pack[k].emoji;
                        assert(r@ == resolve_pack_emoji_spec(dv, pv[k as int].1));
                        r
                    },
                };
                if *resolved == *glyph {
                    proof {
                        lemma_pack_first_resolved_at(pv, dv, glyph@, k as int);
                    }
                    return wrap_chars(&chars_of(pack[k].code.as_str()));
                }
                k += 1;
            }
            proof {
                lemma_pack_first_resolved_none(pv, dv, glyph@);
            }
            wrap_chars(code)
        },
        None => {
            let mut in_git = false;
            let mut k: usize = 0;
            while k < git.len()
                invariant
                    k <= git@.len(),
                    gv == git@.map_values(|s: String| s@),
                    in_git <==> exists|m: int| 0 <= m < k && gv[m] == code@,
                decreases git@.len() - k,
            {
                assert(gv[k as int] == git@[k as int]@);
                if !in_git && str_eq_range(git[k].as_str(), code, 0, code.len()) {
                    proof {
                        assert(code@.subrange(0, code@.len() as int) =~= code@);
                        assert(gv[k as int] == code@);
                    }
                    in_git = true;
                } else {
                    proof {
                        assert(code@.subrange(0, code@.len() as int) =~= code@);
                    }
                }
                k += 1;
            }
            proof {
                if in_git {
                    let m = choose|m: int| 0 <= m < gv.len() && gv[m] == code@;
                    assert(gv.contains(code@));
                } else {
                    assert(!gv.contains(code@)) by {
                        if gv.contains(code@) {
                            let m = choose|m: int| 0 <= m < gv.len() && gv[m] == code@;
                        }
                    }
                }
            }
            if in_git {
                let mut k: usize = 0;
                while k < pack.len()
                    invariant
                        k <= pack@.len(),
                        pv == pack_v(pack@),
                        dv == defs_v(defs@),
                        gv == git@.map_values(|s: String| s@),
                        table_glyph(dv, code@) is None,
                        gv.contains(code@),
                        forall|m: int| 0 <= m < k ==> pv[m].1 != code@,
                    decreases pack@.len() - k,
                {
                    assert(pv[k as int] == entry_v(pack@[k as int]));
                    if str_eq_range(pack[k].emoji.as_str(), code, 0, code.len()) {
                        proof {
                            assert(code@.subrange(0, code@.len() as int) =~= code@);
                            lemma_pack_first_raw_at(pv, code@, k as int);
                        }
                        return wrap_chars(&chars_of(pack[k].code.as_str()));
                    }
                    proof {
                        assert(code@.subrange(0, code@.len() as int) =~= code@);
                    }
                    k += 1;
                }
                proof {
                    lemma_pack_first_raw_none(pv, code@);
                }
                wrap_chars(code)
            } else {
                wrap_chars(code)
            }
        },
    }
}

/// `devmojify` over a character vector.
fn devmojify_chars(
    pack: &Vec<DevmojiEntry>,
    defs: &Vec<EmojiDef>,
    git: &Vec<String>,
    s: &Vec<char>,
) -> (out: Vec<char>)
    ensures
        out@ == devmojify_spec(
            pack_v(pack@),
            defs_v(defs@),
            git@.map_values(|s: String| s@),
            s@,
        ),
{
    let ghost pv = pack_v(pack@);
    let ghost dv = defs_v(defs@);
    let ghost gv = git@.map_values(|s: String| s@);
    let ghost f = |code: Seq<char>| devmoji_token(pv, dv, gv, code);
    let t = demojify_chars(defs, s);
    let mut out: Vec<char> = Vec::new();
    let mut i: usize = 0;
    while i < t.len()
        invariant
            i <= t@.len(),
            pv == pack_v(pack@),
            dv == defs_v(defs@),
            gv == git@.map_values(|s: String| s@),
            f == (|code: Seq<char>| devmoji_token(pv, dv, gv, code)),
            rewrite_tokens_from(t@, 0, f) == out@ + rewrite_tokens_from(t@, i as int, f),
        decreases t@.len() - i,
    {
        let ghost out0 = out@;
        match token_run_at(&t, i) {
            Some(run) => {
                let code = vec_range(&t, i + 1, i + 1 + run);
                let rep = devmoji_token_exec(pack, defs, git, &code);
                append_range(&mut out, &rep, 0, rep.len());
                proof {
                    assert(rep@.subrange(0, rep@.len() as int) =~= rep@);
                    assert(code@ == token_code(t@, i as int));
                    assert(out@ =~= out0 + f(token_code(t@, i as int)));
                    assert(rewrite_tokens_from(t@, i as int, f)
                        == f(token_code(t@, i as int))
                        + rewrite_tokens_from(t@, token_end(t@, i as int), f));
                    assert(out0 + rewrite_tokens_from(t@, i as int, f)
                        =~= out@ + rewrite_tokens_from(t@, token_end(t@, i as int), f));
                }
                i = i + 2 + run;
            },
            None => {
                out.push(t[i]);
                proof {
                    assert(out@ =~= out0 + seq![t@[i as int]]);
                    assert(rewrite_tokens_from(t@, i as int, f)
                        == seq![t@[i as int]] + rewrite_tokens_from(t@, i + 1, f));
                    assert(out0 + rewrite_tokens_from(t@, i as int, f)
                        =~= out@ + rewrite_tokens_from(t@, i + 1, f));
                }
                i = i + 1;
            },
        }
    }
    proof {
        assert(out@ + rewrite_tokens_from(t@, t@.len() as int, f) =~= out@);
    }
    out
}

/// `strip` over a character vector.
fn strip_chars(defs: &Vec<EmojiDef>, s: &Vec<char>) -> (out: Vec<char>)
    ensures
        out@ == strip_spec(defs_v(defs@), s@),
{
    let t = demojify_chars(defs, s);
    let mut out: Vec<char> = Vec::new();
    let mut i: usize = 0;
    while i < t.len()
        invariant
            i <= t@.len(),
            strip_from(t@, 0) == out@ + strip_from(t@, i as int),
        decreases t@.len() - i,
    {
        let ghost out0 = out@;
        let c = t[i];
        if crate::text::space_char(c) {
            match token_run_at(&t, i + 1) {
                Some(run) => {
                    proof {
                        assert(strip_from(t@, i as int)
                            == strip_from(t@, token_end(t@, i as int + 1)));
                    }
                    i = i + 3 + run;
                },
                None => {
                    out.push(c);
                    proof {
                        assert(!token_at(t@, i as int)) by {
                            assert(t@[i as int] != ':');
                        }
                        assert(out@ =~= out0 + seq![t@[i as int]]);
                        assert(strip_from(t@, i as int)
                            == seq![t@[i as int]] + strip_from(t@, i + 1));
                        assert(out0 + strip_from(t@, i as int)
                            =~= out@ + strip_from(t@, i + 1));
                    }
                    i = i + 1;
                },
            }
        } else {
            match token_run_at(&t, i) {
                Some(run) => {
                    proof {
                        assert(strip_from(t@, i as int)
                            == strip_from(t@, token_end(t@, i as int)));
                    }
                    i = i + 2 + run;
                },
                None => {
                    out.push(c);
                    proof {
                        assert(out@ =~= out0 + seq![t@[i as int]]);
                        assert(strip_from(t@, i as int)
                            == seq![t@[i as int]] + strip_from(t@, i + 1));
                        assert(out0 + strip_from(t@, i as int)
                            =~= out@ + strip_from(t@, i + 1));
                    }
                    i = i + 1;
                },
            }
        }
    }
    proof {
        assert(out@ + strip_from(t@, t@.len() as int) =~= out@);
    }
    out
}

/// The emoji resolver: the project pack merged from the configuration,
/// the canonical shortcode table, and the gitmoji code list.
pub struct Devmoji {
    pub pack: Vec<DevmojiEntry>,
    pub defs: Vec<EmojiDef>,
    pub gitcodes: Vec<String>,
}

impl Devmoji {
    pub open spec fn pack_view(&self) -> Seq<PackV> {
        pack_v(self.pack@)
    }

    pub open spec fn defs_view(&self) -> Seq<DefV> {
        defs_v(self.defs@)
    }

    pub open spec fn git_view(&self) -> Seq<Seq<char>> {
        self.gitcodes@.map_values(|s: String| s@)
    }

    /// Builds a resolver over the configuration's pack and the built-in
    /// canonical table.
    pub fn new(config: &Config) -> (dm: Devmoji)
        ensures
            dm.pack_view() == config.pack_v(),
            dm.defs_view() == canonical_defs(),
            dm.git_view() == gitmoji_codes(),
    {
        let mut pack: Vec<DevmojiEntry> = Vec::new();
        let mut i: usize = 0;
        while i < config.devmojis.len()
            invariant
                i <= config.devmojis@.len(),
                pack_v(pack@) == pack_v(config.devmojis@).take(i as int),
            decreases config.devmojis@.len() - i,
        {
            let e = &config.devmojis[i];
            let ghost ppre = pack@;
            pack.push(DevmojiEntry {
                code: e.code.clone(),
                emoji: e.emoji.clone(),
                description: e.description.clone(),
            });
            proof {
                let m = pack_v(config.devmojis@);
                assert(m.len() == config.devmojis@.len());
                assert(pack_v(ppre) == m.take(i as int));
                assert(pack_v(ppre).len() == ppre.len());
                assert(m.take(i as int).len() == i);
                assert(pack@.len() == ppre.len() + 1);
                assert forall|k: int| 0 <= k < i + 1 implies pack_v(pack@)[#[trigger] (k + 0)]
                    == m.take(i + 1)[k] by {
                    assert(m.take(i + 1)[k] == m[k]);
                    assert(m[k] == entry_v(config.devmojis@[k]));
                    assert(pack_v(pack@)[k] == entry_v(pack@[k]));
                    if k < i as int {
                        assert(pack@[k] == ppre[k]);
                        assert(pack_v(ppre)[k] == entry_v(ppre[k]));
                        assert(m.take(i as int)[k] == m[k]);
                    }
                }
                assert(pack_v(pack@) =~= m.take(i + 1));
            }
            i += 1;
        }
        proof {
            assert(pack_v(config.devmojis@).take(config.devmojis@.len() as int)
                =~= pack_v(config.devmojis@));
        }
        Devmoji { pack, defs: canonical_table(), gitcodes: gitmoji_code_list() }
    }

    /// The pack, in order.
    pub fn pack(&self) -> (r: &[DevmojiEntry])
        ensures
            r@ == self.pack@,
    {
        self.pack.as_slice()
    }

    /// Resolves a code to its unicode emoji: pack aliases first, then the
    /// canonical table; an unknown code comes back wrapped in colons.
    pub fn get(&self, code: &str) -> (r: String)
        ensures
            r@ == get_spec(self.pack_view(), self.defs_view(), code@),
    {
        let v = chars_of(code);
        let out = get_chars(&self.pack, &self.defs, &v);
        string_from_chars(&out)
    }

    /// Rewrites every known unicode emoji as its `:shortcode:` token.
    pub fn demojify(&self, text: &str) -> (r: String)
        ensures
            r@ == demojify_spec(self.defs_view(), text@),
    {
        let v = chars_of(text);
        let out = demojify_chars(&self.defs, &v);
        string_from_chars(&out)
    }

    /// Rewrites the text with every shortcode resolved to its emoji.
    pub fn emojify(&self, text: &str) -> (r: String)
        ensures
            r@ == emojify_spec(self.pack_view(), self.defs_view(), text@),
    {
        let v = chars_of(text);
        let out = emojify_chars(&self.pack, &self.defs, &v);
        string_from_chars(&out)
    }

    /// Rewrites the text with every shortcode replaced by its pack alias,
    /// where one exists.
    pub fn devmojify(&self, text: &str) -> (r: String)
        ensures
            r@ == devmojify_spec(
                self.pack_view(),
                self.defs_view(),
                self.git_view(),
                text@,
            ),
    {
        let v = chars_of(text);
        let out = devmojify_chars(&self.pack, &self.defs, &self.gitcodes, &v);
        string_from_chars(&out)
    }

    /// Deletes every emoji from the text, each with at most one
    /// whitespace character immediately before it.
    pub fn strip(&self, text: &str) -> (r: String)
        ensures
            r@ == strip_spec(self.defs_view(), text@),
    {
        let v = chars_of(text);
        let out = strip_chars(&self.defs, &v);
        string_from_chars(&out)
    }
}

} // verus!
