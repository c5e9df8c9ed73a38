//! The conventional-commit header grammar: an optional leading colon, a
//! type, an optional parenthesised scope, an optional `!`, a colon, then
//! whitespace and any run of `:code:` tokens.  Matching is
//! case-insensitive over ASCII letters and fully deterministic.

use vstd::prelude::*;
use crate::text::{is_ident_char, is_letter_char, is_space_char, ident_char, space_char};
use crate::devmoji::{token_at, token_code, token_end, code_run, lemma_code_run};

verus! {

/// The length of the run of type/scope characters starting at `i`.
pub open spec fn ident_run(s: Seq<char>, i: int) -> int
    decreases s.len() - i when 0 <= i <= s.len()
{
    if i < 0 || i >= s.len() || !is_ident_char(s[i]) {
        0
    } else {
        1 + ident_run(s, i + 1)
    }
}

pub proof fn lemma_ident_run(s: Seq<char>, i: int)
    requires
        0 <= i <= s.len(),
    ensures
        0 <= ident_run(s, i),
        i + ident_run(s, i) <= s.len(),
    decreases s.len() - i,
{
    if i < s.len() && is_ident_char(s[i]) {
        lemma_ident_run(s, i + 1);
    }
}

/// The length of the whitespace run starting at `i`.
pub open spec fn ws_run(s: Seq<char>, i: int) -> int
    decreases s.len() - i when 0 <= i <= s.len()
{
    if i < 0 || i >= s.len() || !is_space_char(s[i]) {
        0
    } else {
        1 + ws_run(s, i + 1)
    }
}

pub proof fn lemma_ws_run(s: Seq<char>, i: int)
    requires
        0 <= i <= s.len(),
    ensures
        0 <= ws_run(s, i),
        i + ws_run(s, i) <= s.len(),
    decreases s.len() - i,
{
    if i < s.len() && is_space_char(s[i]) {
        lemma_ws_run(s, i + 1);
    }
}

pub fn ident_run_exec(s: &Vec<char>, i: usize) -> (r: usize)
    requires
        i <= s@.len(),
    ensures
        r as int == ident_run(s@, i as int),
        i + r <= s@.len(),
    decreases s@.len() - i,
{
    if i < s.len() && ident_char(s[i]) {
        1 + ident_run_exec(s, i + 1)
    } else {
        0
    }
}

pub fn ws_run_exec(s: &Vec<char>, i: usize) -> (r: usize)
    requires
        i <= s@.len(),
    ensures
        r as int == ws_run(s@, i as int),
        i + r <= s@.len(),
    decreases s@.len() - i,
{
    if i < s.len() && space_char(s[i]) {
        1 + ws_run_exec(s, i + 1)
    } else {
        0
    }
}

/// The run of `:code:` tokens from `i`, each followed by a whitespace
/// run: the captured codes and the position after the last consumed run.
pub open spec fn others_from(s: Seq<char>, i: int) -> (Seq<Seq<char>>, int)
    decreases s.len() - i when 0 <= i <= s.len() via others_from_decreases
{
    if token_at(s, i) {
        let code = token_code(s, i);
        let j = token_end(s, i);
        let j2 = j + ws_run(s, j);
        let r = others_from(s, j2);
        (seq![code] + r.0, r.1)
    } else {
        (Seq::empty(), i)
    }
}

#[via_fn]
proof fn others_from_decreases(s: Seq<char>, i: int) {
    if token_at(s, i) {
        lemma_code_run(s, i + 1);
        lemma_ws_run(s, token_end(s, i));
    }
}

pub proof fn lemma_others_from(s: Seq<char>, i: int)
    requires
        0 <= i <= s.len(),
    ensures
        i <= others_from(s, i).1 <= s.len(),
    decreases s.len() - i,
{
    if token_at(s, i) {
        lemma_code_run(s, i + 1);
        lemma_ws_run(s, token_end(s, i));
        lemma_others_from(s, token_end(s, i) + ws_run(s, token_end(s, i)));
    }
}

/// One recognized header.  `cap` is the captured type, verbatim,
/// including a leading colon where one was matched.
pub ghost struct HeaderV {
    pub cap: Seq<char>,
    pub scope: Option<Seq<char>>,
    pub breaking: bool,
    pub codes: Seq<Seq<char>>,
    pub end: int,
}

/// The scope part at `p`: no parenthesis means no scope; an opening
/// parenthesis must close over a nonempty identifier run, or the whole
/// match fails.
pub open spec fn scope_at(s: Seq<char>, p: int) -> Option<(Option<Seq<char>>, int)> {
    if 0 <= p < s.len() && s[p] == '(' {
        let r = ident_run(s, p + 1);
        if r >= 1 && p + 1 + r < s.len() && s[p + 1 + r] == ')' {
            Some((Some(s.subrange(p + 1, p + 1 + r)), p + 2 + r))
        } else {
            None
        }
    } else {
        Some((None, p))
    }
}

/// The header match anchored at position `i`, if the grammar accepts one
/// there.
pub open spec fn header_at(s: Seq<char>, i: int) -> Option<HeaderV> {
    if !(0 <= i < s.len()) {
        None
    } else {
        let t0 = if s[i] == ':' { i + 1 } else { i };
        if !(t0 < s.len() && is_letter_char(s[t0])) {
            None
        } else {
            let te = t0 + 1 + ident_run(s, t0 + 1);
            match scope_at(s, te) {
                None => None,
                Some(sc) => {
                    let breaking = sc.1 < s.len() && s[sc.1] == '!';
                    let p2 = if breaking { sc.1 + 1 } else { sc.1 };
                    if !(p2 < s.len() && s[p2] == ':') {
                        None
                    } else {
                        let p3 = p2 + 1 + ws_run(s, p2 + 1);
                        let o = others_from(s, p3);
                        Some(HeaderV {
                            cap: s.subrange(i, te),
                            scope: sc.0,
                            breaking,
                            codes: o.0,
                            end: o.1,
                        })
                    }
                },
            }
        }
    }
}

/// Every match is nonempty and ends within the text.
pub proof fn lemma_header_end(s: Seq<char>, i: int)
    requires
        header_at(s, i) is Some,
    ensures
        i < header_at(s, i)->0.end <= s.len(),
        header_at(s, i)->0.cap.len() >= 1,
{
    let t0 = if s[i] == ':' { i + 1 } else { i };
    lemma_ident_run(s, t0 + 1);
    let te = t0 + 1 + ident_run(s, t0 + 1);
    let sc = scope_at(s, te)->0;
    if 0 <= te < s.len() && s[te] == '(' {
        lemma_ident_run(s, te + 1);
    }
    let p2 = if sc.1 < s.len() && s[sc.1] == '!' { sc.1 + 1 } else { sc.1 };
    lemma_ws_run(s, p2 + 1);
    let p3 = p2 + 1 + ws_run(s, p2 + 1);
    lemma_others_from(s, p3);
}

/// One recognized header, positions into the scanned vector.
pub struct HeaderMatch {
    pub cap_end: usize,
    pub scope_start: usize,
    pub scope_end: usize,
    pub has_scope: bool,
    pub breaking: bool,
    pub codes: Vec<Vec<char>>,
    pub end: usize,
}

impl HeaderMatch {
    /// How a match relates to the grammar's verdict at position `i`.
    pub open spec fn matches(&self, s: Seq<char>, i: int) -> bool {
        &&& header_at(s, i) == Some(HeaderV {
            cap: s.subrange(i, self.cap_end as int),
            scope: if self.has_scope {
                Some(s.subrange(self.scope_start as int, self.scope_end as int))
            } else {
                None
            },
            breaking: self.breaking,
            codes: self.codes@.map_values(|v: Vec<char>| v@),
            end: self.end as int,
        })
        &&& i < self.cap_end as int
        &&& self.has_scope ==> self.scope_start <= self.scope_end
        &&& self.scope_end <= self.end
        &&& self.cap_end <= self.end
        &&& self.end <= s.len()
    }
}

/// Tries to recognize a header anchored at `i`.
pub fn try_header_at(s: &Vec<char>, i: usize) -> (r: Option<HeaderMatch>)
    requires
        i <= s@.len(),
    ensures
        match r {
            Some(m) => m.matches(s@, i as int),
            None => header_at(s@, i as int) is None,
        },
{
    if i >= s.len() {
        return None;
    }
    let t0: usize = if s[i] == ':' { i + 1 } else { i };
    if !(t0 < s.len() && crate::text::letter_char(s[t0])) {
        return None;
    }
    let te = t0 + 1 + ident_run_exec(s, t0 + 1);
    let mut has_scope = false;
    let mut scope_start: usize = 0;
    let mut scope_end: usize = 0;
    let mut p1: usize = te;
    if te < s.len() && s[te] == '(' {
        let r = ident_run_exec(s, te + 1);
        if r >= 1 && te + 1 + r < s.len() && s[te + 1 + r] == ')' {
            has_scope = true;
            scope_start = te + 1;
            scope_end = te + 1 + r;
            p1 = te + 2 + r;
        } else {
            return None;
        }
    }
    let breaking = p1 < s.len() && s[p1] == '!';
    let p2: usize = if breaking { p1 + 1 } else { p1 };
    if !(p2 < s.len() && s[p2] == ':') {
        return None;
    }
    let p3 = p2 + 1 + ws_run_exec(s, p2 + 1);

    let mut codes: Vec<Vec<char>> = Vec::new();
    let mut q: usize = p3;
    loop
        invariant
            p3 <= q <= s@.len(),
            others_from(s@, p3 as int).0 == codes@.map_values(|v: Vec<char>| v@)
                + others_from(s@, q as int).0,
            others_from(s@, p3 as int).1 == others_from(s@, q as int).1,
        ensures
            q <= s@.len(),
            !token_at(s@, q as int),
            others_from(s@, p3 as int).0 == codes@.map_values(|v: Vec<char>| v@),
            others_from(s@, p3 as int).1 == q as int,
        decreases s@.len() - q,
    {
        proof {
            assert(codes@.map_values(|v: Vec<char>| v@) + Seq::<Seq<char>>::empty()
                =~= codes@.map_values(|v: Vec<char>| v@));
        }
        match crate::devmoji::token_run_at(s, q) {
            Some(run) => {
                let n = s.len();
                let ghost codes0 = codes@.map_values(|v: Vec<char>| v@);
                assert(q + 2 + run <= n);
                let code = crate::text::vec_range(s, q + 1, q + 1 + run);
                codes.push(code);
                let j = q + 2 + run;
                let w = ws_run_exec(s, j);
                proof {
                    assert(codes@.map_values(|v: Vec<char>| v@)
                        =~= codes0 + seq![token_code(s@, q as int)]);
                    assert(others_from(s@, q as int).0
                        == seq![token_code(s@, q as int)] + others_from(s@, j + w).0);
                    assert(others_from(s@, q as int).1 == others_from(s@, j + w).1);
                    assert(codes0 + others_from(s@, q as int).0
                        =~= (codes0 + seq![token_code(s@, q as int)]) + others_from(s@, j + w).0);
                }
                q = j + w;
            },
            None => {
                break;
            },
        }
    }

    Some(HeaderMatch {
        cap_end: te,
        scope_start,
        scope_end,
        has_scope,
        breaking,
        codes,
        end: q,
    })
}

} // verus!
