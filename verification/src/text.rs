//! Character classes and small string utilities shared by the resolver,
//! the header matcher and the linter.

use vstd::prelude::*;

verus! {

/// The variation selector that may trail an emoji glyph (U+FE0F).
pub const VARIATION_SELECTOR: char = '\u{fe0f}';

/// Characters allowed inside a `:shortcode:` token.
pub open spec fn is_code_char(c: char) -> bool {
    ('a' as u32 <= c as u32 && c as u32 <= 'z' as u32)
    || ('A' as u32 <= c as u32 && c as u32 <= 'Z' as u32)
    || ('0' as u32 <= c as u32 && c as u32 <= '9' as u32)
    || c == '_' || c == '+' || c == '-'
}

/// ASCII whitespace, the classes the header grammar treats as spaces.
pub open spec fn is_space_char(c: char) -> bool {
    c == ' ' || c == '\t' || c == '\n' || c == '\r' || c == '\u{b}' || c == '\u{c}'
}

/// An ASCII letter, upper or lower case.
pub open spec fn is_letter_char(c: char) -> bool {
    ('a' as u32 <= c as u32 && c as u32 <= 'z' as u32)
    || ('A' as u32 <= c as u32 && c as u32 <= 'Z' as u32)
}

/// Characters allowed in a commit type or scope after its first letter.
pub open spec fn is_ident_char(c: char) -> bool {
    is_letter_char(c) || ('0' as u32 <= c as u32 && c as u32 <= '9' as u32) || c == '-'
}

pub fn code_char(c: char) -> (b: bool)
    ensures
        b == is_code_char(c),
{
    let u = c as u32;
    ('a' as u32 <= u && u <= 'z' as u32)
    || ('A' as u32 <= u && u <= 'Z' as u32)
    || ('0' as u32 <= u && u <= '9' as u32)
    || c == '_' || c == '+' || c == '-'
}

pub fn space_char(c: char) -> (b: bool)
    ensures
        b == is_space_char(c),
{
    c == ' ' || c == '\t' || c == '\n' || c == '\r' || c == '\u{b}' || c == '\u{c}'
}

pub fn letter_char(c: char) -> (b: bool)
    ensures
        b == is_letter_char(c),
{
    let u = c as u32;
    ('a' as u32 <= u && u <= 'z' as u32) || ('A' as u32 <= u && u <= 'Z' as u32)
}

pub fn ident_char(c: char) -> (b: bool)
    ensures
        b == is_ident_char(c),
{
    let u = c as u32;
    letter_char(c) || ('0' as u32 <= u && u <= '9' as u32) || c == '-'
}

/// The characters of `s`, in order, as a vector.
pub fn chars_of(s: &str) -> (v: Vec<char>)
    ensures
        v@ == s@,
{
    let n = s.unicode_len();
    let mut v: Vec<char> = Vec::new();
    let mut i: usize = 0;
    while i < n
        invariant
            i <= n,
            n == s@.len(),
            v@ == s@.subrange(0, i as int),
        decreases n - i,
    {
        v.push(s.get_char(i));
        assert(v@ =~= s@.subrange(0, i + 1 as int));
        i = i + 1;
    }
    assert(v@ =~= s@);
    v
}

/// Relies on `String: FromIterator<char>`: collecting characters yields
/// the string holding exactly those characters in order.
#[verifier::external_body]
pub fn string_from_chars(v: &Vec<char>) -> (s: String)
    ensures
        s@ == v@,
{
    v.iter().collect()
}

/// Whether `s` equals the characters of `v` between `from` and `to`.
pub fn str_eq_range(s: &str, v: &Vec<char>, from: usize, to: usize) -> (b: bool)
    requires
        from <= to,
        to <= v@.len(),
    ensures
        b == (s@ == v@.subrange(from as int, to as int)),
{
    let ghost sub = v@.subrange(from as int, to as int);
    let n = s.unicode_len();
    if n != to - from {
        assert(s@.len() != sub.len());
        return false;
    }
    let mut i: usize = 0;
    while i < n
        invariant
            i <= n,
            n == s@.len(),
            n == to - from,
            from <= to,
            to <= v@.len(),
            sub == v@.subrange(from as int, to as int),
            forall|j: int| 0 <= j < i ==> s@[j] == sub[j],
        decreases n - i,
    {
        let c = s.get_char(i);
        if c != v[from + i] {
            assert(s@[i as int] != sub[i as int]);
            return false;
        }
        i += 1;
    }
    proof {
        assert(s@ =~= sub);
    }
    true
}

/// Appends the characters of `s` to `out`.
pub fn append_str(out: &mut Vec<char>, s: &str)
    ensures
        final(out)@ == old(out)@ + s@,
{
    let n = s.unicode_len();
    let mut i: usize = 0;
    while i < n
        invariant
            i <= n,
            n == s@.len(),
            out@ == old(out)@ + s@.subrange(0, i as int),
        decreases n - i,
    {
        out.push(s.get_char(i));
        assert(out@ =~= old(out)@ + s@.subrange(0, i + 1 as int));
        i += 1;
    }
    assert(out@ =~= old(out)@ + s@);
}

/// Appends the characters of `v` between `from` and `to` to `out`.
pub fn append_range(out: &mut Vec<char>, v: &Vec<char>, from: usize, to: usize)
    requires
        from <= to,
        to <= v@.len(),
    ensures
        final(out)@ == old(out)@ + v@.subrange(from as int, to as int),
{
    let mut i: usize = from;
    while i < to
        invariant
            from <= i <= to,
            to <= v@.len(),
            out@ == old(out)@ + v@.subrange(from as int, i as int),
        decreases to - i,
    {
        out.push(v[i]);
        assert(out@ =~= old(out)@ + v@.subrange(from as int, i + 1 as int));
        i += 1;
    }
}

/// The characters of `v` between `from` and `to`, as a new vector.
pub fn vec_range(v: &Vec<char>, from: usize, to: usize) -> (r: Vec<char>)
    requires
        from <= to,
        to <= v@.len(),
    ensures
        r@ == v@.subrange(from as int, to as int),
{
    let mut r: Vec<char> = Vec::new();
    append_range(&mut r, v, from, to);
    assert(r@ =~= v@.subrange(from as int, to as int));
    r
}

/// Whether the literal `p` occurs in `v` starting at position `i`.
pub open spec fn prefix_at(s: Seq<char>, i: int, p: Seq<char>) -> bool {
    0 <= i && i + p.len() <= s.len() && s.subrange(i, i + p.len()) == p
}

pub fn starts_with_at(v: &Vec<char>, i: usize, p: &str) -> (b: bool)
    requires
        i <= v@.len(),
    ensures
        b == prefix_at(v@, i as int, p@),
{
    let n = p.unicode_len();
    if n > v.len() - i {
        return false;
    }
    let r = str_eq_range(p, v, i, i + n);
    r
}

} // verus!
