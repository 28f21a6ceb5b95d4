use vstd::prelude::*;

verus! {

/// Appends one character to a string (`String::push`).
#[verifier::external_body]
pub(crate) fn push_char(s: &mut String, c: char)
    ensures
        final(s)@ == old(s)@.push(c),
{
    s.push(c);
}

/// The character with the given scalar value (`char::from_u32`), when there is one.
#[verifier::external_body]
pub(crate) fn char_from_scalar(v: u32) -> (r: Option<char>)
    ensures
        r is Some <==> (v < 0xD800 || (0xE000 <= v && v <= 0x10FFFF)),
        r matches Some(c) ==> c as u32 == v,
{
    char::from_u32(v)
}

/// The characters of a string slice, in order.
pub fn chars_of(s: &str) -> (out: Vec<char>)
    ensures
        out@ == s@,
{
    let mut out: Vec<char> = Vec::new();
    for c in it: s.chars()
        invariant
            out@ == it.seq().take(it.index() as int),
            it.seq() == s@,
    {
        out.push(c);
    }
    out
}

/// Builds a string from a sequence of characters.
pub fn string_of(cs: &[char]) -> (out: String)
    ensures
        out@ == cs@,
{
    let mut out = String::new();
    for i in 0..cs.len()
        invariant
            out@ == cs@.take(i as int),
    {
        push_char(&mut out, cs[i]);
        assert(cs@.take(i + 1) == cs@.take(i as int).push(cs@[i as int]));
    }
    assert(cs@.take(cs@.len() as int) == cs@);
    out
}

/// The characters from position `from` up to, not including, `to`.
pub fn sub_chars(cs: &[char], from: usize, to: usize) -> (out: Vec<char>)
    requires
        from <= to <= cs@.len(),
    ensures
        out@ == cs@.subrange(from as int, to as int),
{
    let mut out: Vec<char> = Vec::new();
    for k in from..to
        invariant
            to <= cs@.len(),
            out@ == cs@.subrange(from as int, k as int),
    {
        out.push(cs[k]);
        assert(cs@.subrange(from as int, k + 1) == cs@.subrange(from as int, k as int).push(
            cs@[k as int],
        ));
    }
    out
}

/// Appends a string slice to a string.
pub fn append_str(out: &mut String, s: &str)
    ensures
        final(out)@ == old(out)@ + s@,
{
    let cs = chars_of(s);
    let ghost start = out@;
    for i in 0..cs.len()
        invariant
            cs@ == s@,
            out@ == start + cs@.take(i as int),
    {
        push_char(out, cs[i]);
        assert(cs@.take(i + 1) == cs@.take(i as int).push(cs@[i as int]));
    }
    assert(cs@.take(cs@.len() as int) == cs@);
}

/// Whether two character sequences are equal.
pub fn chars_equal(a: &[char], b: &[char]) -> (r: bool)
    ensures
        r == (a@ == b@),
{
    if a.len() != b.len() {
        return false;
    }
    for i in 0..a.len()
        invariant
            a@.len() == b@.len(),
            forall|j: int| 0 <= j < i ==> a@[j] == b@[j],
    {
        if a[i] != b[i] {
            return false;
        }
    }
    assert(a@ == b@);
    true
}

/// Whether two string slices hold the same characters.
pub fn str_equal(a: &str, b: &str) -> (r: bool)
    ensures
        r == (a@ == b@),
{
    let ca = chars_of(a);
    let cb = chars_of(b);
    chars_equal(ca.as_slice(), cb.as_slice())
}

// ---------------------------------------------------------------------------
// Whitespace, as `char::is_whitespace` defines it (the Unicode White_Space property).

pub open spec fn is_unicode_whitespace(c: char) -> bool {
    let v = c as u32;
    ||| 0x09 <= v <= 0x0D
    ||| v == 0x20
    ||| v == 0x85
    ||| v == 0xA0
    ||| v == 0x1680
    ||| 0x2000 <= v <= 0x200A
    ||| v == 0x2028
    ||| v == 0x2029
    ||| v == 0x202F
    ||| v == 0x205F
    ||| v == 0x3000
}

pub fn is_whitespace(c: char) -> (b: bool)
    ensures
        b == is_unicode_whitespace(c),
{
    let v = c as u32;
    (0x09 <= v && v <= 0x0D) || v == 0x20 || v == 0x85 || v == 0xA0 || v == 0x1680 || (0x2000
        <= v && v <= 0x200A) || v == 0x2028 || v == 0x2029 || v == 0x202F || v == 0x205F || v
        == 0x3000
}

/// A text that trimming leaves empty: every character is whitespace.
pub open spec fn is_blank_spec(s: Seq<char>) -> bool {
    forall|i: int| 0 <= i < s.len() ==> is_unicode_whitespace(#[trigger] s[i])
}

/// Whether `s.trim()` is empty.
pub fn is_blank(s: &str) -> (b: bool)
    ensures
        b == is_blank_spec(s@),
{
    let cs = chars_of(s);
    for i in 0..cs.len()
        invariant
            cs@ == s@,
            forall|j: int| 0 <= j < i ==> is_unicode_whitespace(#[trigger] cs@[j]),
    {
        if !is_whitespace(cs[i]) {
            return false;
        }
    }
    true
}

pub open spec fn trim_start_spec(s: Seq<char>) -> Seq<char>
    decreases s.len(),
{
    if s.len() > 0 && is_unicode_whitespace(s[0]) {
        trim_start_spec(s.skip(1))
    } else {
        s
    }
}

pub open spec fn trim_end_spec(s: Seq<char>) -> Seq<char>
    decreases s.len(),
{
    if s.len() > 0 && is_unicode_whitespace(s.last()) {
        trim_end_spec(s.drop_last())
    } else {
        s
    }
}

/// `str::trim`: the text without leading and trailing whitespace.
pub open spec fn trim_spec(s: Seq<char>) -> Seq<char> {
    trim_end_spec(trim_start_spec(s))
}

/// `str::trim`.
pub fn trim(s: &str) -> (out: String)
    ensures
        out@ == trim_spec(s@),
{
    let cs = chars_of(s);
    let n = cs.len();
    let mut i: usize = 0;
    assert(s@.subrange(0, n as int) == s@);
    while i < n && is_whitespace(cs[i])
        invariant
            cs@ == s@,
            n == cs@.len(),
            i <= n,
            trim_start_spec(s@) == trim_start_spec(s@.subrange(i as int, n as int)),
        decreases n - i,
    {
        assert(s@.subrange(i as int, n as int).skip(1) == s@.subrange(i + 1, n as int));
        i = i + 1;
    }
    let mut j: usize = n;
    while j > i && is_whitespace(cs[j - 1])
        invariant
            cs@ == s@,
            n == cs@.len(),
            i <= j <= n,
            trim_spec(s@) == trim_end_spec(s@.subrange(i as int, j as int)),
        decreases j - i,
    {
        assert(s@.subrange(i as int, j as int).drop_last() == s@.subrange(i as int, j - 1));
        j = j - 1;
    }
    string_of(&cs.as_slice()[i..j])
}

/// `str::trim_end_matches` with one character.
pub open spec fn trim_end_char_spec(s: Seq<char>, c: char) -> Seq<char>
    decreases s.len(),
{
    if s.len() > 0 && s.last() == c {
        trim_end_char_spec(s.drop_last(), c)
    } else {
        s
    }
}

pub fn trim_end_char(cs: &[char], c: char) -> (out: Vec<char>)
    ensures
        out@ == trim_end_char_spec(cs@, c),
{
    let mut j = cs.len();
    assert(cs@.take(j as int) == cs@);
    while j > 0 && cs[j - 1] == c
        invariant
            j <= cs@.len(),
            trim_end_char_spec(cs@, c) == trim_end_char_spec(cs@.take(j as int), c),
        decreases j,
    {
        assert(cs@.take(j as int).drop_last() == cs@.take(j - 1));
        j = j - 1;
    }
    let mut out: Vec<char> = Vec::new();
    for k in 0..j
        invariant
            j <= cs@.len(),
            out@ == cs@.take(k as int),
    {
        out.push(cs[k]);
        assert(cs@.take(k + 1) == cs@.take(k as int).push(cs@[k as int]));
    }
    out
}

// ---------------------------------------------------------------------------
// ASCII case folding, as `eq_ignore_ascii_case` compares.

pub open spec fn ascii_lower_code(c: char) -> u32 {
    let v = c as u32;
    if 0x41 <= v <= 0x5A {
        (v + 0x20) as u32
    } else {
        v
    }
}

pub open spec fn eq_ignore_ascii_case_spec(a: Seq<char>, b: Seq<char>) -> bool {
    &&& a.len() == b.len()
    &&& forall|i: int| 0 <= i < a.len() ==> ascii_lower_code(#[trigger] a[i]) == ascii_lower_code(b[i])
}

fn lower_code(c: char) -> (v: u32)
    ensures
        v == ascii_lower_code(c),
{
    let v = c as u32;
    if 0x41 <= v && v <= 0x5A {
        v + 0x20
    } else {
        v
    }
}

/// Two characters that are equal once ASCII letters are folded: the same character, or
/// the upper and lower case of one ASCII letter.
pub open spec fn same_ignoring_ascii_case(c: char, d: char) -> bool {
    ||| c == d
    ||| (0x41 <= (c as u32) <= 0x5A && (d as u32) == (c as u32) + 32)
    ||| (0x41 <= (d as u32) <= 0x5A && (c as u32) == (d as u32) + 32)
}

/// Two texts are equal ignoring ASCII case exactly when they have the same length and,
/// at each position, the same character or the two cases of one ASCII letter.
pub proof fn lemma_eq_ignore_ascii_case(a: Seq<char>, b: Seq<char>)
    ensures
        eq_ignore_ascii_case_spec(a, b) <==> (a.len() == b.len() && forall|i: int|
            0 <= i < a.len() ==> same_ignoring_ascii_case(#[trigger] a[i], b[i])),
{
    if a.len() == b.len() {
        assert forall|i: int| 0 <= i < a.len() implies (ascii_lower_code(#[trigger] a[i])
            == ascii_lower_code(b[i]) <==> same_ignoring_ascii_case(a[i], b[i])) by {
            let c = a[i];
            let d = b[i];
            vstd::utf8::char_u32_cast(c, c as u32);
            vstd::utf8::char_u32_cast(d, d as u32);
        }
    }
}

/// `str::eq_ignore_ascii_case`.
pub fn eq_ignore_ascii_case(a: &str, b: &str) -> (r: bool)
    ensures
        r == eq_ignore_ascii_case_spec(a@, b@),
{
    let ca = chars_of(a);
    let cb = chars_of(b);
    if ca.len() != cb.len() {
        return false;
    }
    for i in 0..ca.len()
        invariant
            ca@ == a@,
            cb@ == b@,
            ca@.len() == cb@.len(),
            forall|j: int| 0 <= j < i ==> ascii_lower_code(#[trigger] a@[j]) == ascii_lower_code(b@[j]),
    {
        if lower_code(ca[i]) != lower_code(cb[i]) {
            return false;
        }
    }
    true
}

// ---------------------------------------------------------------------------
// `str::replace` with a non-empty pattern: leftmost, non-overlapping matches.

pub open spec fn replace_spec(s: Seq<char>, pat: Seq<char>, rep: Seq<char>) -> Seq<char>
    decreases s.len(),
{
    if s.len() == 0 || pat.len() == 0 {
        s
    } else if s.len() >= pat.len() && s.take(pat.len() as int) == pat {
        rep + replace_spec(s.skip(pat.len() as int), pat, rep)
    } else {
        seq![s[0]] + replace_spec(s.skip(1), pat, rep)
    }
}

/// Whether `pat` occurs in `text` at position `i`.
fn occurs_at(text: &[char], i: usize, pat: &[char]) -> (r: bool)
    requires
        i <= text@.len(),
    ensures
        r == (i + pat@.len() <= text@.len() && text@.subrange(i as int, i + pat@.len()) == pat@),
{
    if pat.len() > text.len() - i {
        return false;
    }
    for k in 0..pat.len()
        invariant
            i <= text@.len(),
            i + pat@.len() <= text@.len(),
            forall|j: int| 0 <= j < k ==> text@[i + j] == pat@[j],
    {
        assert(k < pat@.len());
        assert(i + k < text.len());
        if text[i + k] != pat[k] {
            assert(text@.subrange(i as int, i + pat@.len())[k as int] != pat@[k as int]);
            return false;
        }
    }
    assert(text@.subrange(i as int, i + pat@.len()) == pat@);
    true
}

/// Replaces every occurrence of `pat` in `text` by `rep`, scanning left to right.
pub fn replace_all(text: &[char], pat: &[char], rep: &[char]) -> (out: Vec<char>)
    requires
        pat@.len() > 0,
    ensures
        out@ == replace_spec(text@, pat@, rep@),
{
    let n = text.len();
    let m = pat.len();
    let mut out: Vec<char> = Vec::new();
    let mut i: usize = 0;
    assert(text@.skip(0) == text@);
    assert(out@ + text@ == text@) by { assert(out@.len() == 0); }
    assert(out@ + replace_spec(text@, pat@, rep@) == replace_spec(text@, pat@, rep@));
    while i < n
        invariant
            n == text@.len(),
            m == pat@.len(),
            m > 0,
            i <= n,
            replace_spec(text@, pat@, rep@) == out@ + replace_spec(text@.skip(i as int), pat@, rep@),
        decreases n - i,
    {
        let ghost rest = text@.skip(i as int);
        if occurs_at(text, i, pat) {
            assert(rest.take(m as int) == text@.subrange(i as int, i + m));
            assert(rest.skip(m as int) == text@.skip(i + m));
            let ghost before = out@;
            for k in 0..rep.len()
                invariant
                    out@ == before + rep@.take(k as int),
            {
                out.push(rep[k]);
                assert(rep@.take(k + 1) == rep@.take(k as int).push(rep@[k as int]));
            }
            assert(rep@.take(rep@.len() as int) == rep@);
            assert(before + (rep@ + replace_spec(rest.skip(m as int), pat@, rep@)) == out@
                + replace_spec(rest.skip(m as int), pat@, rep@));
            i = i + m;
        } else {
            assert(!(rest.len() >= m && rest.take(m as int) == pat@)) by {
                if rest.len() >= m {
                    assert(rest.take(m as int) == text@.subrange(i as int, i + m));
                }
            }
            assert(rest.skip(1) == text@.skip(i + 1));
            assert(rest[0] == text@[i as int]);
            let ghost before = out@;
            out.push(text[i]);
            assert(before + (seq![rest[0]] + replace_spec(rest.skip(1), pat@, rep@)) == out@
                + replace_spec(rest.skip(1), pat@, rep@));
            i = i + 1;
        }
    }
    assert(text@.skip(n as int).len() == 0);
    assert(out@ + replace_spec(text@.skip(n as int), pat@, rep@) == out@);
    out
}

} // verus!
