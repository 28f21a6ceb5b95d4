use vstd::prelude::*;
use crate::text::{append_str, chars_equal, chars_of, string_of, sub_chars};

verus! {

broadcast use vstd::seq_lib::to_multiset_insert;

/// The folder, beside the executable, that holds the profiles.
pub open spec fn profiles_dir_spec() -> Seq<char> {
    "profiles"@
}

/// The folder, beside the executable, that holds the profiles: "profiles".
pub fn profiles_dir() -> (r: &'static str)
    ensures
        r@ == profiles_dir_spec(),
{
    "profiles"
}

/// The file that holds a profile: its name with ".json" after it.
pub fn profile_file_name(name: &str) -> (r: String)
    ensures
        r@ == name@ + ".json"@,
{
    let mut r = name.to_owned();
    append_str(&mut r, ".json");
    r
}

// ---------------------------------------------------------------------------
// Names of the saved profiles.

/// The position of the last '.' in a file name.
pub open spec fn last_dot(s: Seq<char>) -> Option<int>
    decreases s.len(),
{
    if s.len() == 0 {
        None
    } else if s.last() == '.' {
        Some(s.len() - 1)
    } else {
        last_dot(s.drop_last())
    }
}

/// The profile that a file name holds: the stem of a file whose extension is "json"
/// (a name that starts with its only dot, such as ".json", has no extension).
pub open spec fn json_stem_spec(name: Seq<char>) -> Option<Seq<char>> {
    match last_dot(name) {
        Some(p) => if p > 0 && name.skip(p + 1) == "json"@ {
            Some(name.take(p))
        } else {
            None
        },
        None => None,
    }
}

/// Characters after the last dot move it by nothing: the last dot of a text followed by
/// characters that are no dot is the last dot of the text.
proof fn lemma_last_dot_suffix(x: Seq<char>, y: Seq<char>)
    requires
        forall|i: int| 0 <= i < y.len() ==> y[i] != '.',
    ensures
        last_dot(x + y) == last_dot(x),
    decreases y.len(),
{
    if y.len() > 0 {
        assert((x + y).last() == y.last());
        assert((x + y).drop_last() == x + y.drop_last());
        lemma_last_dot_suffix(x, y.drop_last());
    } else {
        assert(x + y == x);
    }
}

/// The file of a profile holds that profile: the stem of `NAME.json` is NAME, for every
/// name that is not empty.
pub proof fn lemma_profile_file_stem(name: Seq<char>)
    requires
        name.len() > 0,
    ensures
        json_stem_spec(name + ".json"@) == Some(name),
{
    reveal_strlit(".json");
    reveal_strlit("json");
    let dotted = name.push('.');
    let j = "json"@;
    assert(name + ".json"@ == dotted + j);
    assert(dotted.drop_last() == name);
    assert(last_dot(dotted) == Some(name.len() as int));
    lemma_last_dot_suffix(dotted, j);
    assert((dotted + j).skip(name.len() + 1int) == j);
    assert((dotted + j).take(name.len() as int) == name);
}

/// The stems of the JSON files among the file names, in order.
pub open spec fn json_stems(names: Seq<Seq<char>>) -> Seq<Seq<char>>
    decreases names.len(),
{
    if names.len() == 0 {
        seq![]
    } else {
        match json_stem_spec(names.last()) {
            Some(stem) => json_stems(names.drop_last()).push(stem),
            None => json_stems(names.drop_last()),
        }
    }
}

/// The profile name of a file, when it is a JSON file.
pub fn json_stem(name: &str) -> (r: Option<String>)
    ensures
        r matches Some(s) ==> json_stem_spec(name@) == Some(s@),
        r is None ==> json_stem_spec(name@) is None,
{
    let cs = chars_of(name);
    let n = cs.len();
    let mut j = n;
    assert(cs@.take(n as int) == cs@);
    while j > 0 && cs[j - 1] != '.'
        invariant
            cs@ == name@,
            n == cs@.len(),
            j <= n,
            last_dot(name@) == last_dot(cs@.take(j as int)),
        decreases j,
    {
        assert(cs@.take(j as int).drop_last() == cs@.take(j - 1));
        j = j - 1;
    }
    if j <= 1 {
        return None;
    }
    let p = j - 1;
    assert(last_dot(name@) == Some(p as int));
    let ext = sub_chars(cs.as_slice(), p + 1, n);
    let json = chars_of("json");
    assert(ext@ == name@.skip(p + 1));
    if !chars_equal(ext.as_slice(), json.as_slice()) {
        return None;
    }
    let stem = sub_chars(cs.as_slice(), 0, p);
    assert(stem@ == name@.take(p as int));
    Some(string_of(stem.as_slice()))
}

// ---------------------------------------------------------------------------
// The order of `String`: lexicographic by code point.

/// `a <= b` in the order of `String` (byte order of UTF-8, that is code point order).
pub open spec fn lex_le(a: Seq<char>, b: Seq<char>) -> bool
    decreases a.len(),
{
    if a.len() == 0 {
        true
    } else if b.len() == 0 {
        false
    } else if a[0] != b[0] {
        (a[0] as u32) < (b[0] as u32)
    } else {
        lex_le(a.skip(1), b.skip(1))
    }
}

/// Every text in the sequence is at most each one after it.
pub open spec fn is_sorted_texts(s: Seq<Seq<char>>) -> bool {
    forall|i: int, j: int| 0 <= i < j < s.len() ==> lex_le(#[trigger] s[i], #[trigger] s[j])
}

/// Any two texts are ordered one way or the other.
pub proof fn lemma_lex_total(a: Seq<char>, b: Seq<char>)
    ensures
        lex_le(a, b) || lex_le(b, a),
    decreases a.len(),
{
    if a.len() > 0 && b.len() > 0 {
        if a[0] != b[0] {
            if (a[0] as u32) == (b[0] as u32) {
                vstd::utf8::char_u32_cast(a[0], a[0] as u32);
                vstd::utf8::char_u32_cast(b[0], b[0] as u32);
            }
        } else {
            lemma_lex_total(a.skip(1), b.skip(1));
        }
    }
}

/// The order is transitive.
pub proof fn lemma_lex_transitive(a: Seq<char>, b: Seq<char>, c: Seq<char>)
    requires
        lex_le(a, b),
        lex_le(b, c),
    ensures
        lex_le(a, c),
    decreases a.len(),
{
    if a.len() > 0 && b.len() > 0 && c.len() > 0 {
        if a[0] == b[0] && b[0] == c[0] {
            lemma_lex_transitive(a.skip(1), b.skip(1), c.skip(1));
        } else if a[0] != c[0] {
            if (a[0] as u32) == (c[0] as u32) {
                vstd::utf8::char_u32_cast(a[0], a[0] as u32);
                vstd::utf8::char_u32_cast(c[0], c[0] as u32);
            }
        } else {
            if (a[0] as u32) == (b[0] as u32) {
                vstd::utf8::char_u32_cast(a[0], a[0] as u32);
                vstd::utf8::char_u32_cast(b[0], b[0] as u32);
            }
        }
    }
}

/// A text comes no later than every text that it begins, and a text that goes on past
/// another that it begins comes strictly after it.
pub proof fn lemma_lex_prefix(a: Seq<char>, b: Seq<char>)
    ensures
        lex_le(a, a + b),
        b.len() > 0 ==> !lex_le(a + b, a),
    decreases a.len(),
{
    if a.len() > 0 {
        assert((a + b)[0] == a[0]);
        assert((a + b).skip(1) == a.skip(1) + b);
        lemma_lex_prefix(a.skip(1), b);
    }
}

/// Two texts each at most the other are the same text.
pub proof fn lemma_lex_antisymmetric(a: Seq<char>, b: Seq<char>)
    requires
        lex_le(a, b),
        lex_le(b, a),
    ensures
        a == b,
    decreases a.len(),
{
    if a.len() > 0 {
        if a[0] != b[0] {
            assert(false);
        } else {
            lemma_lex_antisymmetric(a.skip(1), b.skip(1));
            assert(a =~= seq![a[0]] + a.skip(1));
            assert(b =~= seq![b[0]] + b.skip(1));
        }
    }
}

/// Two texts that agree up to position `k` and differ there are ordered by the code
/// points at `k`.
pub proof fn lemma_lex_first_difference(a: Seq<char>, b: Seq<char>, k: int)
    requires
        0 <= k < a.len(),
        k < b.len(),
        a.take(k) == b.take(k),
        a[k] != b[k],
    ensures
        lex_le(a, b) <==> (a[k] as u32) < (b[k] as u32),
    decreases k,
{
    if k > 0 {
        assert(a[0] == a.take(k)[0]);
        assert(b[0] == b.take(k)[0]);
        assert(a.skip(1).take(k - 1) =~= a.take(k).skip(1));
        assert(b.skip(1).take(k - 1) =~= b.take(k).skip(1));
        lemma_lex_first_difference(a.skip(1), b.skip(1), k - 1);
    }
}

/// In a list sorted in the order of `String`, a text stands before every longer text
/// that it begins.
pub proof fn lemma_sorted_prefix_first(s: Seq<Seq<char>>, i: int, j: int, rest: Seq<char>)
    requires
        is_sorted_texts(s),
        0 <= i < s.len(),
        0 <= j < s.len(),
        s[j] == s[i] + rest,
        rest.len() > 0,
    ensures
        i < j,
{
    lemma_lex_prefix(s[i], rest);
    if j < i {
        assert(lex_le(s[j], s[i]));
    }
}

/// `a <= b` in the order of `String`.
pub fn text_le(a: &[char], b: &[char]) -> (r: bool)
    ensures
        r == lex_le(a@, b@),
{
    let mut i: usize = 0;
    assert(a@.skip(0) == a@);
    assert(b@.skip(0) == b@);
    while i < a.len() && i < b.len() && a[i] == b[i]
        invariant
            i <= a@.len(),
            i <= b@.len(),
            lex_le(a@, b@) == lex_le(a@.skip(i as int), b@.skip(i as int)),
        decreases a@.len() - i,
    {
        assert(a@.skip(i as int).skip(1) == a@.skip(i + 1));
        assert(b@.skip(i as int).skip(1) == b@.skip(i + 1));
        i = i + 1;
    }
    if i == a.len() {
        assert(a@.skip(i as int).len() == 0);
        return true;
    }
    if i == b.len() {
        assert(b@.skip(i as int).len() == 0);
        return false;
    }
    assert(a@.skip(i as int)[0] == a@[i as int]);
    assert(b@.skip(i as int)[0] == b@[i as int]);
    (a[i] as u32) < (b[i] as u32)
}

/// The views of a list of strings.
pub open spec fn texts(v: Seq<String>) -> Seq<Seq<char>> {
    v.map_values(|s: String| s@)
}

/// Inserts `x` into a sorted list, after the entries it is not below.
fn insert_sorted(out: &mut Vec<String>, x: String)
    requires
        is_sorted_texts(texts(old(out)@)),
    ensures
        is_sorted_texts(texts(final(out)@)),
        texts(final(out)@).to_multiset() == texts(old(out)@).to_multiset().insert(x@),
{
    let xs = chars_of(x.as_str());
    let mut k: usize = 0;
    while k < out.len() && text_le(chars_of(out[k].as_str()).as_slice(), xs.as_slice())
        invariant
            k <= out@.len(),
            xs@ == x@,
            out@ == old(out)@,
            forall|i: int| 0 <= i < k ==> lex_le(#[trigger] texts(out@)[i], x@),
        decreases out@.len() - k,
    {
        k = k + 1;
    }
    let ghost before = texts(out@);
    proof {
        if k < before.len() {
            lemma_lex_total(before[k as int], x@);
        }
    }
    out.insert(k, x);
    assert(texts(out@) == before.insert(k as int, x@));
    assert forall|i: int, j: int| 0 <= i < j < texts(out@).len() implies lex_le(
        #[trigger] texts(out@)[i],
        #[trigger] texts(out@)[j],
    ) by {
        let s = texts(out@);
        if j < k {
            assert(s[i] == before[i] && s[j] == before[j]);
        } else if j == k {
            assert(s[i] == before[i]);
        } else if i == k {
            assert(s[j] == before[j - 1]);
            if j - 1 > k {
                lemma_lex_transitive(x@, before[k as int], before[j - 1]);
            }
        } else if i < k {
            assert(s[i] == before[i] && s[j] == before[j - 1]);
            lemma_lex_transitive(before[i], x@, before[k as int]);
            if j - 1 > k {
                lemma_lex_transitive(before[i], before[k as int], before[j - 1]);
            }
        } else {
            assert(s[i] == before[i - 1] && s[j] == before[j - 1]);
        }
    }
}

/// The saved profiles among the files of the profiles folder, in the order of `String`.
pub fn profile_names(file_names: &[String]) -> (r: Vec<String>)
    ensures
        is_sorted_texts(texts(r@)),
        texts(r@).to_multiset() == json_stems(texts(file_names@)).to_multiset(),
{
    let mut out: Vec<String> = Vec::new();
    assert(texts(file_names@).take(0).len() == 0);
    assert(texts(out@) == json_stems(texts(file_names@).take(0)));
    for i in 0..file_names.len()
        invariant
            is_sorted_texts(texts(out@)),
            texts(out@).to_multiset() == json_stems(texts(file_names@).take(i as int)).to_multiset(),
    {
        let ghost names = texts(file_names@);
        assert(names.take(i + 1).drop_last() == names.take(i as int));
        assert(names.take(i + 1).last() == file_names@[i as int]@);
        match json_stem(file_names[i].as_str()) {
            Some(stem) => {
                insert_sorted(&mut out, stem);
                proof {
                    vstd::seq_lib::to_multiset_build(json_stems(names.take(i as int)), stem@);
                }
            },
            None => {},
        }
    }
    assert(texts(file_names@).take(file_names@.len() as int) == texts(file_names@));
    out
}

/// The names, one per line (`join("\n")`).
pub open spec fn join_lines_spec(names: Seq<Seq<char>>) -> Seq<char>
    decreases names.len(),
{
    if names.len() == 0 {
        seq![]
    } else if names.len() == 1 {
        names[0]
    } else {
        join_lines_spec(names.drop_last()) + seq!['\n'] + names.last()
    }
}

/// The names, one per line.
pub fn join_lines(names: &[String]) -> (r: String)
    ensures
        r@ == join_lines_spec(texts(names@)),
{
    let mut r = String::new();
    for i in 0..names.len()
        invariant
            r@ == join_lines_spec(texts(names@).take(i as int)),
    {
        let ghost all = texts(names@);
        assert(all.take(i + 1).drop_last() == all.take(i as int));
        assert(all.take(i + 1).last() == names@[i as int]@);
        if i > 0 {
            crate::text::push_char(&mut r, '\n');
        } else {
            assert(r@ == Seq::<char>::empty());
        }
        append_str(&mut r, names[i].as_str());
    }
    assert(texts(names@).take(names@.len() as int) == texts(names@));
    r
}

/// A message followed, on a line of its own, by a warning.
pub fn with_warning(message: &str, warning: &str) -> (r: String)
    ensures
        r@ == message@ + seq!['\n'] + warning@,
{
    let mut r = message.to_owned();
    crate::text::push_char(&mut r, '\n');
    append_str(&mut r, warning);
    r
}

} // verus!
