use vstd::prelude::*;
use crate::text::push_char;

verus! {

/// The lowercase hexadecimal digits, in order of value.
pub open spec fn hex_digits() -> Seq<char> {
    seq!['0', '1', '2', '3', '4', '5', '6', '7', '8', '9', 'a', 'b', 'c', 'd', 'e', 'f']
}

/// The ASCII digit for a value below ten.
pub open spec fn digit_char(d: nat) -> char {
    hex_digits()[d as int]
}

/// The lowercase hexadecimal digit for a value below sixteen.
pub open spec fn hex_digit_char(d: nat) -> char {
    hex_digits()[d as int]
}

proof fn lemma_digit_char_value(d: nat)
    requires
        d < 10,
    ensures
        is_ascii_digit(digit_char(d)),
        digit_value(digit_char(d)) == d,
        digit_char(d) != '+',
{
    assert(hex_digits()[0] == '0');
    assert(hex_digits()[1] == '1');
    assert(hex_digits()[2] == '2');
    assert(hex_digits()[3] == '3');
    assert(hex_digits()[4] == '4');
    assert(hex_digits()[5] == '5');
    assert(hex_digits()[6] == '6');
    assert(hex_digits()[7] == '7');
    assert(hex_digits()[8] == '8');
    assert(hex_digits()[9] == '9');
}

/// The decimal representation of a number, as `to_string` writes it.
pub open spec fn decimal_spec(n: nat) -> Seq<char>
    decreases n,
{
    if n < 10 {
        seq![digit_char(n)]
    } else {
        decimal_spec(n / 10).push(digit_char(n % 10))
    }
}

/// `{:04x}` of a 16-bit value: four lowercase hexadecimal digits.
pub open spec fn hex4_spec(v: u16) -> Seq<char> {
    seq![
        hex_digit_char((v / 4096) as nat),
        hex_digit_char(((v / 256) % 16) as nat),
        hex_digit_char(((v / 16) % 16) as nat),
        hex_digit_char((v % 16) as nat),
    ]
}

fn hex_digit(d: u16) -> (c: char)
    requires
        d < 16,
    ensures
        c == hex_digit_char(d as nat),
{
    match d {
        0 => '0',
        1 => '1',
        2 => '2',
        3 => '3',
        4 => '4',
        5 => '5',
        6 => '6',
        7 => '7',
        8 => '8',
        9 => '9',
        10 => 'a',
        11 => 'b',
        12 => 'c',
        13 => 'd',
        14 => 'e',
        _ => 'f',
    }
}

/// Appends the decimal representation of `n`.
pub fn push_decimal(out: &mut String, n: u64)
    ensures
        final(out)@ == old(out)@ + decimal_spec(n as nat),
    decreases n,
{
    if n >= 10 {
        push_decimal(out, n / 10);
    }
    push_char(out, hex_digit((n % 10) as u16));
}

/// `u64::to_string`.
pub fn decimal(n: u64) -> (out: String)
    ensures
        out@ == decimal_spec(n as nat),
{
    let mut out = String::new();
    push_decimal(&mut out, n);
    out
}

/// Appends `{:04x}` of `v`.
pub fn push_hex4(out: &mut String, v: u16)
    ensures
        final(out)@ == old(out)@ + hex4_spec(v),
{
    let ghost start = out@;
    push_char(out, hex_digit(v / 4096));
    push_char(out, hex_digit((v / 256) % 16));
    push_char(out, hex_digit((v / 16) % 16));
    push_char(out, hex_digit(v % 16));
    assert(out@ == start + hex4_spec(v));
}

// ---------------------------------------------------------------------------
// `str::parse` for unsigned integers: an optional `+`, then one or more ASCII digits,
// whose value fits the type.

pub open spec fn is_ascii_digit(c: char) -> bool {
    48 <= c as u32 <= 57
}

pub open spec fn digit_value(c: char) -> nat {
    (c as u32 - 48) as nat
}

pub open spec fn all_digits(s: Seq<char>) -> bool {
    forall|i: int| 0 <= i < s.len() ==> is_ascii_digit(#[trigger] s[i])
}

pub open spec fn digits_value(s: Seq<char>) -> nat
    decreases s.len(),
{
    if s.len() == 0 {
        0
    } else {
        digits_value(s.drop_last()) * 10 + digit_value(s.last())
    }
}

/// The digits after an optional leading `+`.
pub open spec fn unsigned_body(s: Seq<char>) -> Seq<char> {
    if s.len() > 0 && s[0] == '+' {
        s.skip(1)
    } else {
        s
    }
}

/// What `s.parse()` gives for an unsigned type whose largest value is `max`.
pub open spec fn parse_unsigned_spec(s: Seq<char>, max: nat) -> Option<nat> {
    let d = unsigned_body(s);
    if d.len() > 0 && all_digits(d) && digits_value(d) <= max {
        Some(digits_value(d))
    } else {
        None
    }
}

proof fn lemma_digits_value_prefix(s: Seq<char>, k: int)
    requires
        0 <= k <= s.len(),
        all_digits(s),
    ensures
        digits_value(s.take(k)) <= digits_value(s),
    decreases s.len(),
{
    if k < s.len() {
        assert(s.drop_last().take(k) == s.take(k));
        lemma_digits_value_prefix(s.drop_last(), k);
    } else {
        assert(s.take(k) == s);
    }
}

proof fn lemma_step_bound(acc: nat, d: nat, max: nat)
    requires
        d <= 9,
        d <= max,
    ensures
        acc > (max - d) / 10 ==> acc * 10 + d > max,
        acc <= (max - d) / 10 ==> acc * 10 + d <= max,
{
    assert(acc > (max - d) / 10 ==> acc * 10 + d > max) by (nonlinear_arith)
        requires
            d <= max,
    ;
    assert(acc <= (max - d) / 10 ==> acc * 10 + d <= max) by (nonlinear_arith)
        requires
            d <= max,
    ;
}

/// Parses an unsigned integer no greater than `max`, as `str::parse` does.
pub fn parse_unsigned(cs: &[char], max: u64) -> (r: Option<u64>)
    requires
        max >= 9,
    ensures
        r matches Some(v) ==> parse_unsigned_spec(cs@, max as nat) == Some(v as nat),
        r is None ==> parse_unsigned_spec(cs@, max as nat) is None,
{
    let n = cs.len();
    let start: usize = if n > 0 && cs[0] == '+' {
        1
    } else {
        0
    };
    let ghost body = unsigned_body(cs@);
    assert(body == cs@.subrange(start as int, n as int));
    if start == n {
        return None;
    }
    let mut acc: u64 = 0;
    for i in start..n
        invariant
            n == cs@.len(),
            start < n,
            body == cs@.subrange(start as int, n as int),
            body == unsigned_body(cs@),
            acc as nat == digits_value(cs@.subrange(start as int, i as int)),
            acc <= max,
            max >= 9,
            all_digits(cs@.subrange(start as int, i as int)),
    {
        let ghost prefix = cs@.subrange(start as int, i + 1);
        assert(prefix.drop_last() == cs@.subrange(start as int, i as int));
        assert(prefix.last() == cs@[i as int]);
        let v = cs[i] as u32;
        if v < 48 || v > 57 {
            assert(body[i - start] == cs@[i as int]);
            assert(!is_ascii_digit(body[i - start]));
            assert(!all_digits(body));
            return None;
        }
        let d = (v - 48) as u64;
        proof {
            lemma_step_bound(acc as nat, d as nat, max as nat);
        }
        if acc > (max - d) / 10 {
            proof {
                if all_digits(body) {
                    assert(body.take(i + 1 - start) == prefix);
                    lemma_digits_value_prefix(body, i + 1 - start);
                }
            }
            return None;
        }
        acc = acc * 10 + d;
        assert(all_digits(prefix));
    }
    assert(cs@.subrange(start as int, n as int) == body);
    Some(acc)
}

/// `str::parse::<u32>`.
pub fn parse_u32(s: &[char]) -> (r: Option<u32>)
    ensures
        r matches Some(v) ==> parse_unsigned_spec(s@, u32::MAX as nat) == Some(v as nat),
        r is None ==> parse_unsigned_spec(s@, u32::MAX as nat) is None,
{
    match parse_unsigned(s, u32::MAX as u64) {
        Some(v) => Some(v as u32),
        None => None,
    }
}

/// `str::parse::<u64>`.
pub fn parse_u64(s: &[char]) -> (r: Option<u64>)
    ensures
        r matches Some(v) ==> parse_unsigned_spec(s@, u64::MAX as nat) == Some(v as nat),
        r is None ==> parse_unsigned_spec(s@, u64::MAX as nat) is None,
{
    parse_unsigned(s, u64::MAX)
}

/// The decimal text of a number is all digits, starts with a digit, and reads back as the number.
pub proof fn lemma_decimal_digits(n: nat)
    ensures
        decimal_spec(n).len() > 0,
        all_digits(decimal_spec(n)),
        digits_value(decimal_spec(n)) == n,
        decimal_spec(n)[0] != '+',
    decreases n,
{
    lemma_digit_char_value(n % 10);
    if n >= 10 {
        lemma_decimal_digits(n / 10);
        let s = decimal_spec(n);
        assert(s.drop_last() == decimal_spec(n / 10));
        assert(s.last() == digit_char(n % 10));
        assert(digits_value(s) == digits_value(s.drop_last()) * 10 + digit_value(s.last()));
        assert(n == (n / 10) * 10 + n % 10);
        assert(s[0] == decimal_spec(n / 10)[0]);
        assert forall|i: int| 0 <= i < s.len() implies is_ascii_digit(#[trigger] s[i]) by {
            if i < s.len() - 1 {
                assert(s[i] == decimal_spec(n / 10)[i]);
            }
        }
    } else {
        let s = decimal_spec(n);
        assert(s.drop_last().len() == 0);
        assert(digits_value(s) == digits_value(s.drop_last()) * 10 + digit_value(s.last()));
    }
}

/// Parsing the decimal text of any value of the type gives the value back.
pub proof fn lemma_parse_decimal(n: nat, max: nat)
    requires
        n <= max,
    ensures
        parse_unsigned_spec(decimal_spec(n), max) == Some(n),
{
    lemma_decimal_digits(n);
}

} // verus!
