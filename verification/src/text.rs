//! Text as the contracts store and compare it: unsigned decimal numbers, ASCII
//! lower case, and equality of text.
use vstd::prelude::*;

verus! {

/// A decimal digit.
pub open spec fn is_digit(c: char) -> bool {
    '0' <= c && c <= '9'
}

/// The number that a decimal digit stands for.
pub open spec fn digit_value(c: char) -> nat {
    ((c as int) - ('0' as int)) as nat
}

/// The digit that stands for a number below ten.
pub open spec fn digit_char(d: nat) -> char {
    ((('0' as int) + d) as u32) as char
}

/// The number that a string of decimal digits stands for.
pub open spec fn digits_value(s: Seq<char>) -> nat
    decreases s.len(),
{
    if s.len() == 0 {
        0
    } else {
        digits_value(s.drop_last()) * 10 + digit_value(s.last())
    }
}

pub open spec fn all_digits(s: Seq<char>) -> bool {
    forall|i: int| 0 <= i < s.len() ==> is_digit(#[trigger] s[i])
}

/// The digits of an unsigned number's text: one leading `+` is allowed.
pub open spec fn unsigned_digits(s: Seq<char>) -> Seq<char> {
    if s.len() > 0 && s[0] == '+' {
        s.drop_first()
    } else {
        s
    }
}

/// Whether the text writes an unsigned number: an optional `+`, then one or more digits.
pub open spec fn is_unsigned_text(s: Seq<char>) -> bool {
    let d = unsigned_digits(s);
    d.len() > 0 && all_digits(d)
}

/// The number that an unsigned number's text stands for.
pub open spec fn unsigned_value(s: Seq<char>) -> nat {
    digits_value(unsigned_digits(s))
}

/// Whether the text parses as a number no greater than `max`.
pub open spec fn parses_within(s: Seq<char>, max: nat) -> bool {
    is_unsigned_text(s) && unsigned_value(s) <= max
}

/// Whether the text parses as a `u128`.
pub open spec fn parses_as_u128(s: Seq<char>) -> bool {
    parses_within(s, u128::MAX as nat)
}

/// Whether the text parses as a `u64`.
pub open spec fn parses_as_u64(s: Seq<char>) -> bool {
    parses_within(s, u64::MAX as nat)
}

/// The decimal text of a number: no sign, no leading zeros, `0` for zero.
pub open spec fn decimal_text(n: nat) -> Seq<char>
    decreases n,
{
    if n < 10 {
        seq![digit_char(n)]
    } else {
        decimal_text(n / 10).push(digit_char(n % 10))
    }
}

/// ASCII upper-case letters become lower case; every other character stays.
pub open spec fn ascii_lower_char(c: char) -> char {
    if 'A' <= c && c <= 'Z' {
        (((c as int) + 32) as u32) as char
    } else {
        c
    }
}

/// The text with its ASCII letters in lower case.
pub open spec fn ascii_lower(s: Seq<char>) -> Seq<char> {
    s.map_values(|c: char| ascii_lower_char(c))
}

proof fn lemma_digit_char(d: nat)
    requires
        d < 10,
    ensures
        is_digit(digit_char(d)),
        digit_value(digit_char(d)) == d,
        digit_char(d) != '+',
{
}

proof fn lemma_digits_prefix_le(s: Seq<char>, k: int)
    requires
        0 <= k <= s.len(),
    ensures
        digits_value(s.subrange(0, k)) <= digits_value(s),
    decreases s.len(),
{
    if k < s.len() {
        assert(s.drop_last().subrange(0, k) =~= s.subrange(0, k));
        lemma_digits_prefix_le(s.drop_last(), k);
    } else {
        assert(s.subrange(0, k) =~= s);
    }
}

proof fn lemma_decimal_text(n: nat)
    ensures
        decimal_text(n).len() > 0,
        all_digits(decimal_text(n)),
        decimal_text(n)[0] != '+',
        digits_value(decimal_text(n)) == n,
    decreases n,
{
    if n < 10 {
        lemma_digit_char(n);
        let t = decimal_text(n);
        assert(t.drop_last() =~= Seq::<char>::empty());
        assert(t.last() == digit_char(n));
        assert(digits_value(t) == digits_value(t.drop_last()) * 10 + digit_value(t.last()));
    } else {
        lemma_decimal_text(n / 10);
        lemma_digit_char(n % 10);
        let t = decimal_text(n);
        assert(t.drop_last() =~= decimal_text(n / 10));
        assert(t.last() == digit_char(n % 10));
        assert(t[0] == decimal_text(n / 10)[0]);
        assert(digits_value(t) == digits_value(t.drop_last()) * 10 + digit_value(t.last()));
        assert((n / 10) * 10 + n % 10 == n);
        assert forall|j: int| 0 <= j < t.len() implies is_digit(#[trigger] t[j]) by {
            if j < t.len() - 1 {
                assert(t[j] == decimal_text(n / 10)[j]);
            }
        }
    }
}

/// Reading back the decimal text of a number gives the number.
pub proof fn lemma_decimal_roundtrip(n: nat)
    ensures
        is_unsigned_text(decimal_text(n)),
        unsigned_value(decimal_text(n)) == n,
{
    lemma_decimal_text(n);
}

/// Lower-casing twice is lower-casing once.
pub proof fn lemma_ascii_lower_idempotent(s: Seq<char>)
    ensures
        ascii_lower(ascii_lower(s)) == ascii_lower(s),
{
    assert(ascii_lower(ascii_lower(s)) =~= ascii_lower(s));
}

/// Whether two pieces of text are the same.
pub fn same_text(a: &str, b: &str) -> (r: bool)
    ensures
        r == (a@ == b@),
{
    let n = a.unicode_len();
    if n != b.unicode_len() {
        return false;
    }
    let mut i: usize = 0;
    while i < n
        invariant
            n == a@.len(),
            n == b@.len(),
            i <= n,
            forall|j: int| 0 <= j < i ==> a@[j] == b@[j],
        decreases n - i,
    {
        if a.get_char(i) != b.get_char(i) {
            return false;
        }
        i = i + 1;
    }
    assert(a@ =~= b@);
    true
}

/// Reads an unsigned decimal number no greater than `max`; `None` where the text
/// is no such number.
fn parse_unsigned(s: &str, max: u128) -> (r: Option<u128>)
    requires
        max >= 9,
    ensures
        match r {
            Some(v) => parses_within(s@, max as nat) && v == unsigned_value(s@),
            None => !parses_within(s@, max as nat),
        },
{
    let n = s.unicode_len();
    let mut start: usize = 0;
    if n > 0 && s.get_char(0) == '+' {
        start = 1;
    }
    let ghost d = unsigned_digits(s@);
    assert(d =~= s@.subrange(start as int, n as int));
    if start == n {
        return None;
    }
    let mut acc: u128 = 0;
    let mut i: usize = start;
    while i < n
        invariant
            n == s@.len(),
            start <= i <= n,
            d == s@.subrange(start as int, n as int),
            d == unsigned_digits(s@),
            max >= 9,
            acc as nat == digits_value(d.subrange(0, i - start)),
            acc <= max,
            all_digits(d.subrange(0, i - start)),
        decreases n - i,
    {
        let c = s.get_char(i);
        if !('0' <= c && c <= '9') {
            assert(d[i - start] == c);
            return None;
        }
        let dv: u128 = (c as u32 - '0' as u32) as u128;
        let ghost pre = d.subrange(0, i - start);
        let ghost next = d.subrange(0, i + 1 - start);
        assert(next.drop_last() =~= pre);
        assert(next.last() == c);
        if acc > (max - dv) / 10 {
            proof {
                assert(acc * 10 + dv > max) by (nonlinear_arith)
                    requires
                        acc > (max - dv) / 10,
                        dv <= max,
                ;
                if all_digits(d) {
                    lemma_digits_prefix_le(d, i + 1 - start);
                }
            }
            return None;
        }
        assert(acc * 10 + dv <= max) by (nonlinear_arith)
            requires
                acc <= (max - dv) / 10,
                dv <= max,
        ;
        acc = acc * 10 + dv;
        i = i + 1;
        assert(all_digits(next)) by {
            assert forall|j: int| 0 <= j < next.len() implies is_digit(#[trigger] next[j]) by {
                if j < pre.len() {
                    assert(next[j] == pre[j]);
                }
            }
        }
    }
    assert(d.subrange(0, n - start) =~= d);
    Some(acc)
}

/// Reads a `u128` written in decimal, with an optional leading `+`; `None` where
/// the text is not such a number or the number does not fit.
pub fn try_parse_u128(source: &str) -> (r: Option<u128>)
    ensures
        match r {
            Some(v) => parses_as_u128(source@) && v == unsigned_value(source@),
            None => !parses_as_u128(source@),
        },
{
    parse_unsigned(source, u128::MAX)
}

/// Reads a `u64` written in decimal, with an optional leading `+`; `None` where
/// the text is not such a number or the number does not fit.
pub fn try_parse_u64(source: &str) -> (r: Option<u64>)
    ensures
        match r {
            Some(v) => parses_as_u64(source@) && v == unsigned_value(source@),
            None => !parses_as_u64(source@),
        },
{
    match parse_unsigned(source, u64::MAX as u128) {
        Some(v) => Some(v as u64),
        None => None,
    }
}

/// The `u128` that the text writes in decimal.
pub fn parse_u128(source: &str) -> (r: u128)
    requires
        parses_as_u128(source@),
    ensures
        r == unsigned_value(source@),
{
    match parse_unsigned(source, u128::MAX) {
        Some(v) => v,
        None => 0,
    }
}

fn digit_text(d: u128) -> (t: &'static str)
    requires
        d < 10,
    ensures
        t@ == seq![digit_char(d as nat)],
{
    let digits = "0123456789";
    proof {
        reveal_strlit("0123456789");
    }
    let t = digits.substring_char(d as usize, d as usize + 1);
    assert(t@ =~= seq![digit_char(d as nat)]);
    t
}

/// The decimal text of a number.
pub fn u128_to_text(n: u128) -> (t: String)
    ensures
        t@ == decimal_text(n as nat),
    decreases n,
{
    if n < 10 {
        String::from_str(digit_text(n))
    } else {
        let mut t = u128_to_text(n / 10);
        t.append(digit_text(n % 10));
        t
    }
}

fn lower_letter_text(c: char) -> (t: &'static str)
    requires
        'A' <= c && c <= 'Z',
    ensures
        t@ == seq![ascii_lower_char(c)],
{
    let letters = "abcdefghijklmnopqrstuvwxyz";
    proof {
        reveal_strlit("abcdefghijklmnopqrstuvwxyz");
    }
    let k = (c as u32 - 'A' as u32) as usize;
    let t = letters.substring_char(k, k + 1);
    assert(t@ =~= seq![ascii_lower_char(c)]);
    t
}

/// The text with its ASCII letters in lower case.
pub fn addr_to_lower(addr: &str) -> (t: String)
    ensures
        t@ == ascii_lower(addr@),
{
    let n = addr.unicode_len();
    let mut t = String::new();
    let mut i: usize = 0;
    while i < n
        invariant
            n == addr@.len(),
            i <= n,
            t@ == ascii_lower(addr@.subrange(0, i as int)),
        decreases n - i,
    {
        let c = addr.get_char(i);
        if 'A' <= c && c <= 'Z' {
            t.append(lower_letter_text(c));
        } else {
            let one = addr.substring_char(i, i + 1);
            assert(one@ =~= seq![c]);
            t.append(one);
        }
        assert(ascii_lower(addr@.subrange(0, i + 1)) =~= ascii_lower(addr@.subrange(0, i as int))
            + seq![ascii_lower_char(c)]);
        i = i + 1;
    }
    assert(addr@.subrange(0, n as int) =~= addr@);
    t
}

/// A copy of a list of texts.
pub fn copy_texts(v: &Vec<String>) -> (r: Vec<String>)
    ensures
        r@ == v@,
{
    let n = v.len();
    let mut r: Vec<String> = Vec::new();
    let mut i: usize = 0;
    while i < n
        invariant
            n == v@.len(),
            i <= n,
            r@ == v@.subrange(0, i as int),
        decreases n - i,
    {
        r.push(v[i].clone());
        proof {
            assert(r@ =~= v@.subrange(0, i + 1));
        }
        i = i + 1;
    }
    proof {
        assert(r@ =~= v@);
    }
    r
}

} // verus!
