//! Small operations on text that the rest of the library shares.

use vstd::prelude::*;
use vstd::utf8::{decode_utf8, encode_utf8, encode_utf8_decode_utf8, valid_utf8};

verus! {

/// Whether the two texts hold the same characters.
pub fn same_text(a: &str, b: &str) -> (r: bool)
    ensures
        r == (a@ == b@),
{
    let x = a.as_bytes();
    let y = b.as_bytes();
    proof {
        encode_utf8_decode_utf8(a@);
        encode_utf8_decode_utf8(b@);
    }
    if x.len() != y.len() {
        return false;
    }
    let mut i: usize = 0;
    while i < x.len()
        invariant
            i <= x.len(),
            x.len() == y.len(),
            x@ == encode_utf8(a@),
            y@ == encode_utf8(b@),
            forall|j: int| 0 <= j < i ==> x@[j] == y@[j],
        decreases x.len() - i,
    {
        if x[i] != y[i] {
            return false;
        }
        i += 1;
    }
    assert(x@ =~= y@);
    true
}

/// The character of the decimal digit `d`.
pub open spec fn digit_char(d: nat) -> char
    recommends
        d < 10,
{
    ((48 + d) as u8) as char
}

/// The decimal digits of `n`, most significant first, with no leading zero
/// but for `n == 0`.
pub open spec fn decimal_digits(n: nat) -> Seq<char>
    decreases n,
{
    if n < 10 {
        seq![digit_char(n)]
    } else {
        decimal_digits(n / 10).push(digit_char(n % 10))
    }
}

/// The characters of decimal digits that stand least significant first.
pub open spec fn digits_text(digits: Seq<u8>) -> Seq<char> {
    Seq::new(digits.len(), |i: int| digit_char(digits[digits.len() - 1 - i] as nat))
}

/// The text of one decimal digit.
fn digit_text(d: u8) -> (r: &'static str)
    requires
        d < 10,
    ensures
        r@ == seq![digit_char(d as nat)],
{
    proof {
        reveal_strlit("0");
        reveal_strlit("1");
        reveal_strlit("2");
        reveal_strlit("3");
        reveal_strlit("4");
        reveal_strlit("5");
        reveal_strlit("6");
        reveal_strlit("7");
        reveal_strlit("8");
        reveal_strlit("9");
    }
    let r = if d == 0 {
        "0"
    } else if d == 1 {
        "1"
    } else if d == 2 {
        "2"
    } else if d == 3 {
        "3"
    } else if d == 4 {
        "4"
    } else if d == 5 {
        "5"
    } else if d == 6 {
        "6"
    } else if d == 7 {
        "7"
    } else if d == 8 {
        "8"
    } else {
        "9"
    };
    assert(r@ =~= seq![digit_char(d as nat)]);
    r
}

/// The number in decimal digits.
pub fn u128_to_text(n: u128) -> (r: String)
    ensures
        r@ == decimal_digits(n as nat),
{
    let mut digits: Vec<u8> = Vec::new();
    let mut rest: u128 = n;
    assert(decimal_digits(rest as nat) + digits_text(digits@) =~= decimal_digits(n as nat));
    while rest >= 10
        invariant
            decimal_digits(rest as nat) + digits_text(digits@) == decimal_digits(n as nat),
            forall|i: int| 0 <= i < digits@.len() ==> digits@[i] < 10,
        decreases rest,
    {
        let ghost before = digits@;
        let d: u8 = (rest % 10) as u8;
        digits.push(d);
        assert(digits_text(digits@) =~= seq![digit_char(d as nat)] + digits_text(before));
        assert(decimal_digits(rest as nat) == decimal_digits((rest / 10) as nat).push(
            digit_char(d as nat),
        ));
        assert(decimal_digits((rest / 10) as nat).push(digit_char(d as nat)) + digits_text(before)
            =~= decimal_digits((rest / 10) as nat) + digits_text(digits@));
        rest = rest / 10;
    }
    let ghost before = digits@;
    digits.push(rest as u8);
    assert(digits_text(digits@) =~= seq![digit_char(rest as nat)] + digits_text(before));
    assert(decimal_digits(rest as nat) =~= seq![digit_char(rest as nat)]);
    let ghost all = digits_text(digits@);
    let mut out = String::new();
    let mut i: usize = digits.len();
    assert(all.take(0) =~= Seq::<char>::empty());
    while i > 0
        invariant
            i <= digits@.len(),
            all == digits_text(digits@),
            forall|k: int| 0 <= k < digits@.len() ==> digits@[k] < 10,
            out@ == all.take(digits@.len() - i),
        decreases i,
    {
        i -= 1;
        out.append(digit_text(digits[i]));
        assert(all.take(digits@.len() - i) =~= all.take(digits@.len() - i - 1).push(
            digit_char(digits@[i as int] as nat),
        ));
    }
    assert(all.take(digits@.len() as int) =~= all);
    out
}

/// `s` with every occurrence of `pattern` taken out, found from the left and
/// never overlapping.
pub open spec fn without_pattern(s: Seq<char>, pattern: Seq<char>) -> Seq<char>
    decreases s.len(),
{
    if pattern.len() == 0 || s.len() < pattern.len() {
        s
    } else if pattern.is_prefix_of(s) {
        without_pattern(s.skip(pattern.len() as int), pattern)
    } else {
        seq![s[0]] + without_pattern(s.skip(1), pattern)
    }
}

/// Whether `pattern` stands in `s` at the place `at`.
fn stands_at(s: &str, len: usize, at: usize, pattern: &str, pattern_len: usize) -> (r: bool)
    requires
        len == s@.len(),
        pattern_len == pattern@.len(),
        at <= len,
    ensures
        r == pattern@.is_prefix_of(s@.skip(at as int)),
{
    if len - at < pattern_len {
        return false;
    }
    let mut i: usize = 0;
    while i < pattern_len
        invariant
            i <= pattern_len,
            pattern_len == pattern@.len(),
            len == s@.len(),
            at + pattern_len <= len,
            forall|j: int| 0 <= j < i ==> s@[at + j] == pattern@[j],
        decreases pattern_len - i,
    {
        if s.get_char(at + i) != pattern.get_char(i) {
            assert(s@.skip(at as int).subrange(0, pattern@.len() as int)[i as int] != pattern@[i as int]);
            return false;
        }
        i += 1;
    }
    assert(pattern@ =~= s@.skip(at as int).subrange(0, pattern@.len() as int));
    true
}

/// Whether `s` begins with `prefix`.
pub fn starts_with(s: &str, prefix: &str) -> (r: bool)
    ensures
        r == prefix@.is_prefix_of(s@),
{
    assert(s@.skip(0) =~= s@);
    stands_at(s, s.unicode_len(), 0, prefix, prefix.unicode_len())
}

/// Whether `s` begins with the character `c`.
pub fn starts_with_char(s: &str, c: char) -> (r: bool)
    ensures
        r == (s@.len() > 0 && s@[0] == c),
{
    s.unicode_len() > 0 && s.get_char(0) == c
}

/// `s` with every occurrence of `pattern` taken out.
pub fn remove_pattern(s: &str, pattern: &str) -> (r: String)
    ensures
        r@ == without_pattern(s@, pattern@),
{
    let len: usize = s.unicode_len();
    let pattern_len: usize = pattern.unicode_len();
    if pattern_len == 0 {
        return s.to_owned();
    }
    let mut out = String::new();
    let mut at: usize = 0;
    assert(s@.skip(0) =~= s@);
    while at < len
        invariant
            at <= len,
            len == s@.len(),
            pattern_len == pattern@.len(),
            pattern_len > 0,
            out@ + without_pattern(s@.skip(at as int), pattern@) == without_pattern(s@, pattern@),
        decreases len - at,
    {
        let ghost rest = s@.skip(at as int);
        if stands_at(s, len, at, pattern, pattern_len) {
            assert(rest.skip(pattern_len as int) =~= s@.skip(at + pattern_len));
            at += pattern_len;
        } else {
            let ghost before = out@;
            out.append(s.substring_char(at, at + 1));
            assert(rest.skip(1) =~= s@.skip(at + 1));
            assert(s@.subrange(at as int, at + 1) =~= seq![rest[0]]);
            if len - at < pattern_len {
                assert(without_pattern(rest, pattern@) == rest);
                assert(without_pattern(rest.skip(1), pattern@) == rest.skip(1)) by {
                    reveal_with_fuel(without_pattern, 1);
                }
                assert(rest =~= seq![rest[0]] + rest.skip(1));
            }
            assert(out@ + without_pattern(rest.skip(1), pattern@) =~= before + without_pattern(
                rest,
                pattern@,
            ));
            at += 1;
        }
    }
    assert(s@.skip(len as int) =~= Seq::<char>::empty());
    assert(out@ + Seq::<char>::empty() =~= out@);
    out
}

/// The texts of `parts` in a row, with `sep` between each two.
pub open spec fn joined(parts: Seq<Seq<char>>, sep: Seq<char>) -> Seq<char>
    decreases parts.len(),
{
    if parts.len() == 0 {
        Seq::empty()
    } else if parts.len() == 1 {
        parts[0]
    } else {
        joined(parts.drop_last(), sep) + sep + parts.last()
    }
}

/// The texts of `parts` in a row, with `sep` between each two.
pub fn join(parts: &Vec<String>, sep: &str) -> (r: String)
    ensures
        r@ == joined(parts@.map_values(|s: String| s@), sep@),
{
    let ghost texts = parts@.map_values(|s: String| s@);
    let mut out = String::new();
    let mut i: usize = 0;
    assert(texts.take(0) =~= Seq::<Seq<char>>::empty());
    while i < parts.len()
        invariant
            i <= parts.len(),
            texts == parts@.map_values(|s: String| s@),
            out@ == joined(texts.take(i as int), sep@),
        decreases parts.len() - i,
    {
        let ghost next = texts.take(i + 1);
        assert(next.drop_last() =~= texts.take(i as int));
        assert(next.last() == parts@[i as int]@);
        if i > 0 {
            out.append(sep);
        } else {
            assert(next[0] == parts@[0]@);
            assert(Seq::<char>::empty() + parts@[0]@ =~= parts@[0]@);
        }
        out.append(parts[i].as_str());
        i += 1;
    }
    assert(texts.take(i as int) =~= texts);
    out
}

/// `std::str::from_utf8`, copied into a `String`: bytes that are valid UTF-8
/// give the text that they encode, any other bytes give `None`.
#[verifier::external_body]
pub(crate) fn utf8_to_text(bytes: &Vec<u8>) -> (r: Option<String>)
    ensures
        r is Some == valid_utf8(bytes@),
        r matches Some(s) ==> s@ == decode_utf8(bytes@),
{
    match std::str::from_utf8(bytes) {
        Ok(s) => Some(s.to_owned()),
        Err(_) => None,
    }
}

/// The character `sep` stands in `s` at the place `i` and nowhere else.
pub open spec fn only_at(s: Seq<char>, sep: char, i: int) -> bool {
    &&& 0 <= i < s.len()
    &&& s[i] == sep
    &&& forall|j: int| 0 <= j < s.len() && j != i ==> s[j] != sep
}

/// The two parts of a text in which `sep` stands exactly once: what stands
/// before it and what stands behind it. `None` for a text in which `sep`
/// stands never or more than once.
pub open spec fn halves(s: Seq<char>, sep: char) -> Option<(Seq<char>, Seq<char>)> {
    if exists|i: int| only_at(s, sep, i) {
        let i = choose|i: int| only_at(s, sep, i);
        Some((s.take(i), s.skip(i + 1)))
    } else {
        None
    }
}

/// The two parts of a text in which `sep` stands exactly once.
pub fn split_in_two(s: &str, sep: char) -> (r: Option<(String, String)>)
    ensures
        r is Some == halves(s@, sep) is Some,
        r matches Some(parts) ==> halves(s@, sep) == Some((parts.0@, parts.1@)),
{
    let n: usize = s.unicode_len();
    let mut first: Option<usize> = None;
    let mut i: usize = 0;
    while i < n
        invariant
            i <= n,
            n == s@.len(),
            first is None ==> forall|j: int| 0 <= j < i ==> s@[j] != sep,
            first matches Some(k) ==> k < i && s@[k as int] == sep && forall|j: int|
                0 <= j < i && j != k ==> s@[j] != sep,
        decreases n - i,
    {
        if s.get_char(i) == sep {
            match first {
                Some(k) => {
                    assert forall|m: int| !only_at(s@, sep, m) by {
                        if only_at(s@, sep, m) {
                            assert(s@[k as int] == sep && s@[i as int] == sep);
                        }
                    }
                    return None;
                },
                None => {
                    first = Some(i);
                },
            }
        }
        i += 1;
    }
    match first {
        Some(k) => {
            assert(only_at(s@, sep, k as int));
            let ghost chosen = choose|m: int| only_at(s@, sep, m);
            assert(chosen == k);
            let head = s.substring_char(0, k).to_owned();
            let tail = s.substring_char(k + 1, n).to_owned();
            assert(s@.take(k as int) =~= s@.subrange(0, k as int));
            assert(s@.skip(k + 1) =~= s@.subrange(k + 1, n as int));
            Some((head, tail))
        },
        None => {
            assert forall|m: int| !only_at(s@, sep, m) by {}
            None
        },
    }
}

/// The four texts in a row.
pub fn chain(a: &str, b: &str, c: &str, d: &str) -> (r: String)
    ensures
        r@ == a@ + b@ + c@ + d@,
{
    let mut out = a.to_owned();
    out.append(b);
    out.append(c);
    out.append(d);
    out
}

} // verus!
