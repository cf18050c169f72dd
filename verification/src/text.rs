//! Character and string primitives shared by the matching logic: ASCII case
//! folding, substring and suffix tests, trimming, and decimal conversion.
//!
//! Case-insensitive comparison here folds the ASCII letters `A`..`Z` only;
//! other characters compare verbatim.

use vstd::prelude::*;

verus! {

/// `c` with an ASCII upper-case letter folded to lower case.
pub open spec fn lower_char(c: char) -> char {
    if 65 <= c as u32 && c as u32 <= 90 {
        ((c as u32 + 32) as u8) as char
    } else {
        c
    }
}

/// `s` folded character by character.
pub open spec fn lower_seq(s: Seq<char>) -> Seq<char> {
    s.map_values(|c: char| lower_char(c))
}

/// The code point of `lower_char(c)`.
fn lower_u32(c: char) -> (r: u32)
    ensures
        r == lower_char(c) as u32,
{
    let u = c as u32;
    if 65 <= u && u <= 90 {
        u + 32
    } else {
        u
    }
}

/// Whether `a` and `b` are the same character up to ASCII case.
fn chars_eq_ci(a: char, b: char) -> (r: bool)
    ensures
        r == (lower_char(a) == lower_char(b)),
{
    lower_u32(a) == lower_u32(b)
}

/// Whether two strings are equal up to ASCII case.
pub fn eq_ignore_case(a: &str, b: &str) -> (r: bool)
    ensures
        r == (lower_seq(a@) == lower_seq(b@)),
{
    let alen = a.unicode_len();
    let blen = b.unicode_len();
    if alen != blen {
        assert(lower_seq(a@).len() != lower_seq(b@).len());
        return false;
    }
    let mut i: usize = 0;
    while i < alen
        invariant
            i <= alen,
            alen == a@.len(),
            alen == b@.len(),
            forall|k: int| 0 <= k < i ==> lower_seq(a@)[k] == lower_seq(b@)[k],
        decreases alen - i,
    {
        if !chars_eq_ci(a.get_char(i), b.get_char(i)) {
            assert(lower_seq(a@)[i as int] != lower_seq(b@)[i as int]);
            return false;
        }
        i += 1;
    }
    assert(lower_seq(a@) =~= lower_seq(b@));
    true
}

/// Whether `needle` occurs in `hay` starting at index `k`.
pub open spec fn occurs_at(hay: Seq<char>, needle: Seq<char>, k: int) -> bool {
    0 <= k && k + needle.len() <= hay.len() && hay.subrange(k, k + needle.len()) == needle
}

/// Whether `needle` occurs somewhere in `hay`.
pub open spec fn contains_seq(hay: Seq<char>, needle: Seq<char>) -> bool {
    exists|k: int| occurs_at(hay, needle, k)
}

/// Whether `suffix` ends `s`.
pub open spec fn ends_with_seq(s: Seq<char>, suffix: Seq<char>) -> bool {
    s.len() >= suffix.len() && s.subrange(s.len() - suffix.len(), s.len() as int) == suffix
}

/// Whether `prefix` starts `s`.
pub open spec fn starts_with_seq(s: Seq<char>, prefix: Seq<char>) -> bool {
    s.len() >= prefix.len() && s.subrange(0, prefix.len() as int) == prefix
}

/// Whether the folded `needle` occurs at index `k` of the folded `hay`.
fn matches_at_ci(hay: &str, needle: &str, k: usize) -> (r: bool)
    requires
        k + needle@.len() <= hay@.len() <= usize::MAX,
    ensures
        r == occurs_at(lower_seq(hay@), lower_seq(needle@), k as int),
{
    let nlen = needle.unicode_len();
    let mut j: usize = 0;
    while j < nlen
        invariant
            j <= nlen,
            nlen == needle@.len(),
            k + nlen <= hay@.len() <= usize::MAX,
            forall|t: int| 0 <= t < j ==> lower_seq(hay@)[k + t] == lower_seq(needle@)[t],
        decreases nlen - j,
    {
        if !chars_eq_ci(hay.get_char(k + j), needle.get_char(j)) {
            assert(lower_seq(hay@)[k + j] != lower_seq(needle@)[j as int]);
            assert(!occurs_at(lower_seq(hay@), lower_seq(needle@), k as int)) by {
                let lh = lower_seq(hay@);
                let ln = lower_seq(needle@);
                if occurs_at(lh, ln, k as int) {
                    assert(lh.subrange(k as int, k + ln.len())[j as int] == ln[j as int]);
                }
            }
            return false;
        }
        j += 1;
    }
    assert(lower_seq(hay@).subrange(k as int, k + needle@.len()) =~= lower_seq(needle@));
    true
}

/// Whether `hay` contains `needle`, up to ASCII case.
pub fn contains_ignore_case(hay: &str, needle: &str) -> (r: bool)
    ensures
        r == contains_seq(lower_seq(hay@), lower_seq(needle@)),
{
    let hlen = hay.unicode_len();
    let nlen = needle.unicode_len();
    if nlen > hlen {
        assert(!contains_seq(lower_seq(hay@), lower_seq(needle@)));
        return false;
    }
    if nlen == 0 {
        assert(occurs_at(lower_seq(hay@), lower_seq(needle@), 0)) by {
            assert(lower_seq(hay@).subrange(0, 0) =~= lower_seq(needle@));
        }
        return true;
    }
    let mut k: usize = 0;
    while k <= hlen - nlen
        invariant
            hlen == hay@.len(),
            nlen == needle@.len(),
            0 < nlen <= hlen,
            k <= hlen - nlen + 1,
            forall|t: int| 0 <= t < k ==> !occurs_at(lower_seq(hay@), lower_seq(needle@), t),
        decreases hlen - nlen + 1 - k,
    {
        if matches_at_ci(hay, needle, k) {
            return true;
        }
        k += 1;
    }
    assert forall|t: int| !occurs_at(lower_seq(hay@), lower_seq(needle@), t) by {
        if occurs_at(lower_seq(hay@), lower_seq(needle@), t) {
            assert(0 <= t < k);
        }
    }
    false
}

/// Whether `hay` ends with `suffix`, up to ASCII case.
pub fn ends_with_ignore_case(hay: &str, suffix: &str) -> (r: bool)
    ensures
        r == ends_with_seq(lower_seq(hay@), lower_seq(suffix@)),
{
    let hlen = hay.unicode_len();
    let slen = suffix.unicode_len();
    if slen > hlen {
        return false;
    }
    let r = matches_at_ci(hay, suffix, hlen - slen);
    assert(occurs_at(lower_seq(hay@), lower_seq(suffix@), hlen - slen) == ends_with_seq(
        lower_seq(hay@),
        lower_seq(suffix@),
    ));
    r
}

/// Whether `needle` occurs in `hay` starting at index `k`, case-sensitively.
fn matches_at(hay: &str, needle: &str, k: usize) -> (r: bool)
    requires
        k + needle@.len() <= hay@.len() <= usize::MAX,
    ensures
        r == occurs_at(hay@, needle@, k as int),
{
    let nlen = needle.unicode_len();
    let mut j: usize = 0;
    while j < nlen
        invariant
            j <= nlen,
            nlen == needle@.len(),
            k + nlen <= hay@.len() <= usize::MAX,
            forall|t: int| 0 <= t < j ==> hay@[k + t] == needle@[t],
        decreases nlen - j,
    {
        if hay.get_char(k + j) != needle.get_char(j) {
            assert(!occurs_at(hay@, needle@, k as int)) by {
                if occurs_at(hay@, needle@, k as int) {
                    assert(hay@.subrange(k as int, k + needle@.len())[j as int] == needle@[j as int]);
                }
            }
            return false;
        }
        j += 1;
    }
    assert(hay@.subrange(k as int, k + needle@.len()) =~= needle@);
    true
}

/// Whether `hay` contains `needle`, case-sensitively.
pub fn contains_str(hay: &str, needle: &str) -> (r: bool)
    ensures
        r == contains_seq(hay@, needle@),
{
    let hlen = hay.unicode_len();
    let nlen = needle.unicode_len();
    if nlen > hlen {
        assert(!contains_seq(hay@, needle@));
        return false;
    }
    if nlen == 0 {
        assert(occurs_at(hay@, needle@, 0)) by {
            assert(hay@.subrange(0, 0) =~= needle@);
        }
        return true;
    }
    let mut k: usize = 0;
    while k <= hlen - nlen
        invariant
            hlen == hay@.len(),
            nlen == needle@.len(),
            0 < nlen <= hlen,
            k <= hlen - nlen + 1,
            forall|t: int| 0 <= t < k ==> !occurs_at(hay@, needle@, t),
        decreases hlen - nlen + 1 - k,
    {
        if matches_at(hay, needle, k) {
            return true;
        }
        k += 1;
    }
    assert forall|t: int| !occurs_at(hay@, needle@, t) by {
        if occurs_at(hay@, needle@, t) {
            assert(0 <= t < k);
        }
    }
    false
}

/// Whether `s` starts with `prefix`, case-sensitively.
pub fn starts_with_str(s: &str, prefix: &str) -> (r: bool)
    ensures
        r == starts_with_seq(s@, prefix@),
{
    let slen = s.unicode_len();
    let plen = prefix.unicode_len();
    if plen > slen {
        return false;
    }
    let r = matches_at(s, prefix, 0);
    assert(occurs_at(s@, prefix@, 0) == starts_with_seq(s@, prefix@));
    r
}

/// Whether `a` and `b` are the same string.
pub fn str_eq(a: &str, b: &str) -> (r: bool)
    ensures
        r == (a@ == b@),
{
    let alen = a.unicode_len();
    let blen = b.unicode_len();
    if alen != blen {
        return false;
    }
    let r = matches_at(a, b, 0);
    assert(occurs_at(a@, b@, 0) ==> a@ =~= b@);
    assert(a@ == b@ ==> occurs_at(a@, b@, 0)) by {
        if a@ == b@ {
            assert(a@.subrange(0, b@.len() as int) =~= b@);
        }
    }
    r
}

/// Whether `s` starts with `prefix`, up to ASCII case.
pub fn starts_with_ignore_case(s: &str, prefix: &str) -> (r: bool)
    ensures
        r == starts_with_seq(lower_seq(s@), lower_seq(prefix@)),
{
    let slen = s.unicode_len();
    let plen = prefix.unicode_len();
    if plen > slen {
        return false;
    }
    let r = matches_at_ci(s, prefix, 0);
    assert(occurs_at(lower_seq(s@), lower_seq(prefix@), 0) == starts_with_seq(
        lower_seq(s@),
        lower_seq(prefix@),
    ));
    r
}

/// An ASCII whitespace character.
pub open spec fn is_space(c: char) -> bool {
    c == ' ' || c == '\t' || c == '\n' || c == '\r'
}

/// `s` without its leading whitespace.
pub open spec fn trim_front(s: Seq<char>) -> Seq<char>
    decreases s.len(),
{
    if s.len() > 0 && is_space(s.first()) {
        trim_front(s.drop_first())
    } else {
        s
    }
}

/// `s` without its trailing whitespace.
pub open spec fn trim_back(s: Seq<char>) -> Seq<char>
    decreases s.len(),
{
    if s.len() > 0 && is_space(s.last()) {
        trim_back(s.drop_last())
    } else {
        s
    }
}

/// `s` without leading and trailing whitespace.
pub open spec fn trim_seq(s: Seq<char>) -> Seq<char> {
    trim_back(trim_front(s))
}

proof fn lemma_trim_front_skip(s: Seq<char>, j: int)
    requires
        0 <= j <= s.len(),
        forall|t: int| 0 <= t < j ==> is_space(s[t]),
        j < s.len() ==> !is_space(s[j]),
    ensures
        trim_front(s) == s.skip(j),
    decreases j,
{
    if j == 0 {
        assert(s.skip(0) =~= s);
    } else {
        assert(is_space(s.first()));
        lemma_trim_front_skip(s.drop_first(), j - 1);
        assert(s.drop_first().skip(j - 1) =~= s.skip(j));
    }
}

proof fn lemma_trim_back_take(s: Seq<char>, j: int)
    requires
        0 <= j <= s.len(),
        forall|t: int| j <= t < s.len() ==> is_space(s[t]),
        j > 0 ==> !is_space(s[j - 1]),
    ensures
        trim_back(s) == s.take(j),
    decreases s.len() - j,
{
    if j == s.len() {
        assert(s.take(j) =~= s);
    } else {
        assert(is_space(s.last()));
        lemma_trim_back_take(s.drop_last(), j);
        assert(s.drop_last().take(j) =~= s.take(j));
    }
}

/// `s` with ASCII whitespace removed from both ends.
pub fn trim_str(s: &str) -> (r: &str)
    ensures
        r@ == trim_seq(s@),
{
    let len = s.unicode_len();
    let mut a: usize = 0;
    while a < len && is_space_char(s.get_char(a))
        invariant
            a <= len,
            len == s@.len(),
            forall|t: int| 0 <= t < a ==> is_space(s@[t]),
        decreases len - a,
    {
        a += 1;
    }
    proof {
        lemma_trim_front_skip(s@, a as int);
    }
    let mut b: usize = len;
    while b > a && is_space_char(s.get_char(b - 1))
        invariant
            a <= b <= len,
            len == s@.len(),
            forall|t: int| 0 <= t < a ==> is_space(s@[t]),
            a < len ==> !is_space(s@[a as int]),
            forall|t: int| b <= t < len ==> is_space(s@[t]),
        decreases b,
    {
        b -= 1;
    }
    let r = s.substring_char(a, b);
    proof {
        let f = s@.skip(a as int);
        if b == a {
            lemma_trim_back_take(f, 0);
        } else {
            lemma_trim_back_take(f, b - a);
        }
        assert(f.take(b - a) =~= s@.subrange(a as int, b as int));
    }
    r
}

fn is_space_char(c: char) -> (r: bool)
    ensures
        r == is_space(c),
{
    c == ' ' || c == '\t' || c == '\n' || c == '\r'
}

/// A decimal digit character.
pub open spec fn is_dec_digit(c: char) -> bool {
    48 <= c as u32 <= 57
}

/// A nonempty, all-digit character sequence.
pub open spec fn all_digits(s: Seq<char>) -> bool {
    s.len() > 0 && forall|i: int| 0 <= i < s.len() ==> is_dec_digit(#[trigger] s[i])
}

/// The number that an all-digit sequence denotes.
pub open spec fn dec_value(s: Seq<char>) -> nat
    decreases s.len(),
{
    if s.len() == 0 {
        0
    } else {
        (dec_value(s.drop_last()) * 10 + (s.last() as u32 - 48)) as nat
    }
}

proof fn lemma_dec_value_take_step(s: Seq<char>, i: int)
    requires
        0 <= i < s.len(),
        is_dec_digit(s[i]),
    ensures
        dec_value(s.take(i + 1)) == dec_value(s.take(i)) * 10 + (s[i] as u32 - 48),
{
    assert(s.take(i + 1).drop_last() =~= s.take(i));
    assert(s.take(i + 1).last() == s[i]);
}

proof fn lemma_dec_value_grows(s: Seq<char>, i: int)
    requires
        0 <= i <= s.len(),
        forall|t: int| 0 <= t < s.len() ==> is_dec_digit(#[trigger] s[t]),
    ensures
        dec_value(s.take(i)) <= dec_value(s),
    decreases s.len() - i,
{
    if i == s.len() {
        assert(s.take(i) =~= s);
    } else {
        assert(is_dec_digit(s[i]));
        lemma_dec_value_take_step(s, i);
        lemma_dec_value_grows(s, i + 1);
    }
}

/// Parses a nonempty string of decimal digits; rejects anything else and
/// values that do not fit in `u64`.
pub fn parse_u64(s: &str) -> (r: Option<u64>)
    ensures
        match r {
            Some(v) => all_digits(s@) && v as nat == dec_value(s@),
            None => !all_digits(s@) || dec_value(s@) > u64::MAX,
        },
{
    let len = s.unicode_len();
    if len == 0 {
        return None;
    }
    let mut acc: u64 = 0;
    let mut i: usize = 0;
    while i < len
        invariant
            i <= len,
            len == s@.len(),
            0 < len,
            forall|t: int| 0 <= t < i ==> is_dec_digit(#[trigger] s@[t]),
            acc as nat == dec_value(s@.take(i as int)),
        decreases len - i,
    {
        let c = s.get_char(i);
        let u = c as u32;
        if u < 48 || u > 57 {
            return None;
        }
        let d = (u - 48) as u64;
        if acc > (u64::MAX - d) / 10 {
            proof {
                lemma_dec_value_take_step(s@, i as int);
                assert(acc * 10 + d > u64::MAX) by (nonlinear_arith)
                    requires
                        acc > (u64::MAX - d) / 10,
                        d <= 9,
                        acc <= u64::MAX,
                {}
                assert(dec_value(s@.take(i + 1)) > u64::MAX);
                if all_digits(s@) {
                    lemma_dec_value_grows(s@, i + 1);
                }
            }
            return None;
        }
        proof {
            lemma_dec_value_take_step(s@, i as int);
            assert(acc * 10 + d <= u64::MAX) by (nonlinear_arith)
                requires
                    acc <= (u64::MAX - d) / 10,
                    d <= 9,
                {}
        }
        acc = acc * 10 + d;
        i += 1;
    }
    proof {
        assert(s@.take(len as int) =~= s@);
    }
    Some(acc)
}

/// The decimal digit character for `d`.
pub open spec fn dec_digit_char(d: int) -> char {
    ((48 + d) as u8) as char
}

/// The decimal notation of `n`, most significant digit first.
pub open spec fn dec_seq(n: nat) -> Seq<char>
    decreases n,
{
    if n < 10 {
        seq![dec_digit_char(n as int)]
    } else {
        dec_seq(n / 10).push(dec_digit_char((n % 10) as int))
    }
}

fn digit_str(d: u64) -> (r: &'static str)
    requires
        d < 10,
    ensures
        r@ =~= seq![dec_digit_char(d as int)],
{
    proof {
        reveal_strlit("0");
        reveal_strlit("1");
        reveal_strlit("2");
        reveal_strlit("3");
        reveal_strlit("4");
        reveal_strlit("5");
        reveal_strlit("6");
        reveal_strlit("7");
        reveal_strlit("8");
        reveal_strlit("9");
    }
    if d == 0 {
        "0"
    } else if d == 1 {
        "1"
    } else if d == 2 {
        "2"
    } else if d == 3 {
        "3"
    } else if d == 4 {
        "4"
    } else if d == 5 {
        "5"
    } else if d == 6 {
        "6"
    } else if d == 7 {
        "7"
    } else {
        if d == 8 {
            "8"
        } else {
            "9"
        }
    }
}

/// `n` written in decimal.
pub fn u64_to_dec(n: u64) -> (r: String)
    ensures
        r@ == dec_seq(n as nat),
    decreases n,
{
    if n < 10 {
        let mut r = String::new();
        r.append(digit_str(n));
        assert(r@ =~= dec_seq(n as nat));
        r
    } else {
        let mut r = u64_to_dec(n / 10);
        r.append(digit_str(n % 10));
        assert(r@ =~= dec_seq(n as nat));
        r
    }
}

fn lower_letter(k: u32) -> (r: &'static str)
    requires
        k < 26,
    ensures
        r@ =~= seq![((97 + k) as u8) as char],
{
    proof {
        reveal_strlit("a");
        reveal_strlit("b");
        reveal_strlit("c");
        reveal_strlit("d");
        reveal_strlit("e");
        reveal_strlit("f");
        reveal_strlit("g");
        reveal_strlit("h");
        reveal_strlit("i");
        reveal_strlit("j");
        reveal_strlit("k");
        reveal_strlit("l");
        reveal_strlit("m");
        reveal_strlit("n");
        reveal_strlit("o");
        reveal_strlit("p");
        reveal_strlit("q");
        reveal_strlit("r");
        reveal_strlit("s");
        reveal_strlit("t");
        reveal_strlit("u");
        reveal_strlit("v");
        reveal_strlit("w");
        reveal_strlit("x");
        reveal_strlit("y");
        reveal_strlit("z");
    }
    if k == 0 {
        "a"
    } else if k == 1 {
        "b"
    } else if k == 2 {
        "c"
    } else if k == 3 {
        "d"
    } else if k == 4 {
        "e"
    } else if k == 5 {
        "f"
    } else if k == 6 {
        "g"
    } else if k == 7 {
        "h"
    } else if k == 8 {
        "i"
    } else if k == 9 {
        "j"
    } else if k == 10 {
        "k"
    } else if k == 11 {
        "l"
    } else if k == 12 {
        "m"
    } else if k == 13 {
        "n"
    } else if k == 14 {
        "o"
    } else if k == 15 {
        "p"
    } else if k == 16 {
        "q"
    } else if k == 17 {
        "r"
    } else if k == 18 {
        "s"
    } else if k == 19 {
        "t"
    } else if k == 20 {
        "u"
    } else if k == 21 {
        "v"
    } else if k == 22 {
        "w"
    } else if k == 23 {
        "x"
    } else if k == 24 {
        "y"
    } else {
        "z"
    }
}

/// `s` with its ASCII upper-case letters folded to lower case.
pub fn to_lowercase_ascii(s: &str) -> (r: String)
    ensures
        r@ == lower_seq(s@),
{
    let len = s.unicode_len();
    let mut out = String::new();
    let mut i: usize = 0;
    while i < len
        invariant
            i <= len,
            len == s@.len(),
            out@ == lower_seq(s@.take(i as int)),
        decreases len - i,
    {
        let c = s.get_char(i);
        let u = c as u32;
        if 65 <= u && u <= 90 {
            out.append(lower_letter(u - 65));
        } else {
            let piece = s.substring_char(i, i + 1);
            out.append(piece);
        }
        i += 1;
        proof {
            assert(out@ =~= lower_seq(s@.take(i as int)));
        }
    }
    proof {
        assert(s@.take(len as int) =~= s@);
    }
    out
}

/// Strict lexicographic order on character sequences, by code point; a
/// proper prefix comes first.
pub open spec fn lex_lt(a: Seq<char>, b: Seq<char>) -> bool
    decreases a.len(),
{
    if b.len() == 0 {
        false
    } else if a.len() == 0 {
        true
    } else if (a.first() as u32) < (b.first() as u32) {
        true
    } else if a.first() != b.first() {
        false
    } else {
        lex_lt(a.drop_first(), b.drop_first())
    }
}

/// Two sequences that agree on their first `i` characters compare as their
/// tails do.
proof fn lemma_lex_lt_common_prefix(a: Seq<char>, b: Seq<char>, i: int)
    requires
        0 <= i <= a.len(),
        i <= b.len(),
        forall|t: int| 0 <= t < i ==> a[t] == b[t],
    ensures
        lex_lt(a, b) == lex_lt(a.skip(i), b.skip(i)),
    decreases i,
{
    if i == 0 {
        assert(a.skip(0) =~= a);
        assert(b.skip(0) =~= b);
    } else {
        assert(a.first() == b.first());
        assert(a.first() as u32 == b.first() as u32);
        lemma_lex_lt_common_prefix(a.drop_first(), b.drop_first(), i - 1);
        assert(a.drop_first().skip(i - 1) =~= a.skip(i));
        assert(b.drop_first().skip(i - 1) =~= b.skip(i));
    }
}

/// Characters with the same code point are the same character.
proof fn lemma_char_code_injective(c: char, d: char)
    requires
        c as u32 == d as u32,
    ensures
        c == d,
{
}

/// Exactly one of `lex_lt(a, b)`, `lex_lt(b, a)` and `a == b` holds; in
/// particular the order is total.
pub proof fn lemma_lex_lt_trichotomy(a: Seq<char>, b: Seq<char>)
    ensures
        lex_lt(a, b) || lex_lt(b, a) || a == b,
        lex_lt(a, b) ==> !lex_lt(b, a) && a != b,
    decreases a.len(),
{
    if a.len() == 0 && b.len() == 0 {
        assert(a =~= b);
    } else if a.len() == 0 || b.len() == 0 {
    } else {
        lemma_lex_lt_trichotomy(a.drop_first(), b.drop_first());
        if a.first() as u32 == b.first() as u32 {
            lemma_char_code_injective(a.first(), b.first());
        }
        if a.first() == b.first() && a.drop_first() == b.drop_first() {
            assert forall|t: int| 0 <= t < a.len() implies a[t] == b[t] by {
                if t > 0 {
                    assert(a[t] == a.drop_first()[t - 1]);
                    assert(b[t] == b.drop_first()[t - 1]);
                }
            }
            assert(a =~= b);
        }
        if a == b {
            assert(a.first() == b.first());
            assert(a.drop_first() =~= b.drop_first());
        }
    }
}

/// The order is transitive.
pub proof fn lemma_lex_lt_transitive(a: Seq<char>, b: Seq<char>, c: Seq<char>)
    requires
        lex_lt(a, b),
        lex_lt(b, c),
    ensures
        lex_lt(a, c),
    decreases a.len(),
{
    if a.len() == 0 {
        assert(b.len() > 0);
        assert(c.len() > 0);
    } else {
        assert(b.len() > 0 && c.len() > 0);
        if a.first() == b.first() && b.first() == c.first() {
            lemma_lex_lt_transitive(a.drop_first(), b.drop_first(), c.drop_first());
        }
    }
}

/// Whether `a` comes strictly before `b` in lexicographic order.
pub fn str_lt(a: &str, b: &str) -> (r: bool)
    ensures
        r == lex_lt(a@, b@),
{
    let alen = a.unicode_len();
    let blen = b.unicode_len();
    let mut i: usize = 0;
    while i < alen && i < blen
        invariant
            i <= alen,
            i <= blen,
            alen == a@.len(),
            blen == b@.len(),
            forall|t: int| 0 <= t < i ==> a@[t] == b@[t],
        decreases alen - i,
    {
        let ca = a.get_char(i) as u32;
        let cb = b.get_char(i) as u32;
        if ca < cb {
            proof {
                lemma_lex_lt_common_prefix(a@, b@, i as int);
                assert(a@.skip(i as int).first() == a@[i as int]);
                assert(b@.skip(i as int).first() == b@[i as int]);
            }
            return true;
        }
        if ca > cb {
            proof {
                lemma_lex_lt_common_prefix(a@, b@, i as int);
                assert(a@.skip(i as int).first() == a@[i as int]);
                assert(b@.skip(i as int).first() == b@[i as int]);
            }
            return false;
        }
        proof {
            assert(a@[i as int] as u32 == b@[i as int] as u32);
            assert(a@[i as int] == b@[i as int]);
        }
        i += 1;
    }
    proof {
        let k: int = if alen < blen { alen as int } else { blen as int };
        lemma_lex_lt_common_prefix(a@, b@, k);
        if alen < blen {
            assert(a@.skip(k).len() == 0 && b@.skip(k).len() > 0);
        } else {
            assert(b@.skip(k).len() == 0);
        }
    }
    alen < blen
}

} // verus!

