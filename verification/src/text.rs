//! Verified text scanning and formatting primitives.
//!
//! The site extractors locate their embedded payloads with a handful of
//! fixed, simple patterns (a literal marker, a run of digits, a delimited
//! blob). Each primitive here carries an exact specification over the
//! character sequence, so the extraction grammars built on top of them are
//! fully verified.

use vstd::prelude::*;

verus! {

/// `pat` occurs in `s` starting at position `i`.
pub open spec fn match_at(s: Seq<char>, pat: Seq<char>, i: int) -> bool {
    &&& 0 <= i
    &&& i + pat.len() <= s.len()
    &&& s.subrange(i, i + pat.len() as int) == pat
}

/// The first position `>= i` where `pat` occurs in `s`, if any.
pub open spec fn first_match_from(s: Seq<char>, pat: Seq<char>, i: int) -> Option<int>
    decreases s.len() - i
        when 0 <= i <= s.len() && pat.len() > 0
{
    if i + pat.len() > s.len() {
        None
    } else if s.subrange(i, i + pat.len() as int) == pat {
        Some(i)
    } else {
        first_match_from(s, pat, i + 1)
    }
}

/// What `first_match_from` returns is the leftmost match at or after `from`.
pub proof fn lemma_first_match_from(s: Seq<char>, pat: Seq<char>, from: int)
    requires
        0 <= from <= s.len(),
        pat.len() > 0,
    ensures
        match first_match_from(s, pat, from) {
            Some(m) => from <= m && match_at(s, pat, m) && (forall|j: int|
                from <= j < m ==> !match_at(s, pat, j)),
            None => forall|j: int| from <= j ==> !match_at(s, pat, j),
        },
    decreases s.len() - from,
{
    if from + pat.len() > s.len() {
    } else if s.subrange(from, from + pat.len() as int) == pat {
    } else {
        lemma_first_match_from(s, pat, from + 1);
    }
}

/// Whether `pat` occurs at position `i` of `s`, by character comparison.
pub fn starts_with_at(s: &str, pat: &str, i: usize) -> (r: bool)
    requires
        i <= s@.len(),
    ensures
        r == match_at(s@, pat@, i as int),
{
    let slen = s.unicode_len();
    let plen = pat.unicode_len();
    if plen > slen - i {
        return false;
    }
    let mut j: usize = 0;
    while j < plen
        invariant
            slen == s@.len(),
            plen == pat@.len(),
            i + plen <= slen,
            0 <= j <= plen,
            forall|k: int| 0 <= k < j ==> s@[i + k] == pat@[k],
        decreases plen - j,
    {
        if s.get_char(i + j) != pat.get_char(j) {
            proof {
                assert(s@.subrange(i as int, i + plen as int)[j as int] == s@[i + j]);
            }
            return false;
        }
        j += 1;
    }
    proof {
        assert(s@.subrange(i as int, i + plen as int) =~= pat@);
    }
    true
}

/// The leftmost occurrence of `pat` in `s` at or after `from`.
pub fn find_from(s: &str, pat: &str, from: usize) -> (r: Option<usize>)
    requires
        from <= s@.len(),
        pat@.len() > 0,
    ensures
        match r {
            Some(m) => first_match_from(s@, pat@, from as int) == Some(m as int),
            None => first_match_from(s@, pat@, from as int) is None,
        },
{
    let slen = s.unicode_len();
    let plen = pat.unicode_len();
    if plen > slen - from {
        return None;
    }
    let mut i = from;
    loop
        invariant
            slen == s@.len(),
            plen == pat@.len(),
            plen > 0,
            plen <= slen,
            from <= i,
            i + plen <= slen + 1,
            first_match_from(s@, pat@, from as int) == first_match_from(s@, pat@, i as int),
        decreases slen - i,
    {
        if i > slen - plen {
            return None;
        }
        if starts_with_at(s, pat, i) {
            return Some(i);
        }
        i += 1;
    }
}

/// Whether `s[from..to]` equals `pat`, by character comparison.
pub fn range_eq(s: &str, from: usize, to: usize, pat: &str) -> (r: bool)
    requires
        from <= to <= s@.len(),
    ensures
        r == (s@.subrange(from as int, to as int) == pat@),
{
    let plen = pat.unicode_len();
    if to - from != plen {
        proof {
            assert(s@.subrange(from as int, to as int).len() != pat@.len());
        }
        return false;
    }
    let r = starts_with_at(s, pat, from);
    proof {
        assert(s@.subrange(from as int, from + plen as int) == s@.subrange(
            from as int,
            to as int,
        ));
    }
    r
}

/// Whether two strings hold the same characters.
pub fn str_eq(a: &str, b: &str) -> (r: bool)
    ensures
        r == (a@ == b@),
{
    let alen = a.unicode_len();
    let r = range_eq(a, 0, alen, b);
    proof {
        assert(a@.subrange(0, alen as int) =~= a@);
    }
    r
}

/// Space characters, as the extraction grammars understand them.
pub open spec fn is_space(c: char) -> bool {
    c == ' ' || c == '\t' || c == '\n' || c == '\r' || c == '\u{b}' || c == '\u{c}'
}

/// Whether an executable character is a space. Usable in specifications.
#[verifier::when_used_as_spec(is_space)]
pub fn space_char(c: char) -> (r: bool)
    ensures
        r == is_space(c),
{
    c == ' ' || c == '\t' || c == '\n' || c == '\r' || c == '\u{b}' || c == '\u{c}'
}

/// The first non-space position at or after `i`.
pub open spec fn ws_end(s: Seq<char>, i: int) -> int
    decreases s.len() - i
        when 0 <= i <= s.len()
{
    if i == s.len() {
        i
    } else if !is_space(s[i]) {
        i
    } else {
        ws_end(s, i + 1)
    }
}

/// Skip past spaces, to the first non-space position at or after `from`.
pub fn skip_spaces(s: &str, from: usize) -> (r: usize)
    requires
        from <= s@.len(),
    ensures
        from <= r <= s@.len(),
        r as int == ws_end(s@, from as int),
{
    let slen = s.unicode_len();
    let mut i = from;
    while i < slen
        invariant
            slen == s@.len(),
            from <= i <= slen,
            ws_end(s@, from as int) == ws_end(s@, i as int),
        decreases slen - i,
    {
        if !space_char(s.get_char(i)) {
            return i;
        }
        i += 1;
    }
    i
}

/// Decimal digits.
pub open spec fn is_digit(c: char) -> bool {
    '0' <= c && c <= '9'
}

/// Whether an executable character is a decimal digit. Usable in specifications.
#[verifier::when_used_as_spec(is_digit)]
pub fn digit_char(c: char) -> (r: bool)
    ensures
        r == is_digit(c),
{
    '0' <= c && c <= '9'
}

/// ASCII letters and digits.
pub open spec fn is_alnum(c: char) -> bool {
    is_digit(c) || ('a' <= c && c <= 'z') || ('A' <= c && c <= 'Z')
}

/// Whether an executable character is an ASCII letter or digit.
#[verifier::when_used_as_spec(is_alnum)]
pub fn alnum_char(c: char) -> (r: bool)
    ensures
        r == is_alnum(c),
{
    digit_char(c) || ('a' <= c && c <= 'z') || ('A' <= c && c <= 'Z')
}

/// The end of the maximal run of decimal digits starting at `i`.
pub open spec fn digits_end(s: Seq<char>, i: int) -> int
    decreases s.len() - i
        when 0 <= i <= s.len()
{
    if i == s.len() {
        i
    } else if !is_digit(s[i]) {
        i
    } else {
        digits_end(s, i + 1)
    }
}

/// The digit run `[i, digits_end)` is made of digits.
pub proof fn lemma_digits_end(s: Seq<char>, i: int)
    requires
        0 <= i <= s.len(),
    ensures
        i <= digits_end(s, i) <= s.len(),
        forall|j: int| i <= j < digits_end(s, i) ==> is_digit(s[j]),
    decreases s.len() - i,
{
    if i < s.len() && is_digit(s[i]) {
        lemma_digits_end(s, i + 1);
    }
}

/// The end of the maximal run of decimal digits starting at `from`.
pub fn scan_digits(s: &str, from: usize) -> (r: usize)
    requires
        from <= s@.len(),
    ensures
        from <= r <= s@.len(),
        r as int == digits_end(s@, from as int),
{
    let slen = s.unicode_len();
    let mut i = from;
    while i < slen
        invariant
            slen == s@.len(),
            from <= i <= slen,
            digits_end(s@, from as int) == digits_end(s@, i as int),
        decreases slen - i,
    {
        if !digit_char(s.get_char(i)) {
            return i;
        }
        i += 1;
    }
    i
}

/// The end of the maximal run of ASCII letters and digits starting at `i`.
pub open spec fn alnum_end(s: Seq<char>, i: int) -> int
    decreases s.len() - i
        when 0 <= i <= s.len()
{
    if i == s.len() {
        i
    } else if !is_alnum(s[i]) {
        i
    } else {
        alnum_end(s, i + 1)
    }
}

/// The end of the maximal run of ASCII letters and digits starting at `from`.
pub fn scan_alnum(s: &str, from: usize) -> (r: usize)
    requires
        from <= s@.len(),
    ensures
        from <= r <= s@.len(),
        r as int == alnum_end(s@, from as int),
{
    let slen = s.unicode_len();
    let mut i = from;
    while i < slen
        invariant
            slen == s@.len(),
            from <= i <= slen,
            alnum_end(s@, from as int) == alnum_end(s@, i as int),
        decreases slen - i,
    {
        if !alnum_char(s.get_char(i)) {
            return i;
        }
        i += 1;
    }
    i
}

/// The numeric value of a digit character.
pub open spec fn digit_val(c: char) -> nat {
    (c as int - '0' as int) as nat
}

/// Every character of `s` is a decimal digit.
pub open spec fn all_digits(s: Seq<char>) -> bool {
    forall|i: int| 0 <= i < s.len() ==> is_digit(s[i])
}

/// The value of a sequence of decimal digits, most significant first.
pub open spec fn dec_val(s: Seq<char>) -> nat
    decreases s.len(),
{
    if s.len() == 0 {
        0
    } else {
        dec_val(s.drop_last()) * 10 + digit_val(s.last())
    }
}

/// A longer digit string never has a smaller value: its prefix's value is a
/// lower bound.
proof fn lemma_dec_val_prefix(s: Seq<char>, k: int)
    requires
        0 <= k <= s.len(),
    ensures
        dec_val(s.subrange(0, k)) <= dec_val(s),
    decreases s.len() - k,
{
    if k == s.len() {
        assert(s.subrange(0, k) =~= s);
    } else {
        lemma_dec_val_prefix(s, k + 1);
        assert(s.subrange(0, k + 1).drop_last() =~= s.subrange(0, k));
        assert(dec_val(s.subrange(0, k)) * 10 + digit_val(s.subrange(0, k + 1).last())
            >= dec_val(s.subrange(0, k)));
    }
}

/// Parse the digits of `s[from..to]` as a decimal number.
///
/// Succeeds exactly when the range is non-empty, all digits, and the value
/// fits in a `u64`.
pub fn parse_dec_u64(s: &str, from: usize, to: usize) -> (r: Option<u64>)
    requires
        from <= to <= s@.len(),
    ensures
        ({
            let d = s@.subrange(from as int, to as int);
            &&& (r is Some <==> (from < to && all_digits(d) && dec_val(d) <= u64::MAX))
            &&& (match r {
                Some(v) => v as nat == dec_val(d),
                None => true,
            })
        }),
{
    let ghost d = s@.subrange(from as int, to as int);
    if from == to {
        return None;
    }
    let mut acc: u64 = 0;
    let mut k = from;
    while k < to
        invariant
            from <= k <= to <= s@.len(),
            d == s@.subrange(from as int, to as int),
            acc as nat == dec_val(s@.subrange(from as int, k as int)),
            all_digits(s@.subrange(from as int, k as int)),
        decreases to - k,
    {
        let c = s.get_char(k);
        if !digit_char(c) {
            proof {
                assert(d[k - from] == s@[k as int]);
            }
            return None;
        }
        let dv: u64 = (c as u32 as u64) - 48;
        proof {
            assert(s@.subrange(from as int, k + 1).drop_last() =~= s@.subrange(
                from as int,
                k as int,
            ));
            assert(s@.subrange(from as int, k + 1).last() == s@[k as int]);
            assert(dv == digit_val(s@[k as int]));
        }
        if acc > (u64::MAX - dv) / 10 {
            proof {
                let p = s@.subrange(from as int, k + 1);
                assert(acc * 10 + dv > u64::MAX) by (nonlinear_arith)
                    requires
                        acc > (u64::MAX - dv) / 10,
                        dv <= 9,
                        acc <= u64::MAX,
                ;
                assert(dec_val(p) > u64::MAX);
                lemma_dec_val_prefix(d, k + 1 - from);
                assert(d.subrange(0, k + 1 - from) =~= p);
            }
            return None;
        }
        proof {
            assert(acc * 10 + dv <= u64::MAX) by (nonlinear_arith)
                requires
                    acc <= (u64::MAX - dv) / 10,
                    dv <= 9,
            ;
        }
        acc = acc * 10 + dv;
        k += 1;
    }
    proof {
        assert(s@.subrange(from as int, to as int) =~= d);
    }
    Some(acc)
}

/// The digit character for one digit value.
pub open spec fn char_of_digit(d: nat) -> char {
    if d == 0 {
        '0'
    } else if d == 1 {
        '1'
    } else if d == 2 {
        '2'
    } else if d == 3 {
        '3'
    } else if d == 4 {
        '4'
    } else if d == 5 {
        '5'
    } else if d == 6 {
        '6'
    } else if d == 7 {
        '7'
    } else if d == 8 {
        '8'
    } else {
        '9'
    }
}

/// The decimal rendering of a number, most significant digit first, with no
/// leading zeros (a lone `0` for zero).
pub open spec fn dec_str(n: nat) -> Seq<char>
    decreases n,
{
    if n < 10 {
        seq![char_of_digit(n)]
    } else {
        dec_str(n / 10).push(char_of_digit(n % 10))
    }
}

fn digit_literal(d: u64) -> (s: &'static str)
    requires
        d < 10,
    ensures
        s@ == seq![char_of_digit(d as nat)],
{
    if d == 0 {
        let r = "0";
        proof {
            reveal_strlit("0");
            assert(r@ =~= seq![char_of_digit(0)]);
        }
        r
    } else if d == 1 {
        let r = "1";
        proof {
            reveal_strlit("1");
            assert(r@ =~= seq![char_of_digit(1)]);
        }
        r
    } else if d == 2 {
        let r = "2";
        proof {
            reveal_strlit("2");
            assert(r@ =~= seq![char_of_digit(2)]);
        }
        r
    } else if d == 3 {
        let r = "3";
        proof {
            reveal_strlit("3");
            assert(r@ =~= seq![char_of_digit(3)]);
        }
        r
    } else if d == 4 {
        let r = "4";
        proof {
            reveal_strlit("4");
            assert(r@ =~= seq![char_of_digit(4)]);
        }
        r
    } else if d == 5 {
        let r = "5";
        proof {
            reveal_strlit("5");
            assert(r@ =~= seq![char_of_digit(5)]);
        }
        r
    } else if d == 6 {
        let r = "6";
        proof {
            reveal_strlit("6");
            assert(r@ =~= seq![char_of_digit(6)]);
        }
        r
    } else if d == 7 {
        let r = "7";
        proof {
            reveal_strlit("7");
            assert(r@ =~= seq![char_of_digit(7)]);
        }
        r
    } else if d == 8 {
        let r = "8";
        proof {
            reveal_strlit("8");
            assert(r@ =~= seq![char_of_digit(8)]);
        }
        r
    } else {
        let r = "9";
        proof {
            reveal_strlit("9");
            assert(r@ =~= seq![char_of_digit(9)]);
        }
        r
    }
}

/// Render `n` in decimal.
pub fn u64_to_string(n: u64) -> (s: String)
    ensures
        s@ == dec_str(n as nat),
    decreases n,
{
    if n < 10 {
        String::from_str(digit_literal(n))
    } else {
        let high = u64_to_string(n / 10);
        let s = high.concat(digit_literal(n % 10));
        proof {
            assert(s@ =~= dec_str(n as nat));
        }
        s
    }
}

/// A decimal rendering is one or more digits and reads back as its value.
pub proof fn lemma_dec_str_props(n: nat)
    ensures
        dec_str(n).len() >= 1,
        all_digits(dec_str(n)),
        dec_val(dec_str(n)) == n,
    decreases n,
{
    if n < 10 {
        assert(seq![char_of_digit(n)].drop_last() =~= Seq::<char>::empty());
        assert(seq![char_of_digit(n)].last() == char_of_digit(n));
        assert(digit_val(char_of_digit(n)) == n);
        assert(dec_val(dec_str(n)) == dec_val(Seq::<char>::empty()) * 10 + digit_val(
            char_of_digit(n),
        ));
    } else {
        lemma_dec_str_props(n / 10);
        assert(dec_str(n).drop_last() =~= dec_str(n / 10));
        assert(dec_str(n).last() == char_of_digit(n % 10));
        assert(digit_val(char_of_digit(n % 10)) == n % 10);
        assert((n / 10) * 10 + n % 10 == n) by (nonlinear_arith);
    }
}

/// Distinct numbers have distinct decimal renderings.
pub proof fn lemma_dec_str_injective(a: nat, b: nat)
    requires
        dec_str(a) == dec_str(b),
    ensures
        a == b,
{
    lemma_dec_str_props(a);
    lemma_dec_str_props(b);
}

/// `s` with every occurrence of `pat` replaced by `rep`, scanning left to
/// right and never rescanning replaced text.
pub open spec fn replaced(s: Seq<char>, pat: Seq<char>, rep: Seq<char>) -> Seq<char>
    decreases s.len()
        when pat.len() > 0
{
    if s.len() < pat.len() {
        s
    } else if s.subrange(0, pat.len() as int) == pat {
        rep + replaced(s.skip(pat.len() as int), pat, rep)
    } else {
        seq![s[0]] + replaced(s.skip(1), pat, rep)
    }
}

/// Over a stretch with no match, `replaced` copies the text through.
proof fn lemma_replaced_segment(s: Seq<char>, pat: Seq<char>, rep: Seq<char>, i: int, m: int)
    requires
        pat.len() > 0,
        0 <= i <= m <= s.len(),
        forall|j: int| i <= j < m ==> !match_at(s, pat, j),
    ensures
        replaced(s.skip(i), pat, rep) == s.subrange(i, m) + replaced(s.skip(m), pat, rep),
    decreases m - i,
{
    if i == m {
        assert(s.subrange(i, m) =~= Seq::<char>::empty());
        assert(s.subrange(i, m) + replaced(s.skip(m), pat, rep) =~= replaced(
            s.skip(m),
            pat,
            rep,
        ));
    } else {
        let t = s.skip(i);
        if t.len() < pat.len() {
            assert(s.skip(m).len() < pat.len());
            assert(replaced(t, pat, rep) == t);
            assert(replaced(s.skip(m), pat, rep) == s.skip(m));
            assert(t =~= s.subrange(i, m) + s.skip(m));
        } else {
            assert(t.subrange(0, pat.len() as int) =~= s.subrange(i, i + pat.len() as int));
            assert(!match_at(s, pat, i));
            assert(t.subrange(0, pat.len() as int) != pat);
            assert(t[0] == s[i]);
            assert(t.skip(1) =~= s.skip(i + 1));
            lemma_replaced_segment(s, pat, rep, i + 1, m);
            assert(seq![s[i]] + (s.subrange(i + 1, m) + replaced(s.skip(m), pat, rep))
                =~= s.subrange(i, m) + replaced(s.skip(m), pat, rep));
        }
    }
}

/// Replace every occurrence of `pat` in `s` with `rep`.
pub fn replace_all(s: &str, pat: &str, rep: &str) -> (r: String)
    requires
        pat@.len() > 0,
    ensures
        r@ == replaced(s@, pat@, rep@),
{
    let slen = s.unicode_len();
    let plen = pat.unicode_len();
    let mut out = String::new();
    let mut i: usize = 0;
    proof {
        assert(s@.skip(0) =~= s@);
        assert(out@ + replaced(s@, pat@, rep@) =~= replaced(s@, pat@, rep@));
    }
    loop
        invariant
            slen == s@.len(),
            plen == pat@.len(),
            plen > 0,
            0 <= i <= slen,
            replaced(s@, pat@, rep@) == out@ + replaced(s@.skip(i as int), pat@, rep@),
        decreases slen - i,
    {
        match find_from(s, pat, i) {
            Some(m) => {
                proof {
                    lemma_first_match_from(s@, pat@, i as int);
                }
                let seg = s.substring_char(i, m);
                out.append(seg);
                out.append(rep);
                proof {
                    lemma_replaced_segment(s@, pat@, rep@, i as int, m as int);
                    let t = s@.skip(m as int);
                    assert(t.subrange(0, plen as int) =~= s@.subrange(m as int, m + plen));
                    assert(replaced(t, pat@, rep@) == rep@ + replaced(
                        s@.skip(m + plen),
                        pat@,
                        rep@,
                    )) by {
                        assert(t.skip(plen as int) =~= s@.skip(m + plen));
                    }
                    assert(out@ + replaced(s@.skip(m + plen), pat@, rep@) =~= replaced(
                        s@,
                        pat@,
                        rep@,
                    ));
                }
                i = m + plen;
            },
            None => {
                proof {
                    lemma_first_match_from(s@, pat@, i as int);
                }
                let seg = s.substring_char(i, slen);
                out.append(seg);
                proof {
                    lemma_replaced_segment(s@, pat@, rep@, i as int, slen as int);
                    assert(s@.skip(slen as int).len() == 0);
                    assert(replaced(s@.skip(slen as int), pat@, rep@) == s@.skip(slen as int));
                    assert(s@.subrange(i as int, slen as int) =~= s@.skip(i as int));
                    assert(out@ =~= replaced(s@, pat@, rep@));
                }
                return out;
            },
        }
    }
}

/// `s` with only the leftmost occurrence of `pat` replaced by `rep`; `s`
/// itself when `pat` does not occur.
pub open spec fn replaced_first(s: Seq<char>, pat: Seq<char>, rep: Seq<char>) -> Seq<char> {
    match first_match_from(s, pat, 0) {
        Some(m) => s.subrange(0, m) + rep + s.skip(m + pat.len() as int),
        None => s,
    }
}

/// Replace the leftmost occurrence of `pat` in `s` with `rep`.
pub fn replace_first(s: &str, pat: &str, rep: &str) -> (r: String)
    requires
        pat@.len() > 0,
    ensures
        r@ == replaced_first(s@, pat@, rep@),
{
    let slen = s.unicode_len();
    let plen = pat.unicode_len();
    match find_from(s, pat, 0) {
        Some(m) => {
            proof {
                lemma_first_match_from(s@, pat@, 0);
            }
            let mut out = String::from_str(s.substring_char(0, m));
            out.append(rep);
            out.append(s.substring_char(m + plen, slen));
            proof {
                assert(s@.subrange(m + plen, slen as int) =~= s@.skip(m + plen));
            }
            out
        },
        None => String::from_str(s),
    }
}

/// The cut point for a URL's path: the first `?` or `#`, or the end.
pub open spec fn url_stop(s: Seq<char>, i: int) -> int
    decreases s.len() - i
        when 0 <= i <= s.len()
{
    if i == s.len() {
        i
    } else if s[i] == '?' || s[i] == '#' {
        i
    } else {
        url_stop(s, i + 1)
    }
}

/// The start of the final path segment: one past the last `/` before `end`,
/// or the start of the string.
pub open spec fn segment_start(s: Seq<char>, end: int) -> int
    decreases end
        when 0 <= end <= s.len()
{
    if end <= 0 {
        0
    } else if s[end - 1] == '/' {
        end
    } else {
        segment_start(s, end - 1)
    }
}

/// The final path segment of a URL: the text after the last `/`, with any
/// query or fragment part cut off. Matches segment-wise URL splitting for
/// every URL that has a path.
pub open spec fn last_segment(s: Seq<char>) -> Seq<char> {
    s.subrange(segment_start(s, url_stop(s, 0)), url_stop(s, 0))
}

fn url_cut_pos(url: &str) -> (e: usize)
    ensures
        e as int == url_stop(url@, 0),
        e <= url@.len(),
{
    let slen = url.unicode_len();
    let mut i: usize = 0;
    while i < slen
        invariant
            slen == url@.len(),
            0 <= i <= slen,
            url_stop(url@, 0) == url_stop(url@, i as int),
        decreases slen - i,
    {
        let c = url.get_char(i);
        if c == '?' || c == '#' {
            return i;
        }
        i += 1;
    }
    i
}

fn segment_start_pos(url: &str, e: usize) -> (k: usize)
    requires
        e <= url@.len(),
    ensures
        k as int == segment_start(url@, e as int),
        k <= e,
{
    let mut k: usize = e;
    while k > 0
        invariant
            0 <= k <= e <= url@.len(),
            segment_start(url@, e as int) == segment_start(url@, k as int),
        decreases k,
    {
        if url.get_char(k - 1) == '/' {
            return k;
        }
        k -= 1;
    }
    k
}

/// Extract the final path segment of a URL.
pub fn last_path_segment(url: &str) -> (r: String)
    ensures
        r@ == last_segment(url@),
{
    let e = url_cut_pos(url);
    let k = segment_start_pos(url, e);
    String::from_str(url.substring_char(k, e))
}

} // verus!
