//! Verified text utilities: substring search, placeholder replacement,
//! decimal rendering of integers, and parsing of decimal digit strings.

use vstd::prelude::*;

verus! {

/// The needle `n` occurs in `h` starting at position `i`.
pub open spec fn match_at(h: Seq<char>, n: Seq<char>, i: int) -> bool {
    0 <= i && i + n.len() <= h.len() && h.subrange(i, i + n.len()) == n
}

/// The needle `n` occurs somewhere in `h`.
pub open spec fn contains_seq(h: Seq<char>, n: Seq<char>) -> bool {
    exists|i: int| match_at(h, n, i)
}

/// Compares two string slices character by character.
pub fn str_eq(a: &str, b: &str) -> (r: bool)
    ensures
        r == (a@ == b@),
{
    let alen = a.unicode_len();
    let blen = b.unicode_len();
    if alen != blen {
        assert(a@ != b@);
        return false;
    }
    let mut i: usize = 0;
    while i < alen
        invariant
            alen == a@.len(),
            alen == b@.len(),
            i <= alen,
            forall|k: int| 0 <= k < i ==> a@[k] == b@[k],
        decreases alen - i,
    {
        if a.get_char(i) != b.get_char(i) {
            return false;
        }
        i = i + 1;
    }
    proof {
        assert(a@ =~= b@);
    }
    true
}

/// Says whether the needle occurs in `h` at position `i`, comparing
/// character by character.
fn str_matches_at(h: &str, n: &str, i: usize, hlen: usize, nlen: usize) -> (r: bool)
    requires
        hlen == h@.len(),
        nlen == n@.len(),
        i + nlen <= hlen,
    ensures
        r == match_at(h@, n@, i as int),
{
    let mut j: usize = 0;
    while j < nlen
        invariant
            hlen == h@.len(),
            nlen == n@.len(),
            i + nlen <= hlen,
            j <= nlen,
            forall|k: int| 0 <= k < j ==> h@[i + k] == n@[k],
        decreases nlen - j,
    {
        if h.get_char(i + j) != n.get_char(j) {
            assert(h@.subrange(i as int, i + nlen) != n@) by {
                assert(h@.subrange(i as int, i + nlen)[j as int] == h@[i + j]);
            }
            return false;
        }
        j = j + 1;
    }
    proof {
        assert(h@.subrange(i as int, i + nlen) =~= n@);
    }
    true
}

/// Says whether `needle` occurs anywhere in `haystack`.
pub fn str_contains(haystack: &str, needle: &str) -> (r: bool)
    ensures
        r == contains_seq(haystack@, needle@),
{
    let hlen = haystack.unicode_len();
    let nlen = needle.unicode_len();
    if nlen > hlen {
        assert(!contains_seq(haystack@, needle@));
        return false;
    }
    let mut i: usize = 0;
    let last = hlen - nlen;
    while i <= last
        invariant
            hlen == haystack@.len(),
            nlen == needle@.len(),
            nlen <= hlen,
            last == hlen - nlen,
            i <= last + 1,
            forall|k: int| 0 <= k < i ==> !match_at(haystack@, needle@, k),
        decreases last + 1 - i,
    {
        if str_matches_at(haystack, needle, i, hlen, nlen) {
            assert(contains_seq(haystack@, needle@));
            return true;
        }
        if i == last {
            assert(forall|k: int| match_at(haystack@, needle@, k) ==> 0 <= k <= last);
            return false;
        }
        i = i + 1;
    }
    assert(forall|k: int| match_at(haystack@, needle@, k) ==> 0 <= k <= last);
    false
}

/// `s` with every non-overlapping occurrence of `pat`, found left to right,
/// replaced by `rep`; the replacement text itself is never rescanned.
/// An empty pattern leaves `s` unchanged.
pub open spec fn replaced(s: Seq<char>, pat: Seq<char>, rep: Seq<char>) -> Seq<char>
    decreases s.len(),
{
    if pat.len() == 0 || s.len() < pat.len() {
        s
    } else if s.subrange(0, pat.len() as int) == pat {
        rep + replaced(s.subrange(pat.len() as int, s.len() as int), pat, rep)
    } else {
        seq![s[0]] + replaced(s.subrange(1, s.len() as int), pat, rep)
    }
}

proof fn lemma_replaced_skip_one(s: Seq<char>, pat: Seq<char>, rep: Seq<char>)
    requires
        s.len() >= 1,
        pat.len() >= 1,
        !match_at(s, pat, 0),
    ensures
        replaced(s, pat, rep) == seq![s[0]] + replaced(s.subrange(1, s.len() as int), pat, rep),
{
    if s.len() < pat.len() {
        assert(replaced(s.subrange(1, s.len() as int), pat, rep) == s.subrange(
            1,
            s.len() as int,
        ));
        assert(s =~= seq![s[0]] + s.subrange(1, s.len() as int));
    }
}

/// Replaces every occurrence of `pat` in `s` by `rep`, scanning left to right.
pub fn replace_all(s: &str, pat: &str, rep: &str) -> (out: String)
    ensures
        out@ == replaced(s@, pat@, rep@),
{
    let slen = s.unicode_len();
    let plen = pat.unicode_len();
    let mut out = String::new();
    if plen == 0 {
        out.append(s);
        return out;
    }
    let mut i: usize = 0;
    proof {
        assert(s@.subrange(0, slen as int) =~= s@);
        assert(out@ + replaced(s@, pat@, rep@) =~= replaced(s@, pat@, rep@));
    }
    while i < slen
        invariant
            slen == s@.len(),
            plen == pat@.len(),
            plen >= 1,
            i <= slen,
            replaced(s@, pat@, rep@) == out@ + replaced(
                s@.subrange(i as int, slen as int),
                pat@,
                rep@,
            ),
        decreases slen - i,
    {
        let ghost suffix = s@.subrange(i as int, slen as int);
        if plen <= slen - i && str_matches_at(s, pat, i, slen, plen) {
            proof {
                assert(suffix.subrange(0, plen as int) =~= s@.subrange(i as int, i + plen));
                assert(suffix.subrange(plen as int, suffix.len() as int) =~= s@.subrange(
                    i + plen,
                    slen as int,
                ));
            }
            out.append(rep);
            i = i + plen;
        } else {
            proof {
                if i + plen <= slen {
                    assert(suffix.subrange(0, plen as int) =~= s@.subrange(i as int, i + plen));
                }
                assert(!match_at(suffix, pat@, 0));
                lemma_replaced_skip_one(suffix, pat@, rep@);
                assert(suffix.subrange(1, suffix.len() as int) =~= s@.subrange(
                    i + 1,
                    slen as int,
                ));
            }
            let piece = s.substring_char(i, i + 1);
            proof {
                assert(piece@ =~= seq![s@[i as int]]);
            }
            out.append(piece);
            i = i + 1;
        }
    }
    proof {
        assert(s@.subrange(slen as int, slen as int) =~= Seq::<char>::empty());
        assert(replaced(Seq::<char>::empty(), pat@, rep@) == Seq::<char>::empty());
        assert(out@ =~= out@ + Seq::<char>::empty());
    }
    out
}

/// The character for one decimal digit.
pub open spec fn digit_char(d: int) -> char {
    if d == 0 {
        '0'
    } else if d == 1 {
        '1'
    } else if d == 2 {
        '2'
    } else if d == 3 {
        '3'
    } else if d == 4 {
        '4'
    } else if d == 5 {
        '5'
    } else if d == 6 {
        '6'
    } else if d == 7 {
        '7'
    } else if d == 8 {
        '8'
    } else {
        '9'
    }
}

/// The decimal digits of `n`, most significant first, with no leading zeros
/// (the number zero is the single digit `0`).
pub open spec fn dec_digits(n: nat) -> Seq<char>
    decreases n,
{
    if n < 10 {
        seq![digit_char(n as int)]
    } else {
        dec_digits(n / 10) + seq![digit_char((n % 10) as int)]
    }
}

/// The decimal rendering of a signed number: a minus sign before the digits
/// of its magnitude when it is negative.
pub open spec fn dec_int(n: int) -> Seq<char> {
    if n < 0 {
        seq!['-'] + dec_digits((-n) as nat)
    } else {
        dec_digits(n as nat)
    }
}

/// One decimal digit as a string slice.
fn digit_str(d: u32) -> (r: &'static str)
    requires
        d < 10,
    ensures
        r@ == seq![digit_char(d as int)],
{
    proof {
        reveal_strlit("0");
        reveal_strlit("1");
        reveal_strlit("2");
        reveal_strlit("3");
        reveal_strlit("4");
        reveal_strlit("5");
        reveal_strlit("6");
        reveal_strlit("7");
        reveal_strlit("8");
        reveal_strlit("9");
    }
    match d {
        0 => "0",
        1 => "1",
        2 => "2",
        3 => "3",
        4 => "4",
        5 => "5",
        6 => "6",
        7 => "7",
        8 => "8",
        _ => "9",
    }
}

/// Renders an unsigned number in decimal.
pub fn u32_to_string(n: u32) -> (out: String)
    ensures
        out@ == dec_digits(n as nat),
{
    let mut out = String::from_str(digit_str(n % 10));
    let mut m: u32 = n / 10;
    while m > 0
        invariant
            if m > 0 {
                dec_digits(n as nat) == dec_digits(m as nat) + out@
            } else {
                dec_digits(n as nat) == out@
            },
        decreases m,
    {
        let mut piece = String::from_str(digit_str(m % 10));
        piece.append(out.as_str());
        out = piece;
        m = m / 10;
    }
    out
}

/// Renders a signed number in decimal.
pub fn i32_to_string(n: i32) -> (out: String)
    ensures
        out@ == dec_int(n as int),
{
    if n >= 0 {
        u32_to_string(n as u32)
    } else {
        let mag: u32 = (-(n as i64)) as u32;
        let mut out = String::new();
        proof {
            reveal_strlit("-");
        }
        out.append("-");
        let digits = u32_to_string(mag);
        out.append(digits.as_str());
        out
    }
}

/// Says whether a character is a decimal digit.
pub open spec fn is_digit(c: char) -> bool {
    48 <= c as u32 <= 57
}

/// The numeric value of one digit character.
pub open spec fn char_digit(c: char) -> nat {
    (c as u32 - 48) as nat
}

/// The value of a digit string read in decimal.
pub open spec fn digits_val(s: Seq<char>) -> nat
    decreases s.len(),
{
    if s.len() == 0 {
        0
    } else {
        digits_val(s.drop_last()) * 10 + char_digit(s.last())
    }
}

/// What parsing a decimal number returns: the value of the digits when the
/// text is nonempty, all digits, and the value fits in 32 bits; nothing
/// otherwise.
pub open spec fn parsed_u32(s: Seq<char>) -> Option<u32> {
    if s.len() >= 1 && (forall|k: int| 0 <= k < s.len() ==> is_digit(s[k])) && digits_val(s)
        <= u32::MAX {
        Some(digits_val(s) as u32)
    } else {
        None
    }
}

proof fn lemma_digits_val_prefix_grows(s: Seq<char>, i: int)
    requires
        0 <= i <= s.len(),
    ensures
        digits_val(s.subrange(0, i)) <= digits_val(s),
    decreases s.len() - i,
{
    if i < s.len() {
        lemma_digits_val_prefix_grows(s, i + 1);
        let p = s.subrange(0, i + 1);
        assert(p.drop_last() =~= s.subrange(0, i));
        assert(digits_val(p) == digits_val(s.subrange(0, i)) * 10 + char_digit(p.last()));
    } else {
        assert(s.subrange(0, i) =~= s);
    }
}

/// Parses a decimal number from text: the digits' value when the text is
/// nonempty, all digits, and the value fits; `None` otherwise.
pub fn parse_u32(s: &str) -> (r: Option<u32>)
    ensures
        r == parsed_u32(s@),
{
    let len = s.unicode_len();
    if len == 0 {
        return None;
    }
    let mut acc: u32 = 0;
    let mut i: usize = 0;
    while i < len
        invariant
            len == s@.len(),
            len >= 1,
            i <= len,
            forall|k: int| 0 <= k < i ==> is_digit(s@[k]),
            acc == digits_val(s@.subrange(0, i as int)),
        decreases len - i,
    {
        let c = s.get_char(i);
        let v = c as u32;
        if v < 48 || v > 57 {
            assert(!is_digit(s@[i as int]));
            return None;
        }
        let d = v - 48;
        proof {
            let p = s@.subrange(0, i + 1);
            assert(p.drop_last() =~= s@.subrange(0, i as int));
            assert(digits_val(p) == acc * 10 + d);
        }
        if acc > (u32::MAX - d) / 10 {
            proof {
                lemma_digits_val_prefix_grows(s@, i + 1);
                assert(digits_val(s@.subrange(0, i + 1)) > u32::MAX);
            }
            return None;
        }
        acc = acc * 10 + d;
        i = i + 1;
    }
    proof {
        assert(s@.subrange(0, len as int) =~= s@);
    }
    Some(acc)
}

} // verus!
