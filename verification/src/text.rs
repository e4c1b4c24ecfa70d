//! Verified text building blocks for the exporters: decimal and hexadecimal
//! renderings of integers, and literal substitution in template text.

use vstd::prelude::*;
use vstd::string::StrSliceExecFns;
use vstd::string::StringExecFns;

verus! {

/// The character for one decimal digit.
pub open spec fn dec_digit_char(d: int) -> char {
    if d == 0 {
        '0'
    } else if d == 1 {
        '1'
    } else if d == 2 {
        '2'
    } else if d == 3 {
        '3'
    } else if d == 4 {
        '4'
    } else if d == 5 {
        '5'
    } else if d == 6 {
        '6'
    } else if d == 7 {
        '7'
    } else if d == 8 {
        '8'
    } else {
        '9'
    }
}

/// The decimal rendering of `n`, most significant digit first, no leading
/// zeroes (zero itself is `"0"`).
pub open spec fn dec_digits(n: nat) -> Seq<char>
    decreases n,
{
    if n < 10 {
        seq![dec_digit_char(n as int)]
    } else {
        dec_digits(n / 10).push(dec_digit_char((n % 10) as int))
    }
}

/// The character for one hexadecimal digit, upper case.
pub open spec fn hex_digit_char(d: int) -> char {
    if d < 10 {
        dec_digit_char(d)
    } else if d == 10 {
        'A'
    } else if d == 11 {
        'B'
    } else if d == 12 {
        'C'
    } else if d == 13 {
        'D'
    } else if d == 14 {
        'E'
    } else {
        'F'
    }
}

/// The upper-case hexadecimal rendering of `n`, no leading zeroes.
pub open spec fn hex_digits(n: nat) -> Seq<char>
    decreases n,
{
    if n < 16 {
        seq![hex_digit_char(n as int)]
    } else {
        hex_digits(n / 16).push(hex_digit_char((n % 16) as int))
    }
}

/// A one-character string for a decimal digit.
fn dec_digit_str(d: usize) -> (r: &'static str)
    requires
        d < 10,
    ensures
        r@ == seq![dec_digit_char(d as int)],
{
    proof {
        reveal_strlit("0");
        reveal_strlit("1");
        reveal_strlit("2");
        reveal_strlit("3");
        reveal_strlit("4");
        reveal_strlit("5");
        reveal_strlit("6");
        reveal_strlit("7");
        reveal_strlit("8");
        reveal_strlit("9");
    }
    match d {
        0 => "0",
        1 => "1",
        2 => "2",
        3 => "3",
        4 => "4",
        5 => "5",
        6 => "6",
        7 => "7",
        8 => "8",
        _ => "9",
    }
}

/// A one-character string for a hexadecimal digit, upper case.
fn hex_digit_str(d: usize) -> (r: &'static str)
    requires
        d < 16,
    ensures
        r@ == seq![hex_digit_char(d as int)],
{
    proof {
        reveal_strlit("A");
        reveal_strlit("B");
        reveal_strlit("C");
        reveal_strlit("D");
        reveal_strlit("E");
        reveal_strlit("F");
    }
    if d < 10 {
        dec_digit_str(d)
    } else {
        match d {
            10 => "A",
            11 => "B",
            12 => "C",
            13 => "D",
            14 => "E",
            _ => "F",
        }
    }
}

/// The decimal rendering of `n` as a `String`.
pub fn usize_text(n: usize) -> (r: String)
    ensures
        r@ == dec_digits(n as nat),
    decreases n,
{
    if n < 10 {
        String::from_str(dec_digit_str(n))
    } else {
        let mut s = usize_text(n / 10);
        s.append(dec_digit_str(n % 10));
        s
    }
}

/// The upper-case hexadecimal rendering of `n` as a `String`.
pub fn u16_hex_text(n: u16) -> (r: String)
    ensures
        r@ == hex_digits(n as nat),
    decreases n,
{
    if n < 16 {
        String::from_str(hex_digit_str(n as usize))
    } else {
        let mut s = u16_hex_text(n / 16);
        s.append(hex_digit_str((n % 16) as usize));
        s
    }
}

/// `s` with every non-overlapping occurrence of `pat` replaced by `rep`,
/// scanning left to right.
pub open spec fn replace_all(s: Seq<char>, pat: Seq<char>, rep: Seq<char>) -> Seq<char>
    decreases s.len(),
{
    if pat.len() == 0 || s.len() < pat.len() {
        s
    } else if s.subrange(0, pat.len() as int) == pat {
        rep + replace_all(s.skip(pat.len() as int), pat, rep)
    } else {
        seq![s[0]] + replace_all(s.skip(1), pat, rep)
    }
}

/// Whether `pat` occurs in `s` at position `from`.
fn match_at(s: &str, slen: usize, from: usize, pat: &str, plen: usize) -> (r: bool)
    requires
        slen == s@.len(),
        plen == pat@.len(),
        from + plen <= slen,
    ensures
        r == (s@.subrange(from as int, from + plen) == pat@),
{
    let mut j: usize = 0;
    while j < plen
        invariant
            slen == s@.len(),
            plen == pat@.len(),
            from + plen <= slen,
            j <= plen,
            forall|k: int| 0 <= k < j ==> s@[from + k] == pat@[k],
        decreases plen - j,
    {
        if s.get_char(from + j) != pat.get_char(j) {
            proof {
                if s@.subrange(from as int, from + plen) == pat@ {
                    assert(s@.subrange(from as int, from + plen)[j as int] == pat@[j as int]);
                }
            }
            return false;
        }
        j = j + 1;
    }
    proof {
        assert(s@.subrange(from as int, from + plen) =~= pat@);
    }
    true
}

/// Replaces every non-overlapping occurrence of `pat` in `s` by `rep`,
/// scanning left to right — exactly [`replace_all`].
pub fn replace_text(s: &str, pat: &str, rep: &str) -> (r: String)
    requires
        pat@.len() >= 1,
    ensures
        r@ == replace_all(s@, pat@, rep@),
{
    let slen = s.unicode_len();
    let plen = pat.unicode_len();
    let mut out = String::new();
    let mut from: usize = 0;
    proof {
        assert(s@.skip(0) =~= s@);
        assert(out@ + s@ =~= s@);
    }
    while from < slen
        invariant
            slen == s@.len(),
            plen == pat@.len(),
            plen >= 1,
            from <= slen,
            replace_all(s@, pat@, rep@) == out@ + replace_all(s@.skip(from as int), pat@, rep@),
        decreases slen - from,
    {
        let ghost tail = s@.skip(from as int);
        if plen <= slen - from && match_at(s, slen, from, pat, plen) {
            out.append(rep);
            proof {
                assert(tail.subrange(0, plen as int) =~= s@.subrange(from as int, from + plen));
                assert(replace_all(tail, pat@, rep@) == rep@ + replace_all(
                    tail.skip(plen as int),
                    pat@,
                    rep@,
                ));
                assert(tail.skip(plen as int) =~= s@.skip(from + plen));
                assert(replace_all(s@, pat@, rep@) == out@ + replace_all(
                    s@.skip(from + plen),
                    pat@,
                    rep@,
                ));
            }
            from = from + plen;
        } else {
            let c = s.substring_char(from, from + 1);
            out.append(c);
            proof {
                if from + plen <= slen {
                    assert(tail.subrange(0, plen as int) =~= s@.subrange(
                        from as int,
                        from + plen,
                    ));
                    assert(tail.subrange(0, plen as int) != pat@);
                } else {
                    assert(tail.len() < plen);
                }
                assert(seq![tail[0]] =~= c@);
                assert(replace_all(tail, pat@, rep@) == seq![tail[0]] + replace_all(
                    tail.skip(1),
                    pat@,
                    rep@,
                ));
                assert(tail.skip(1) =~= s@.skip(from + 1));
                assert(replace_all(s@, pat@, rep@) == out@ + replace_all(
                    s@.skip(from + 1),
                    pat@,
                    rep@,
                ));
            }
            from = from + 1;
        }
    }
    proof {
        assert(s@.skip(slen as int) =~= Seq::<char>::empty());
        assert(replace_all(Seq::<char>::empty(), pat@, rep@) =~= Seq::<char>::empty());
        assert(out@ + Seq::<char>::empty() =~= out@);
    }
    out
}

} // verus!
