//! Decimal text of integers, fully specified.

use vstd::prelude::*;

verus! {

/// The decimal digit character of a value below ten.
pub open spec fn digit_char(d: nat) -> char {
    if d == 0 {
        '0'
    } else if d == 1 {
        '1'
    } else if d == 2 {
        '2'
    } else if d == 3 {
        '3'
    } else if d == 4 {
        '4'
    } else if d == 5 {
        '5'
    } else if d == 6 {
        '6'
    } else if d == 7 {
        '7'
    } else if d == 8 {
        '8'
    } else {
        '9'
    }
}

/// The decimal text of a natural number, without leading zeros.
pub open spec fn dec_str(n: nat) -> Seq<char>
    decreases n,
{
    if n < 10 {
        seq![digit_char(n)]
    } else {
        dec_str(n / 10).push(digit_char(n % 10))
    }
}

/// The decimal text of an integer: a minus sign before the magnitude when
/// negative.
pub open spec fn int_str(i: int) -> Seq<char> {
    if i < 0 {
        seq!['-'] + dec_str((-i) as nat)
    } else {
        dec_str(i as nat)
    }
}

fn digit_char_e(d: u64) -> (r: char)
    requires
        d < 10,
    ensures
        r == digit_char(d as nat),
{
    if d == 0 {
        '0'
    } else if d == 1 {
        '1'
    } else if d == 2 {
        '2'
    } else if d == 3 {
        '3'
    } else if d == 4 {
        '4'
    } else if d == 5 {
        '5'
    } else if d == 6 {
        '6'
    } else if d == 7 {
        '7'
    } else if d == 8 {
        '8'
    } else {
        '9'
    }
}

proof fn lemma_reverse_push(s: Seq<char>, c: char)
    ensures
        s.push(c).reverse() =~= seq![c] + s.reverse(),
{
}

/// Relies on std's `FromIterator` for `String`: collecting characters
/// yields the string of exactly those characters.
#[verifier::external_body]
pub(crate) fn string_of_chars(v: &Vec<char>) -> (r: String)
    ensures
        r@ == v@,
{
    v.iter().collect()
}

/// The decimal text of a number.
pub fn u64_to_string(n: u64) -> (r: String)
    ensures
        r@ == dec_str(n as nat),
{
    let mut rest = n;
    let mut low_first: Vec<char> = Vec::new();
    while rest >= 10
        invariant
            dec_str(n as nat) =~= dec_str(rest as nat) + low_first@.reverse(),
        decreases rest,
    {
        proof {
            lemma_reverse_push(low_first@, digit_char((rest % 10) as nat));
            assert(dec_str(rest as nat) == dec_str((rest as nat) / 10).push(
                digit_char((rest as nat) % 10),
            ));
            assert((rest as nat) / 10 == (rest / 10) as nat);
            assert(dec_str((rest / 10) as nat) + (seq![digit_char((rest % 10) as nat)]
                + low_first@.reverse()) =~= (dec_str((rest / 10) as nat).push(
                digit_char((rest % 10) as nat),
            )) + low_first@.reverse());
        }
        low_first.push(digit_char_e(rest % 10));
        rest = rest / 10;
    }
    let mut out: Vec<char> = Vec::new();
    out.push(digit_char_e(rest));
    let mut i = low_first.len();
    proof {
        assert(out@ =~= seq![digit_char(rest as nat)]);
        assert(seq![digit_char(rest as nat)] + low_first@.reverse().subrange(
            0,
            0,
        ) =~= out@);
        assert(dec_str(rest as nat) =~= seq![digit_char(rest as nat)]);
    }
    while i > 0
        invariant
            i <= low_first@.len(),
            out@ =~= dec_str(rest as nat) + low_first@.reverse().subrange(
                0,
                low_first@.len() - i,
            ),
            rest < 10,
        decreases i,
    {
        i = i - 1;
        proof {
            let rev = low_first@.reverse();
            let k = low_first@.len() - i - 1;
            assert(rev[k] == low_first@[i as int]);
            assert(rev.subrange(0, k + 1) =~= rev.subrange(0, k).push(rev[k]));
        }
        out.push(low_first[i]);
    }
    proof {
        assert(low_first@.reverse().subrange(0, low_first@.len() as int) =~= low_first@.reverse());
    }
    string_of_chars(&out)
}

/// Whether every character is a decimal digit.
pub open spec fn all_digits(s: Seq<char>) -> bool {
    forall|i: int| 0 <= i < s.len() ==> 48 <= (#[trigger] s[i]) as u32 <= 57
}

/// The number decimal digit characters denote, leading zeros allowed.
pub open spec fn digits_val(s: Seq<char>) -> nat
    decreases s.len(),
{
    if s.len() == 0 {
        0
    } else {
        digits_val(s.drop_last()) * 10 + ((s.last() as u32) - 48) as nat
    }
}

proof fn lemma_digits_val_prefix_le(s: Seq<char>, i: int)
    requires
        0 <= i <= s.len(),
    ensures
        digits_val(s.subrange(0, i)) <= digits_val(s),
    decreases s.len() - i,
{
    if i < s.len() {
        lemma_digits_val_prefix_le(s, i + 1);
        let a = s.subrange(0, i);
        let b = s.subrange(0, i + 1);
        assert(b.drop_last() =~= a);
        assert(digits_val(b) == digits_val(a) * 10 + (((b.last() as u32) - 48) as nat));
        assert(digits_val(a) <= digits_val(a) * 10) by (nonlinear_arith)
            requires
                digits_val(a) >= 0,
        ;
    } else {
        assert(s.subrange(0, i) =~= s);
    }
}

/// Reads a number from decimal text: the value exactly when the text is
/// one or more digits and the value fits; nothing otherwise.
pub fn parse_u64(s: &str) -> (r: Option<u64>)
    ensures
        r matches Some(v) ==> s@.len() > 0 && all_digits(s@) && v == digits_val(s@),
        r is None ==> !(s@.len() > 0 && all_digits(s@) && digits_val(s@)
            < 0x1_0000_0000_0000_0000),
{
    let len = s.unicode_len();
    if len == 0 {
        return None;
    }
    let mut acc: u64 = 0;
    let mut i: usize = 0;
    proof {
        assert(s@.subrange(0, 0) =~= Seq::<char>::empty());
    }
    while i < len
        invariant
            i <= len,
            len == s@.len(),
            acc == digits_val(s@.subrange(0, i as int)),
            all_digits(s@.subrange(0, i as int)),
        decreases len - i,
    {
        let c = s.get_char(i);
        let u = c as u32;
        if !(48 <= u && u <= 57) {
            return None;
        }
        let d = (u - 48) as u64;
        if acc > (0xffff_ffff_ffff_ffffu64 - d) / 10 {
            proof {
                let pre = s@.subrange(0, i + 1);
                assert(pre.drop_last() =~= s@.subrange(0, i as int));
                assert(digits_val(pre) == acc * 10 + d);
                assert(acc * 10 + d >= 0x1_0000_0000_0000_0000) by (nonlinear_arith)
                    requires
                        acc > (0xffff_ffff_ffff_ffffu64 as int - d as int) / 10,
                        0 <= d <= 9,
                        acc >= 0,
                ;
                lemma_digits_val_prefix_le(s@, i + 1);
            }
            return None;
        }
        proof {
            let pre = s@.subrange(0, i + 1);
            assert(pre.drop_last() =~= s@.subrange(0, i as int));
            assert(acc * 10 + d <= 0xffff_ffff_ffff_ffffu64) by (nonlinear_arith)
                requires
                    acc <= (0xffff_ffff_ffff_ffffu64 as int - d as int) / 10,
                    0 <= d <= 9,
                    acc >= 0,
            ;
            assert(forall|j: int|
                0 <= j < pre.len() ==> 48 <= (#[trigger] pre[j]) as u32 <= 57);
        }
        acc = acc * 10 + d;
        i = i + 1;
    }
    proof {
        assert(s@.subrange(0, len as int) =~= s@);
    }
    Some(acc)
}

/// The first position at or past `pos` that holds a dot, or the end.
pub open spec fn scan_dot(s: Seq<char>, pos: int) -> int
    decreases crate::vdl::grammar::rem(s, pos),
{
    if 0 <= pos < s.len() && s[pos] != '.' {
        scan_dot(s, pos + 1)
    } else {
        pos
    }
}

/// Splits text at its first dot: the part before it, and the rest, dot
/// included.
pub fn split_first_dot(s: &str) -> (r: (String, String))
    ensures
        r.0@ == s@.subrange(0, scan_dot(s@, 0)),
        r.1@ == s@.subrange(scan_dot(s@, 0), s@.len() as int),
        0 <= scan_dot(s@, 0) <= s@.len(),
{
    let len = s.unicode_len();
    let mut p: usize = 0;
    while p < len && !(s.get_char(p) == '.')
        invariant
            p <= len,
            len == s@.len(),
            scan_dot(s@, 0) == scan_dot(s@, p as int),
        decreases len - p,
    {
        p = p + 1;
    }
    (s.substring_char(0, p).to_owned(), s.substring_char(p, len).to_owned())
}

/// The decimal text of a signed number, minus sign included.
pub fn i64_to_string(n: i64) -> (r: String)
    ensures
        r@ == int_str(n as int),
{
    if n >= 0 {
        u64_to_string(n as u64)
    } else {
        let wide: i128 = n as i128;
        let mag: u64 = (-wide) as u64;
        let tail = u64_to_string(mag);
        let mut out: Vec<char> = Vec::new();
        out.push('-');
        let r = string_of_chars(&out).concat(tail.as_str());
        proof {
            assert(r@ =~= seq!['-'] + dec_str(mag as nat));
        }
        r
    }
}

} // verus!
