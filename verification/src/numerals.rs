//! Hexadecimal parsing and hexadecimal / decimal rendering of code points.

use vstd::prelude::*;

verus! {

/// An ASCII hexadecimal digit: `0`-`9`, `a`-`f` or `A`-`F`.
pub open spec fn is_hex_digit(c: char) -> bool {
    ||| 48 <= c as u32 <= 57
    ||| 97 <= c as u32 <= 102
    ||| 65 <= c as u32 <= 70
}

/// The numeric value of a hexadecimal digit (0 for other characters).
pub open spec fn hex_digit_val(c: char) -> nat {
    if 48 <= c as u32 <= 57 {
        (c as u32 - 48) as nat
    } else if 97 <= c as u32 <= 102 {
        (c as u32 - 87) as nat
    } else if 65 <= c as u32 <= 70 {
        (c as u32 - 55) as nat
    } else {
        0
    }
}

/// Every character of `s` is a hexadecimal digit.
pub open spec fn all_hex_digits(s: Seq<char>) -> bool {
    forall|i: int| 0 <= i < s.len() ==> is_hex_digit(#[trigger] s[i])
}

/// The value of `s` read as a base-16 numeral, most significant digit first.
pub open spec fn hex_val(s: Seq<char>) -> nat
    decreases s.len(),
{
    if s.len() == 0 {
        0
    } else {
        hex_val(s.drop_last()) * 16 + hex_digit_val(s.last())
    }
}

/// `s` is a non-empty hexadecimal numeral whose value fits in a `u32`.
pub open spec fn valid_hex_u32(s: Seq<char>) -> bool {
    &&& s.len() > 0
    &&& all_hex_digits(s)
    &&& hex_val(s) <= u32::MAX
}

/// The value of a numeral is at least the value of any of its prefixes.
pub proof fn lemma_hex_val_prefix(s: Seq<char>, j: int)
    requires
        0 <= j <= s.len(),
    ensures
        hex_val(s.take(j)) <= hex_val(s),
    decreases s.len(),
{
    if j == s.len() {
        assert(s.take(j) =~= s);
    } else {
        assert(s.take(j) =~= s.drop_last().take(j));
        lemma_hex_val_prefix(s.drop_last(), j);
    }
}

/// Parses `s` as a base-16 numeral.  Returns `Some` exactly when `s` is
/// non-empty, made of hexadecimal digits only, and its value fits in a `u32`.
pub fn parse_hex(s: &str) -> (r: Option<u32>)
    ensures
        r is Some <==> valid_hex_u32(s@),
        r is Some ==> r->0 == hex_val(s@),
{
    let n = s.unicode_len();
    if n == 0 {
        return None;
    }
    let mut acc: u32 = 0;
    let mut i: usize = 0;
    while i < n
        invariant
            0 <= i <= n,
            n == s@.len(),
            acc == hex_val(s@.take(i as int)),
            all_hex_digits(s@.take(i as int)),
        decreases n - i,
    {
        let c = s.get_char(i);
        let u = c as u32;
        let d: u32 = if 48 <= u && u <= 57 {
            u - 48
        } else if 97 <= u && u <= 102 {
            u - 87
        } else if 65 <= u && u <= 70 {
            u - 55
        } else {
            proof {
                assert(!is_hex_digit(s@[i as int]));
            }
            return None;
        };
        if acc >= 0x1000_0000 {
            proof {
                assert(s@.take(i + 1).drop_last() =~= s@.take(i as int));
                assert(hex_val(s@.take(i + 1)) >= 0x1000_0000 * 16);
                lemma_hex_val_prefix(s@, i + 1);
            }
            return None;
        }
        proof {
            assert(s@.take(i + 1).drop_last() =~= s@.take(i as int));
            assert(s@.take(i + 1).last() == s@[i as int]);
        }
        acc = acc * 16 + d;
        i = i + 1;
    }
    proof {
        assert(s@.take(n as int) =~= s@);
    }
    Some(acc)
}

/// The character for hexadecimal digit value `d` (lower case).
pub open spec fn hex_digit_char(d: nat) -> char {
    "0123456789abcdef"@[if d < 16 { d as int } else { 0 }]
}

/// The lower-case hexadecimal rendering of `n`, without leading zeros
/// (`0` renders as the single digit `0`).
pub open spec fn hex_digits(n: nat) -> Seq<char>
    decreases n,
{
    if n < 16 {
        seq![hex_digit_char(n)]
    } else {
        hex_digits(n / 16) + seq![hex_digit_char(n % 16)]
    }
}

/// The character for decimal digit value `d`.
pub open spec fn dec_digit_char(d: nat) -> char {
    "0123456789"@[if d < 10 { d as int } else { 0 }]
}

/// The decimal rendering of `n`, without leading zeros
/// (`0` renders as the single digit `0`).
pub open spec fn dec_digits(n: nat) -> Seq<char>
    decreases n,
{
    if n < 10 {
        seq![dec_digit_char(n)]
    } else {
        dec_digits(n / 10) + seq![dec_digit_char(n % 10)]
    }
}

/// One lower-case hexadecimal digit as a string slice.
fn hex_digit_str(d: u32) -> (r: &'static str)
    requires
        d < 16,
    ensures
        r@ == seq![hex_digit_char(d as nat)],
{
    let digits = "0123456789abcdef";
    proof {
        reveal_strlit("0123456789abcdef");
        assert(digits.is_ascii());
    }
    let r = digits.substring_ascii(d as usize, d as usize + 1);
    proof {
        assert(r@ =~= seq![hex_digit_char(d as nat)]);
    }
    r
}

/// One decimal digit as a string slice.
fn dec_digit_str(d: u32) -> (r: &'static str)
    requires
        d < 10,
    ensures
        r@ == seq![dec_digit_char(d as nat)],
{
    let digits = "0123456789";
    proof {
        reveal_strlit("0123456789");
        assert(digits.is_ascii());
    }
    let r = digits.substring_ascii(d as usize, d as usize + 1);
    proof {
        assert(r@ =~= seq![dec_digit_char(d as nat)]);
    }
    r
}

/// Renders `v` in lower-case hexadecimal without leading zeros.
pub fn hex_str(v: u32) -> (r: String)
    ensures
        r@ == hex_digits(v as nat),
    decreases v,
{
    if v < 16 {
        String::from_str(hex_digit_str(v))
    } else {
        let mut r = hex_str(v / 16);
        r.append(hex_digit_str(v % 16));
        r
    }
}

/// Renders `v` in decimal without leading zeros.
pub fn dec_str(v: usize) -> (r: String)
    ensures
        r@ == dec_digits(v as nat),
    decreases v,
{
    if v < 10 {
        String::from_str(dec_digit_str(v as u32))
    } else {
        let mut r = dec_str(v / 10);
        r.append(dec_digit_str((v % 10) as u32));
        r
    }
}

} // verus!
