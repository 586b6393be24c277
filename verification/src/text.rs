//! Character-level helpers shared by the printable forms of the AST and of
//! runtime values: decimal rendering of integers and string comparison.

use vstd::prelude::*;

verus! {

/// The digit character for a value below ten.
pub open spec fn digit_char(d: int) -> char {
    if d == 0 {
        '0'
    } else if d == 1 {
        '1'
    } else if d == 2 {
        '2'
    } else if d == 3 {
        '3'
    } else if d == 4 {
        '4'
    } else if d == 5 {
        '5'
    } else if d == 6 {
        '6'
    } else if d == 7 {
        '7'
    } else if d == 8 {
        '8'
    } else {
        '9'
    }
}

/// Decimal form of a nonnegative integer, most significant digit first.
pub open spec fn dec_str_nat(n: nat) -> Seq<char>
    decreases n,
{
    if n < 10 {
        seq![digit_char(n as int)]
    } else {
        dec_str_nat(n / 10).push(digit_char((n % 10) as int))
    }
}

/// Decimal form of an integer: a minus sign for negative values,
/// then the digits.
pub open spec fn dec_str(v: int) -> Seq<char> {
    if v < 0 {
        seq!['-'] + dec_str_nat((-v) as nat)
    } else {
        dec_str_nat(v as nat)
    }
}

/// The one-character string for a value below ten.
fn digit_str(d: u64) -> (r: &'static str)
    requires
        d < 10,
    ensures
        r@ == seq![digit_char(d as int)],
{
    proof {
        reveal_strlit("0");
        reveal_strlit("1");
        reveal_strlit("2");
        reveal_strlit("3");
        reveal_strlit("4");
        reveal_strlit("5");
        reveal_strlit("6");
        reveal_strlit("7");
        reveal_strlit("8");
        reveal_strlit("9");
    }
    let r: &'static str = if d == 0 {
        "0"
    } else if d == 1 {
        "1"
    } else if d == 2 {
        "2"
    } else if d == 3 {
        "3"
    } else if d == 4 {
        "4"
    } else if d == 5 {
        "5"
    } else if d == 6 {
        "6"
    } else if d == 7 {
        "7"
    } else if d == 8 {
        "8"
    } else {
        "9"
    };
    proof {
        assert(r@ =~= seq![digit_char(d as int)]);
    }
    r
}

/// Decimal rendering of an unsigned integer.
pub fn u64_dec_string(n: u64) -> (r: String)
    ensures
        r@ == dec_str_nat(n as nat),
    decreases n,
{
    if n < 10 {
        let r = digit_str(n).to_owned();
        proof {
            assert(r@ =~= dec_str_nat(n as nat));
        }
        r
    } else {
        let mut r = u64_dec_string(n / 10);
        r.append(digit_str(n % 10));
        proof {
            assert(r@ =~= dec_str_nat(n as nat));
        }
        r
    }
}

/// Decimal rendering of a signed integer.
pub fn i64_dec_string(v: i64) -> (r: String)
    ensures
        r@ == dec_str(v as int),
{
    if v >= 0 {
        u64_dec_string(v as u64)
    } else {
        let magnitude: u64 = (-(v as i128)) as u64;
        proof {
            assert(magnitude as nat == (-(v as int)) as nat);
        }
        let mut r = String::new();
        r.append("-");
        let digits = u64_dec_string(magnitude);
        r.append(digits.as_str());
        proof {
            reveal_strlit("-");
            assert(r@ =~= dec_str(v as int));
        }
        r
    }
}

/// Number of bytes in the UTF-8 encoding of one character.
pub open spec fn utf8_len(c: char) -> int {
    if (c as u32) < 0x80 {
        1
    } else if (c as u32) < 0x800 {
        2
    } else if (c as u32) < 0x10000 {
        3
    } else {
        4
    }
}

/// Number of bytes in the UTF-8 encoding of the characters from index
/// `i` on.
pub open spec fn byte_len_from(s: Seq<char>, i: int) -> int
    decreases s.len() - i,
{
    if i < 0 || i >= s.len() {
        0
    } else {
        utf8_len(s[i]) + byte_len_from(s, i + 1)
    }
}

/// Number of bytes in the UTF-8 encoding of a string.
pub open spec fn byte_len(s: Seq<char>) -> int {
    byte_len_from(s, 0)
}

/// Bounds of `byte_len_from`.
pub proof fn lemma_byte_len_from(s: Seq<char>, i: int)
    ensures
        0 <= byte_len_from(s, i),
        0 <= i <= s.len() ==> byte_len_from(s, i) <= 4 * (s.len() - i),
    decreases s.len() - i,
{
    if 0 <= i < s.len() {
        lemma_byte_len_from(s, i + 1);
    }
}

/// Number of bytes in the UTF-8 encoding of one character.
pub fn char_utf8_len(c: char) -> (r: u8)
    ensures
        r as int == utf8_len(c),
{
    let u = c as u32;
    if u < 0x80 {
        1
    } else if u < 0x800 {
        2
    } else if u < 0x10000 {
        3
    } else {
        4
    }
}

/// Number of bytes in the UTF-8 encoding of a string.
pub fn str_byte_len(s: &str) -> (r: u128)
    ensures
        r as int == byte_len(s@),
{
    let n = s.unicode_len();
    let mut acc: u128 = 0;
    let mut i: usize = 0;
    while i < n
        invariant
            n == s@.len(),
            i <= n,
            acc as int + byte_len_from(s@, i as int) == byte_len(s@),
            acc <= 4 * (i as int),
        decreases n - i,
    {
        proof {
            lemma_byte_len_from(s@, i as int);
            lemma_byte_len_from(s@, i as int + 1);
        }
        let c = s.get_char(i);
        acc = acc + char_utf8_len(c) as u128;
        i = i + 1;
    }
    acc
}

/// The characters of a string, as a vector.
pub fn str_chars(s: &str) -> (r: Vec<char>)
    ensures
        r@ == s@,
{
    let n = s.unicode_len();
    let mut r: Vec<char> = Vec::new();
    let mut i: usize = 0;
    while i < n
        invariant
            n == s@.len(),
            i <= n,
            r@ =~= s@.subrange(0, i as int),
        decreases n - i,
    {
        r.push(s.get_char(i));
        proof {
            assert(r@ =~= s@.subrange(0, i as int + 1));
        }
        i = i + 1;
    }
    proof {
        assert(r@ =~= s@);
    }
    r
}

/// Character-for-character string comparison.
pub fn str_eq(a: &str, b: &str) -> (r: bool)
    ensures
        r == (a@ == b@),
{
    let x: String = a.to_owned();
    let y: String = b.to_owned();
    x == y
}

/// Character-for-character comparison of an owned and a borrowed string.
pub fn string_eq_str(a: &String, b: &str) -> (r: bool)
    ensures
        r == (a@ == b@),
{
    str_eq(a.as_str(), b)
}

} // verus!
