use vstd::prelude::*;

verus! {

use vstd::string::StrSliceExecFns;
use vstd::string::StringExecFns;

/// The uppercase hexadecimal digit character for `d`.
pub open spec fn hex_char(d: int) -> char {
    if d == 0 {
        '0'
    } else if d == 1 {
        '1'
    } else if d == 2 {
        '2'
    } else if d == 3 {
        '3'
    } else if d == 4 {
        '4'
    } else if d == 5 {
        '5'
    } else if d == 6 {
        '6'
    } else if d == 7 {
        '7'
    } else if d == 8 {
        '8'
    } else if d == 9 {
        '9'
    } else if d == 10 {
        'A'
    } else if d == 11 {
        'B'
    } else if d == 12 {
        'C'
    } else if d == 13 {
        'D'
    } else if d == 14 {
        'E'
    } else {
        'F'
    }
}

/// The uppercase hexadecimal digits of `n` without leading zeros (a lone
/// zero for zero), most significant first.
pub open spec fn hex_trimmed(n: int) -> Seq<char>
    decreases n,
{
    if n < 16 {
        seq![hex_char(n)]
    } else {
        hex_trimmed(n / 16).push(hex_char(n % 16))
    }
}

/// `n` in uppercase hexadecimal, zero-padded to at least three digits: how
/// a 12-bit address renders.
pub open spec fn hex_addr3(n: int) -> Seq<char> {
    if n < 0x1000 {
        seq![hex_char((n / 256) % 16), hex_char((n / 16) % 16), hex_char(n % 16)]
    } else {
        hex_trimmed(n)
    }
}

/// `n` in uppercase hexadecimal with a `0x` prefix and no leading zeros.
pub open spec fn hex_arg(n: int) -> Seq<char> {
    seq!['0', 'x'] + hex_trimmed(n)
}

/// `k` space characters.
pub open spec fn spaces(k: int) -> Seq<char>
    decreases k,
{
    if k <= 0 {
        Seq::empty()
    } else {
        spaces(k - 1).push(' ')
    }
}

/// `m` padded with spaces on the right to at least six characters.
pub open spec fn padded6(m: Seq<char>) -> Seq<char> {
    m + spaces(6 - m.len())
}

/// The single-character string for hexadecimal digit `d`.
pub fn hex_digit_str(d: u8) -> (s: &'static str)
    requires
        d < 16,
    ensures
        s@ == seq![hex_char(d as int)],
{
    let s: &'static str = if d == 0 {
        "0"
    } else if d == 1 {
        "1"
    } else if d == 2 {
        "2"
    } else if d == 3 {
        "3"
    } else if d == 4 {
        "4"
    } else if d == 5 {
        "5"
    } else if d == 6 {
        "6"
    } else if d == 7 {
        "7"
    } else if d == 8 {
        "8"
    } else if d == 9 {
        "9"
    } else if d == 10 {
        "A"
    } else if d == 11 {
        "B"
    } else if d == 12 {
        "C"
    } else if d == 13 {
        "D"
    } else if d == 14 {
        "E"
    } else {
        "F"
    };
    proof {
        reveal_strlit("0");
        reveal_strlit("1");
        reveal_strlit("2");
        reveal_strlit("3");
        reveal_strlit("4");
        reveal_strlit("5");
        reveal_strlit("6");
        reveal_strlit("7");
        reveal_strlit("8");
        reveal_strlit("9");
        reveal_strlit("A");
        reveal_strlit("B");
        reveal_strlit("C");
        reveal_strlit("D");
        reveal_strlit("E");
        reveal_strlit("F");
        assert(s@ =~= seq![hex_char(d as int)]);
    }
    s
}

/// `n` as uppercase hexadecimal digits without leading zeros.
pub fn hex_trimmed_string(n: u32) -> (r: String)
    ensures
        r@ == hex_trimmed(n as int),
    decreases n,
{
    if n < 16 {
        hex_digit_str(n as u8).to_owned()
    } else {
        let mut r = hex_trimmed_string(n / 16);
        r.append(hex_digit_str((n % 16) as u8));
        proof {
            assert(r@ =~= hex_trimmed((n / 16) as int).push(hex_char(n as int % 16)));
        }
        r
    }
}

/// `n` as an address: uppercase hexadecimal, zero-padded to three digits.
pub fn hex_addr3_string(n: u32) -> (r: String)
    ensures
        r@ == hex_addr3(n as int),
{
    if n < 0x1000 {
        let mut r = hex_digit_str(((n / 256) % 16) as u8).to_owned();
        r.append(hex_digit_str(((n / 16) % 16) as u8));
        r.append(hex_digit_str((n % 16) as u8));
        proof {
            assert(r@ =~= hex_addr3(n as int));
        }
        r
    } else {
        hex_trimmed_string(n)
    }
}

/// `n` as an immediate operand: `0x` then uppercase hexadecimal digits.
pub fn hex_arg_string(n: u32) -> (r: String)
    ensures
        r@ == hex_arg(n as int),
{
    let mut r = "0x".to_owned();
    r.append(hex_trimmed_string(n).as_str());
    proof {
        reveal_strlit("0x");
        assert(r@ =~= hex_arg(n as int));
    }
    r
}

/// `m` padded with spaces on the right to at least six characters.
pub fn pad_mnemonic(m: &str) -> (r: String)
    ensures
        r@ == padded6(m@),
{
    let mut r = m.to_owned();
    let mut k = m.unicode_len();
    proof {
        assert(r@ =~= m@ + spaces(k - m@.len()));
    }
    while k < 6
        invariant
            m@.len() <= k,
            k <= 6 || k == m@.len(),
            r@ == m@ + spaces(k - m@.len()),
        decreases 6 - k,
    {
        r.append(" ");
        proof {
            reveal_strlit(" ");
            assert(r@ =~= m@ + spaces(k + 1 - m@.len()));
        }
        k = k + 1;
    }
    proof {
        assert(r@ =~= padded6(m@));
    }
    r
}

} // verus!
