//! Decimal rendering of integers and byte sizes, and display truncation.
use vstd::prelude::*;
use vstd::string::*;

verus! {

pub open spec fn digit_char(d: int) -> char {
    seq!['0', '1', '2', '3', '4', '5', '6', '7', '8', '9'][d]
}

/// The decimal digits of `n`, most significant first, without leading zeros.
pub open spec fn decimal(n: nat) -> Seq<char>
    decreases n,
{
    if n < 10 {
        seq![digit_char(n as int)]
    } else {
        decimal(n / 10).push(digit_char((n % 10) as int))
    }
}

/// `n` in decimal, with a leading minus sign when negative.
pub open spec fn signed_decimal(n: int) -> Seq<char> {
    if n < 0 {
        seq!['-'] + decimal((-n) as nat)
    } else {
        decimal(n as nat)
    }
}

/// `n` in decimal, padded with zeros to at least two digits.
pub open spec fn two_digits(n: nat) -> Seq<char> {
    if n < 10 {
        seq!['0'] + decimal(n)
    } else {
        decimal(n)
    }
}

pub const KB: u64 = 1024;

pub const MB: u64 = 1048576;

pub const GB: u64 = 1073741824;

/// `bytes / unit` in hundredths, rounded to nearest with ties to even.
pub open spec fn rounded_hundredths(bytes: nat, unit: nat) -> nat
    recommends
        unit > 0,
{
    let q = (100 * bytes) / unit;
    let r = (100 * bytes) % unit;
    if 2 * r > unit || (2 * r == unit && q % 2 == 1) {
        q + 1
    } else {
        q
    }
}

/// `bytes / unit` with two decimals.
pub open spec fn fixed_two(bytes: nat, unit: nat) -> Seq<char> {
    let h = rounded_hundredths(bytes, unit);
    decimal(h / 100) + seq!['.'] + two_digits(h % 100)
}

/// A byte count as people read it: below one KiB in bytes, above in the
/// largest binary unit reached (KB, MB, GB), with two decimals.
pub open spec fn bytes_text(bytes: nat) -> Seq<char> {
    if bytes >= GB {
        fixed_two(bytes, GB as nat) + seq![' ', 'G', 'B']
    } else if bytes >= MB {
        fixed_two(bytes, MB as nat) + seq![' ', 'M', 'B']
    } else if bytes >= KB {
        fixed_two(bytes, KB as nat) + seq![' ', 'K', 'B']
    } else {
        decimal(bytes) + seq![' ', 'B']
    }
}

fn digit_str(d: u64) -> (r: &'static str)
    requires
        d < 10,
    ensures
        r@ == seq![digit_char(d as int)],
{
    proof {
        reveal_strlit("0");
        reveal_strlit("1");
        reveal_strlit("2");
        reveal_strlit("3");
        reveal_strlit("4");
        reveal_strlit("5");
        reveal_strlit("6");
        reveal_strlit("7");
        reveal_strlit("8");
        reveal_strlit("9");
    }
    if d == 0 {
        "0"
    } else if d == 1 {
        "1"
    } else if d == 2 {
        "2"
    } else if d == 3 {
        "3"
    } else if d == 4 {
        "4"
    } else if d == 5 {
        "5"
    } else if d == 6 {
        "6"
    } else if d == 7 {
        "7"
    } else if d == 8 {
        "8"
    } else {
        "9"
    }
}

/// Appends the decimal digits of `n` to `s`.
pub fn push_decimal(s: &mut String, n: u64)
    ensures
        final(s)@ == old(s)@ + decimal(n as nat),
    decreases n,
{
    if n >= 10 {
        push_decimal(s, n / 10);
    }
    let d = digit_str(n % 10);
    s.append(d);
    proof {
        if n >= 10 {
            assert(final(s)@ =~= old(s)@ + decimal(n as nat));
        } else {
            assert(final(s)@ =~= old(s)@ + decimal(n as nat));
        }
    }
}

/// Appends `n` in decimal, with a minus sign when negative.
pub fn push_signed_decimal(s: &mut String, n: i64)
    ensures
        final(s)@ == old(s)@ + signed_decimal(n as int),
{
    if n < 0 {
        proof {
            reveal_strlit("-");
        }
        s.append("-");
        let m: u64 = (-(n as i128)) as u64;
        push_decimal(s, m);
        assert(final(s)@ =~= old(s)@ + signed_decimal(n as int));
    } else {
        push_decimal(s, n as u64);
    }
}

/// Appends `n` in decimal, padded with zeros to two digits.
pub fn push_two_digits(s: &mut String, n: u64)
    ensures
        final(s)@ == old(s)@ + two_digits(n as nat),
{
    if n < 10 {
        proof {
            reveal_strlit("0");
        }
        s.append("0");
        push_decimal(s, n);
        assert(final(s)@ =~= old(s)@ + two_digits(n as nat));
    } else {
        push_decimal(s, n);
    }
}

fn push_fixed_two(s: &mut String, bytes: u64, unit: u64)
    requires
        unit > 0,
    ensures
        final(s)@ == old(s)@ + fixed_two(bytes as nat, unit as nat),
{
    let scaled: u128 = 100 * (bytes as u128);
    let q: u128 = scaled / (unit as u128);
    let r: u128 = scaled % (unit as u128);
    let h: u128 = if 2 * r > unit as u128 || (2 * r == unit as u128 && q % 2 == 1) {
        q + 1
    } else {
        q
    };
    assert(h == rounded_hundredths(bytes as nat, unit as nat));
    assert(q <= scaled) by (nonlinear_arith)
        requires
            q == scaled / (unit as u128),
            unit > 0,
    ;
    push_decimal(s, (h / 100) as u64);
    proof {
        reveal_strlit(".");
    }
    s.append(".");
    push_two_digits(s, (h % 100) as u64);
    assert(final(s)@ =~= old(s)@ + fixed_two(bytes as nat, unit as nat));
}

/// The human-readable form of a byte count, e.g. `512 B` or `1.50 KB`.
pub fn format_bytes(bytes: u64) -> (r: String)
    ensures
        r@ == bytes_text(bytes as nat),
{
    let mut s = String::new();
    if bytes >= GB {
        push_fixed_two(&mut s, bytes, GB);
        proof {
            reveal_strlit(" GB");
        }
        s.append(" GB");
    } else if bytes >= MB {
        push_fixed_two(&mut s, bytes, MB);
        proof {
            reveal_strlit(" MB");
        }
        s.append(" MB");
    } else if bytes >= KB {
        push_fixed_two(&mut s, bytes, KB);
        proof {
            reveal_strlit(" KB");
        }
        s.append(" KB");
    } else {
        push_decimal(&mut s, bytes);
        proof {
            reveal_strlit(" B");
        }
        s.append(" B");
    }
    assert(s@ =~= bytes_text(bytes as nat));
    s
}

/// `s` cut to at most `max_len` characters: a longer text keeps its first
/// `max_len - 3` characters followed by `...`.
pub open spec fn truncated(s: Seq<char>, max_len: nat) -> Seq<char> {
    if s.len() <= max_len {
        s
    } else {
        s.take(max_len - 3) + seq!['.', '.', '.']
    }
}

/// Shortens `s` for display in a column of `max_len` characters.
pub fn truncate(s: &str, max_len: usize) -> (r: String)
    requires
        s@.len() > max_len ==> max_len >= 3,
    ensures
        r@ == truncated(s@, max_len as nat),
{
    let n = s.unicode_len();
    if n <= max_len {
        let r = String::from_str(s);
        r
    } else {
        let head = s.substring_char(0, max_len - 3);
        let mut r = String::from_str(head);
        proof {
            reveal_strlit("...");
        }
        r.append("...");
        assert(r@ =~= truncated(s@, max_len as nat));
        r
    }
}

} // verus!
