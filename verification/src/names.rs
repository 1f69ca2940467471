//! Construction of guest login and group names, `{prefix}-{id}`.

use vstd::prelude::*;

verus! {

/// The character a single decimal digit is written with.
pub open spec fn digit_char(d: int) -> char {
    if d == 0 {
        '0'
    } else if d == 1 {
        '1'
    } else if d == 2 {
        '2'
    } else if d == 3 {
        '3'
    } else if d == 4 {
        '4'
    } else if d == 5 {
        '5'
    } else if d == 6 {
        '6'
    } else if d == 7 {
        '7'
    } else if d == 8 {
        '8'
    } else {
        '9'
    }
}

/// The decimal digits of `n >= 0`, most significant first.
pub open spec fn dec_digits(n: int) -> Seq<char>
    decreases n,
{
    if n < 10 {
        seq![digit_char(n)]
    } else {
        dec_digits(n / 10).push(digit_char(n % 10))
    }
}

/// The name a guest user or group with identity number `id` carries.
pub open spec fn guest_name_text(prefix: Seq<char>, id: int) -> Seq<char> {
    prefix + seq!['-'] + dec_digits(id)
}

/// The text of the digits collected least-significant-first in `ds`.
spec fn digits_text(ds: Seq<u8>) -> Seq<char>
    decreases ds.len(),
{
    if ds.len() == 0 {
        Seq::empty()
    } else {
        seq![digit_char(ds.last() as int)] + digits_text(ds.drop_last())
    }
}

/// The one-character string of a single decimal digit.
fn digit_str(d: u8) -> (r: &'static str)
    requires
        d < 10,
    ensures
        r@ == seq![digit_char(d as int)],
{
    proof {
        reveal_strlit("0");
        reveal_strlit("1");
        reveal_strlit("2");
        reveal_strlit("3");
        reveal_strlit("4");
        reveal_strlit("5");
        reveal_strlit("6");
        reveal_strlit("7");
        reveal_strlit("8");
        reveal_strlit("9");
    }
    match d {
        0 => "0",
        1 => "1",
        2 => "2",
        3 => "3",
        4 => "4",
        5 => "5",
        6 => "6",
        7 => "7",
        8 => "8",
        _ => "9",
    }
}

/// Writes `n` in decimal.
pub fn decimal_string(n: u64) -> (r: String)
    ensures
        r@ == dec_digits(n as int),
{
    let mut digits: Vec<u8> = Vec::new();
    let mut m: u64 = n;
    while m >= 10
        invariant
            dec_digits(n as int) == dec_digits(m as int) + digits_text(digits@),
            forall|k: int| 0 <= k < digits@.len() ==> digits@[k] < 10,
        decreases m,
    {
        let d: u8 = (m % 10) as u8;
        proof {
            assert(digits@.push(d).drop_last() =~= digits@);
            assert(dec_digits(m as int) + digits_text(digits@) == dec_digits(m as int / 10)
                + digits_text(digits@.push(d)));
        }
        digits.push(d);
        m = m / 10;
    }
    let d: u8 = m as u8;
    proof {
        assert(digits@.push(d).drop_last() =~= digits@);
        assert(dec_digits(m as int) + digits_text(digits@) == digits_text(digits@.push(d)));
    }
    digits.push(d);
    let ghost ds = digits@;
    let len = digits.len();
    let mut out = String::new();
    proof {
        assert(ds.subrange(0, len as int) =~= ds);
        assert(out@ + digits_text(ds) =~= digits_text(ds));
    }
    let mut j: usize = 0;
    while j < len
        invariant
            j <= len,
            len == ds.len(),
            digits@ == ds,
            forall|k: int| 0 <= k < ds.len() ==> ds[k] < 10,
            digits_text(ds) == out@ + digits_text(ds.subrange(0, len - j)),
        decreases len - j,
    {
        let idx = len - 1 - j;
        let piece = digit_str(digits[idx]);
        proof {
            let pre = ds.subrange(0, len - j);
            assert(pre.drop_last() =~= ds.subrange(0, len - j - 1));
            assert(pre.last() == ds[len - 1 - j]);
        }
        out.append(piece);
        j = j + 1;
    }
    proof {
        assert(ds.subrange(0, 0) =~= Seq::<u8>::empty());
        assert(out@ + digits_text(ds.subrange(0, 0)) =~= out@);
    }
    out
}

/// Builds the name `{prefix}-{id}`.
pub fn format_guest_name(prefix: &str, id: u64) -> (r: String)
    ensures
        r@ == guest_name_text(prefix@, id as int),
{
    let mut out = String::from_str(prefix);
    proof {
        reveal_strlit("-");
    }
    out.append("-");
    let digits = decimal_string(id);
    out.append(digits.as_str());
    out
}

/// Every decimal rendering holds at least one character.
proof fn lemma_dec_digits_nonempty(n: int)
    ensures
        dec_digits(n).len() >= 1,
    decreases n,
{
    if n >= 10 {
        lemma_dec_digits_nonempty(n / 10);
    }
}

/// Two different non-negative numbers never share a decimal rendering.
pub proof fn lemma_dec_digits_injective(a: int, b: int)
    requires
        0 <= a,
        0 <= b,
        dec_digits(a) == dec_digits(b),
    ensures
        a == b,
    decreases a,
{
    if a < 10 && b < 10 {
        assert(dec_digits(a) == seq![digit_char(a)]);
        assert(dec_digits(b) == seq![digit_char(b)]);
        assert(seq![digit_char(a)][0] == seq![digit_char(b)][0]);
        assert(digit_char(a) == digit_char(b));
    } else if a < 10 && b >= 10 {
        lemma_dec_digits_nonempty(b / 10);
        assert(dec_digits(b).len() >= 2);
    } else if a >= 10 && b < 10 {
        lemma_dec_digits_nonempty(a / 10);
        assert(dec_digits(a).len() >= 2);
    } else {
        assert(dec_digits(a).last() == digit_char(a % 10));
        assert(dec_digits(b).last() == digit_char(b % 10));
        assert(a % 10 == b % 10);
        assert(dec_digits(a).drop_last() =~= dec_digits(a / 10));
        assert(dec_digits(b).drop_last() =~= dec_digits(b / 10));
        lemma_dec_digits_injective(a / 10, b / 10);
    }
}

/// With one prefix, different identity numbers give different names.
pub proof fn lemma_guest_name_injective(prefix: Seq<char>, a: int, b: int)
    requires
        0 <= a,
        0 <= b,
        guest_name_text(prefix, a) == guest_name_text(prefix, b),
    ensures
        a == b,
{
    let head = prefix + seq!['-'];
    assert(dec_digits(a) =~= guest_name_text(prefix, a).skip(head.len() as int));
    assert(dec_digits(b) =~= guest_name_text(prefix, b).skip(head.len() as int));
    lemma_dec_digits_injective(a, b);
}

} // verus!
