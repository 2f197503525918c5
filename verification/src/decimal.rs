//! Decimal rendering of unsigned integers and right justification.

use vstd::prelude::*;

verus! {

/// The character that stands for the decimal digit `d`.
pub open spec fn digit(d: nat) -> char
    recommends
        d < 10,
{
    ('0' as nat + d) as char
}

/// The decimal digits of `n`, most significant first, without leading zeros.
pub open spec fn decimal(n: nat) -> Seq<char>
    decreases n,
{
    if n < 10 {
        seq![digit(n)]
    } else {
        decimal(n / 10).push(digit(n % 10))
    }
}

/// `s` padded on the left with spaces up to `width` characters; a longer
/// `s` is left as it is.
pub open spec fn right_justified(s: Seq<char>, width: nat) -> Seq<char> {
    if s.len() >= width {
        s
    } else {
        Seq::new((width - s.len()) as nat, |i: int| ' ') + s
    }
}

fn digit_str(d: usize) -> (s: &'static str)
    requires
        d < 10,
    ensures
        s@ == seq![digit(d as nat)],
{
    proof {
        reveal_strlit("0");
        reveal_strlit("1");
        reveal_strlit("2");
        reveal_strlit("3");
        reveal_strlit("4");
        reveal_strlit("5");
        reveal_strlit("6");
        reveal_strlit("7");
        reveal_strlit("8");
        reveal_strlit("9");
    }
    let s = match d {
        0 => "0",
        1 => "1",
        2 => "2",
        3 => "3",
        4 => "4",
        5 => "5",
        6 => "6",
        7 => "7",
        8 => "8",
        _ => "9",
    };
    assert(s@ =~= seq![digit(d as nat)]);
    s
}

/// Appends the decimal digits of `n` to `out`.
pub fn push_decimal(out: &mut String, n: usize)
    ensures
        final(out)@ == old(out)@ + decimal(n as nat),
    decreases n,
{
    if n >= 10 {
        push_decimal(out, n / 10);
    }
    out.append(digit_str(n % 10));
}

/// The decimal digits of `n` as a string.
pub fn to_decimal(n: usize) -> (r: String)
    ensures
        r@ == decimal(n as nat),
{
    let mut out = String::new();
    push_decimal(&mut out, n);
    out
}

/// Pads `s` on the left with spaces so that it fills `width` characters.
/// The width counts characters, not bytes, and never truncates.
pub fn right_justify(s: &str, width: usize) -> (r: String)
    ensures
        r@ == right_justified(s@, width as nat),
{
    let len = s.unicode_len();
    let mut out = String::new();
    let mut k = len;
    while k < width
        invariant
            len <= k,
            k == len || k <= width,
            out@ == Seq::new((k - len) as nat, |i: int| ' '),
        decreases width - k,
    {
        proof {
            reveal_strlit(" ");
        }
        out.append(" ");
        k += 1;
        assert(out@ =~= Seq::new((k - len) as nat, |i: int| ' '));
    }
    let ghost pad = out@;
    out.append(s);
    proof {
        if s@.len() >= width {
            assert(pad =~= Seq::<char>::empty());
            assert(out@ =~= s@);
        } else {
            assert(pad =~= Seq::new((width - s@.len()) as nat, |i: int| ' '));
        }
    }
    out
}

/// Ten to the power `k`.
pub open spec fn pow10(k: nat) -> nat
    decreases k,
{
    if k == 0 {
        1
    } else {
        10 * pow10((k - 1) as nat)
    }
}

/// The number that a sequence of decimal digits stands for.
pub open spec fn decimal_value(s: Seq<char>) -> nat
    decreases s.len(),
{
    if s.len() == 0 {
        0
    } else {
        (10 * decimal_value(s.drop_last()) + (s.last() as nat - '0' as nat)) as nat
    }
}

/// Every character of `decimal(n)` is one of `'0'..='9'`, and there is at
/// least one.
pub proof fn lemma_decimal_digits(n: nat)
    ensures
        decimal(n).len() >= 1,
        forall|i: int| 0 <= i < decimal(n).len() ==> '0' <= #[trigger] decimal(n)[i] <= '9',
    decreases n,
{
    if n >= 10 {
        lemma_decimal_digits(n / 10);
    }
}

/// Reading `decimal(n)` back as a number gives `n`.
pub proof fn lemma_decimal_value(n: nat)
    ensures
        decimal_value(decimal(n)) == n,
    decreases n,
{
    if n < 10 {
        assert(decimal(n).drop_last() =~= Seq::<char>::empty());
        assert(decimal_value(decimal(n).drop_last()) == 0);
    } else {
        lemma_decimal_value(n / 10);
        assert(decimal(n).drop_last() =~= decimal(n / 10));
    }
}

/// Only zero is written with a leading `'0'`.
pub proof fn lemma_decimal_leading(n: nat)
    ensures
        decimal(n)[0] == '0' <==> n == 0,
    decreases n,
{
    if n >= 10 {
        lemma_decimal_leading(n / 10);
        lemma_decimal_digits(n / 10);
    }
}

/// `decimal(n)` has at most `k` digits exactly when `n` is below `10^k`.
pub proof fn lemma_decimal_len(n: nat, k: nat)
    requires
        k >= 1,
    ensures
        decimal(n).len() <= k <==> n < pow10(k),
    decreases n,
{
    reveal_with_fuel(pow10, 2);
    if n < 10 {
        lemma_pow10_grows(1, k);
    } else {
        lemma_decimal_digits(n / 10);
        if k == 1 {
        } else {
            lemma_decimal_len(n / 10, (k - 1) as nat);
        }
    }
}

/// `pow10` is monotonic.
pub proof fn lemma_pow10_grows(j: nat, k: nat)
    requires
        j <= k,
    ensures
        1 <= pow10(j) <= pow10(k),
    decreases k,
{
    if k == 0 {
    } else if j == k {
        lemma_pow10_grows(0, (k - 1) as nat);
    } else {
        lemma_pow10_grows(j, (k - 1) as nat);
    }
}

/// A right-justified text is as long as the wider of the text and the
/// field; it ends with the text, and everything before it is a space.
pub proof fn lemma_right_justified(s: Seq<char>, width: nat)
    ensures
        right_justified(s, width).len() == if s.len() >= width { s.len() } else { width },
        right_justified(s, width).subrange(
            right_justified(s, width).len() - s.len(),
            right_justified(s, width).len() as int,
        ) == s,
        forall|i: int|
            0 <= i < right_justified(s, width).len() - s.len() ==> #[trigger] right_justified(
                s,
                width,
            )[i] == ' ',
{
    let r = right_justified(s, width);
    assert(r.subrange(r.len() - s.len(), r.len() as int) =~= s);
}

} // verus!
