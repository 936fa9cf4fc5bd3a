use vstd::prelude::*;
use vstd::string::*;

verus! {

/// The digits in ascending value, upper case.
pub open spec fn upper_digits() -> Seq<char> {
    "0123456789ABCDEF"@
}

/// The digits in ascending value, lower case.
pub open spec fn lower_digits() -> Seq<char> {
    "0123456789abcdef"@
}

/// The character that writes the digit `d` (`d < 16`).
pub open spec fn digit_char(d: nat, upper: bool) -> char {
    if upper {
        upper_digits()[d as int]
    } else {
        lower_digits()[d as int]
    }
}

/// The lowest `n` hexadecimal digits of `v`, most significant first.
pub open spec fn hex_fixed(v: nat, n: nat, upper: bool) -> Seq<char>
    decreases n,
{
    if n == 0 {
        Seq::empty()
    } else {
        hex_fixed(v / 16, (n - 1) as nat, upper).push(digit_char(v % 16, upper))
    }
}

/// How many hexadecimal digits `v` takes without leading zeros (at least one).
pub open spec fn hex_len(v: nat) -> nat
    decreases v,
{
    if v < 16 {
        1
    } else {
        1 + hex_len(v / 16)
    }
}

/// `16` to the power `k`.
pub open spec fn pow16(k: nat) -> nat
    decreases k,
{
    if k == 0 {
        1
    } else {
        16 * pow16((k - 1) as nat)
    }
}

/// A value below `16^k` takes at most `k` hexadecimal digits.
pub proof fn lemma_hex_len_bound(v: nat, k: nat)
    requires
        1 <= k,
        v < pow16(k),
    ensures
        hex_len(v) <= k,
    decreases k,
{
    if v >= 16 {
        let p = pow16((k - 1) as nat);
        assert(pow16(k) == 16 * p);
        if k == 1 {
            assert(pow16(0) == 1);
        }
        assert(v / 16 < p) by (nonlinear_arith)
            requires
                v < 16 * p,
        ;
        lemma_hex_len_bound(v / 16, (k - 1) as nat);
    }
}

/// `v` in hexadecimal with a `0x` prefix, zero-padded to at least `min_digits` digits:
/// what `{:#0wX}` (upper) or `{:#0wx}` (lower) prints with `w == min_digits + 2`.
pub open spec fn hex_prefixed(v: nat, min_digits: nat, upper: bool) -> Seq<char> {
    let n = if hex_len(v) < min_digits {
        min_digits
    } else {
        hex_len(v)
    };
    "0x"@ + hex_fixed(v, n, upper)
}

/// The decimal digits of `v` without leading zeros, most significant first.
pub open spec fn dec(v: nat) -> Seq<char>
    decreases v,
{
    if v < 10 {
        seq![digit_char(v, true)]
    } else {
        dec(v / 10).push(digit_char(v % 10, true))
    }
}

/// `k` spaces.
pub open spec fn spaces(k: nat) -> Seq<char> {
    Seq::new(k, |i: int| ' ')
}

/// `v` in decimal, right-aligned in a field of `width` characters: what `{:width}` prints.
pub open spec fn dec_right(v: nat, width: nat) -> Seq<char> {
    let d = dec(v);
    if d.len() < width {
        spaces((width - d.len()) as nat) + d
    } else {
        d
    }
}

/// `hex_fixed` writes exactly `n` digits.
pub proof fn lemma_hex_fixed_len(v: nat, n: nat, upper: bool)
    ensures
        hex_fixed(v, n, upper).len() == n,
    decreases n,
{
    if n > 0 {
        lemma_hex_fixed_len(v / 16, (n - 1) as nat, upper);
    }
}

/// Distinct digits are written with distinct characters.
pub proof fn lemma_digit_char_injective(a: nat, b: nat, upper: bool)
    requires
        a < 16,
        b < 16,
        digit_char(a, upper) == digit_char(b, upper),
    ensures
        a == b,
{
    reveal_strlit("0123456789ABCDEF");
    reveal_strlit("0123456789abcdef");
    assert(upper_digits() =~= seq![
        '0', '1', '2', '3', '4', '5', '6', '7', '8', '9', 'A', 'B', 'C', 'D', 'E', 'F',
    ]);
    assert(lower_digits() =~= seq![
        '0', '1', '2', '3', '4', '5', '6', '7', '8', '9', 'a', 'b', 'c', 'd', 'e', 'f',
    ]);
}

/// Two values written with the same `n` hexadecimal digits agree in their lowest `n` digits:
/// the digits determine the value they were written from.
pub proof fn lemma_hex_fixed_injective(a: nat, b: nat, n: nat, upper: bool)
    requires
        hex_fixed(a, n, upper) == hex_fixed(b, n, upper),
    ensures
        a % pow16(n) == b % pow16(n),
    decreases n,
{
    if n == 0 {
        assert(pow16(0) == 1);
    } else {
        let m = (n - 1) as nat;
        let sa = hex_fixed(a / 16, m, upper);
        let sb = hex_fixed(b / 16, m, upper);
        lemma_hex_fixed_len(a / 16, m, upper);
        lemma_hex_fixed_len(b / 16, m, upper);
        assert(hex_fixed(a, n, upper)[m as int] == digit_char(a % 16, upper));
        assert(hex_fixed(b, n, upper)[m as int] == digit_char(b % 16, upper));
        lemma_digit_char_injective(a % 16, b % 16, upper);
        assert(sa =~= hex_fixed(a, n, upper).subrange(0, m as int));
        assert(sb =~= hex_fixed(b, n, upper).subrange(0, m as int));
        lemma_hex_fixed_injective(a / 16, b / 16, m, upper);
        let p = pow16(m);
        assert(pow16(n) == 16 * p);
        assert(p > 0) by {
            lemma_pow16_positive(m);
        }
        vstd::arithmetic::div_mod::lemma_breakdown(a as int, 16, p as int);
        vstd::arithmetic::div_mod::lemma_breakdown(b as int, 16, p as int);
    }
}

/// `16^k` is positive.
pub proof fn lemma_pow16_positive(k: nat)
    ensures
        pow16(k) > 0,
    decreases k,
{
    if k > 0 {
        lemma_pow16_positive((k - 1) as nat);
    }
}

/// A 64-bit value printed as `{:#018X}` (or `{:#018x}`) always takes 18 characters: the
/// prefix and 16 digits.
pub proof fn lemma_u64_hex_width(v: u64, upper: bool)
    ensures
        hex_prefixed(v as nat, 16, upper).len() == 18,
        hex_prefixed(v as nat, 16, upper) == "0x"@ + hex_fixed(v as nat, 16, upper),
{
    reveal_with_fuel(pow16, 17);
    assert(pow16(16) == 0x1_0000_0000_0000_0000);
    lemma_hex_len_bound(v as nat, 16);
    lemma_hex_fixed_len(v as nat, 16, upper);
    reveal_strlit("0x");
}

/// Two 64-bit values that print the same as `{:#018X}` are the same value.
pub proof fn lemma_u64_hex_injective(a: u64, b: u64, upper: bool)
    requires
        hex_prefixed(a as nat, 16, upper) == hex_prefixed(b as nat, 16, upper),
    ensures
        a == b,
{
    lemma_u64_hex_width(a, upper);
    lemma_u64_hex_width(b, upper);
    reveal_strlit("0x");
    assert(hex_fixed(a as nat, 16, upper) =~= hex_prefixed(a as nat, 16, upper).subrange(2, 18));
    assert(hex_fixed(b as nat, 16, upper) =~= hex_prefixed(b as nat, 16, upper).subrange(2, 18));
    lemma_hex_fixed_injective(a as nat, b as nat, 16, upper);
    reveal_with_fuel(pow16, 17);
    assert(pow16(16) == 0x1_0000_0000_0000_0000);
    vstd::arithmetic::div_mod::lemma_small_mod(a as nat, 0x1_0000_0000_0000_0000);
    vstd::arithmetic::div_mod::lemma_small_mod(b as nat, 0x1_0000_0000_0000_0000);
}

/// Digits are written in ASCII: `0`-`9` for 0 to 9, then `A`-`F` (upper case) or `a`-`f`.
pub proof fn lemma_digit_char_ascii(d: nat, upper: bool)
    requires
        d < 16,
    ensures
        digit_char(d, upper) as int == if d < 10 {
            48 + d
        } else if upper {
            55 + d
        } else {
            87 + d
        },
{
    reveal_strlit("0123456789ABCDEF");
    reveal_strlit("0123456789abcdef");
    assert(upper_digits() =~= seq![
        '0', '1', '2', '3', '4', '5', '6', '7', '8', '9', 'A', 'B', 'C', 'D', 'E', 'F',
    ]);
    assert(lower_digits() =~= seq![
        '0', '1', '2', '3', '4', '5', '6', '7', '8', '9', 'a', 'b', 'c', 'd', 'e', 'f',
    ]);
}

/// Position `i` from the right of `n` hexadecimal digits of `v` writes `(v / 16^i) % 16`.
pub proof fn lemma_hex_fixed_digit(v: nat, n: nat, upper: bool, i: nat)
    requires
        i < n,
    ensures
        hex_fixed(v, n, upper).len() == n,
        hex_fixed(v, n, upper)[n - 1 - i] == digit_char((v / pow16(i)) % 16, upper),
    decreases n,
{
    lemma_hex_fixed_len(v, n, upper);
    let m = (n - 1) as nat;
    lemma_hex_fixed_len(v / 16, m, upper);
    if i == 0 {
        assert(pow16(0) == 1);
    } else {
        lemma_hex_fixed_digit(v / 16, m, upper, (i - 1) as nat);
        assert(hex_fixed(v, n, upper)[n - 1 - i] == hex_fixed(v / 16, m, upper)[m - 1 - (i - 1)]);
        lemma_pow16_positive((i - 1) as nat);
        vstd::arithmetic::div_mod::lemma_div_denominator(v as int, 16, pow16((i - 1) as nat) as int);
        assert(pow16(i) == 16 * pow16((i - 1) as nat));
    }
}

/// `hex_len(v)` is the number of digits `v` needs: `v < 16^len`, and without its top digit
/// it would not fit (`v >= 16^(len - 1)` unless `len` is 1).
pub proof fn lemma_hex_len_exact(v: nat)
    ensures
        hex_len(v) >= 1,
        v < pow16(hex_len(v)),
        hex_len(v) > 1 ==> v >= pow16((hex_len(v) - 1) as nat),
    decreases v,
{
    if v < 16 {
        assert(pow16(1) == 16 * pow16(0));
    } else {
        lemma_hex_len_exact(v / 16);
        let l = hex_len(v / 16);
        assert(pow16(l + 1) == 16 * pow16(l));
        assert(pow16(l) == 16 * pow16((l - 1) as nat)) by {
            if l == 1 {
                assert(pow16(1) == 16 * pow16(0));
            }
        }
        assert(v < pow16(l + 1)) by (nonlinear_arith)
            requires
                v / 16 < pow16(l),
                pow16(l + 1) == 16 * pow16(l),
        ;
        if l > 1 {
            assert(v >= pow16(l)) by (nonlinear_arith)
                requires
                    v / 16 >= pow16((l - 1) as nat),
                    pow16(l) == 16 * pow16((l - 1) as nat),
            ;
        } else {
            assert(pow16(1) == 16 * pow16(0));
        }
    }
}

/// `hex_prefixed` is `0x` followed by the digits of `v`, zero-padded on the left to at least
/// `min_digits`: as many digits as `v` needs when that is more.
pub proof fn lemma_hex_prefixed_shape(v: nat, min_digits: nat, upper: bool)
    ensures
        ({
            let s = hex_prefixed(v, min_digits, upper);
            let n = (s.len() - 2) as nat;
            &&& s.len() >= 3
            &&& s[0] == '0' && s[1] == 'x'
            &&& n >= min_digits
            &&& v < pow16(n)
            &&& (n > min_digits && n > 1 ==> v >= pow16((n - 1) as nat))
            &&& forall|i: nat| i < n ==> #[trigger] s[s.len() - 1 - i] == digit_char(
                (v / pow16(i)) % 16,
                upper,
            )
        }),
{
    reveal_strlit("0x");
    lemma_hex_len_exact(v);
    let n = if hex_len(v) < min_digits {
        min_digits
    } else {
        hex_len(v)
    };
    let s = hex_prefixed(v, min_digits, upper);
    let h = hex_fixed(v, n, upper);
    lemma_hex_fixed_len(v, n, upper);
    assert(s == "0x"@ + h);
    assert(s.len() == n + 2);
    assert(s[0] == '0' && s[1] == 'x');
    if hex_len(v) < min_digits {
        lemma_pow16_monotone(hex_len(v), n);
    }
    assert(v < pow16(n));
    assert(n > min_digits && n > 1 ==> v >= pow16((n - 1) as nat));
    assert forall|i: nat| i < n implies #[trigger] s[s.len() - 1 - i] == digit_char(
        (v / pow16(i)) % 16,
        upper,
    ) by {
        lemma_hex_fixed_digit(v, n, upper, i);
        assert(s[s.len() - 1 - i] == h[n - 1 - i]);
    }
}

/// `16^a <= 16^b` when `a <= b`.
pub proof fn lemma_pow16_monotone(a: nat, b: nat)
    requires
        a <= b,
    ensures
        pow16(a) <= pow16(b),
    decreases b,
{
    if a < b {
        lemma_pow16_monotone(a, (b - 1) as nat);
        lemma_pow16_positive((b - 1) as nat);
    }
}

/// `10` to the power `k`.
pub open spec fn pow10(k: nat) -> nat
    decreases k,
{
    if k == 0 {
        1
    } else {
        10 * pow10((k - 1) as nat)
    }
}

/// The decimal text of `v` has exactly as many digits as `v` needs (`10^(len - 1) <= v <
/// 10^len`, or the single digit `0`), and position `i` from the right writes
/// `(v / 10^i) % 10`.
pub proof fn lemma_dec_digits(v: nat)
    ensures
        dec(v).len() >= 1,
        v < pow10(dec(v).len()),
        dec(v).len() > 1 ==> v >= pow10((dec(v).len() - 1) as nat),
        forall|i: nat| i < dec(v).len() ==> #[trigger] dec(v)[dec(v).len() - 1 - i] == digit_char(
            (v / pow10(i)) % 10,
            true,
        ),
    decreases v,
{
    if v < 10 {
        assert(pow10(1) == 10 * pow10(0));
        assert forall|i: nat| i < dec(v).len() implies #[trigger] dec(v)[dec(v).len() - 1 - i] == digit_char(
            (v / pow10(i)) % 10,
            true,
        ) by {
            assert(i == 0);
            assert(pow10(0) == 1);
        }
    } else {
        let w = v / 10;
        lemma_dec_digits(w);
        let l = dec(w).len();
        assert(dec(v).len() == l + 1);
        assert(pow10(l + 1) == 10 * pow10(l));
        assert(v < pow10(l + 1)) by (nonlinear_arith)
            requires
                w == v / 10,
                w < pow10(l),
                pow10(l + 1) == 10 * pow10(l),
        ;
        assert(v >= pow10(l)) by {
            if l > 1 {
                assert(pow10(l) == 10 * pow10((l - 1) as nat));
                assert(v >= pow10(l)) by (nonlinear_arith)
                    requires
                        w == v / 10,
                        w >= pow10((l - 1) as nat),
                        pow10(l) == 10 * pow10((l - 1) as nat),
                ;
            } else {
                assert(pow10(1) == 10 * pow10(0));
            }
        }
        assert forall|i: nat| i < dec(v).len() implies #[trigger] dec(v)[dec(v).len() - 1 - i] == digit_char(
            (v / pow10(i)) % 10,
            true,
        ) by {
            if i == 0 {
                assert(pow10(0) == 1);
            } else {
                let j = (i - 1) as nat;
                assert(dec(v)[dec(v).len() - 1 - i] == dec(w)[l - 1 - j]);
                assert(pow10(i) == 10 * pow10(j));
                lemma_pow10_positive(j);
                vstd::arithmetic::div_mod::lemma_div_denominator(v as int, 10, pow10(j) as int);
            }
        }
    }
}

/// `10^k` is positive.
pub proof fn lemma_pow10_positive(k: nat)
    ensures
        pow10(k) > 0,
    decreases k,
{
    if k > 0 {
        lemma_pow10_positive((k - 1) as nat);
    }
}

/// `dec_right` pads the decimal text of `v` on the left with spaces to `width` characters,
/// and leaves it alone when it is already that long.
pub proof fn lemma_dec_right_shape(v: nat, width: nat)
    ensures
        dec_right(v, width).len() == if dec(v).len() < width {
            width
        } else {
            dec(v).len()
        },
        dec_right(v, width).subrange(
            dec_right(v, width).len() - dec(v).len(),
            dec_right(v, width).len() as int,
        ) == dec(v),
        forall|i: int|
            0 <= i < dec_right(v, width).len() - dec(v).len() ==> #[trigger] dec_right(v, width)[i]
                == ' ',
{
    let s = dec_right(v, width);
    assert(s.subrange(s.len() - dec(v).len(), s.len() as int) =~= dec(v));
}

/// The one-character string that writes the digit `d`.
fn digit_str(d: u64, upper: bool) -> (s: &'static str)
    requires
        d < 16,
    ensures
        s@ == seq![digit_char(d as nat, upper)],
{
    let table = if upper {
        "0123456789ABCDEF"
    } else {
        "0123456789abcdef"
    };
    proof {
        reveal_strlit("0123456789ABCDEF");
        reveal_strlit("0123456789abcdef");
    }
    let s = table.substring_char(d as usize, d as usize + 1);
    assert(s@ =~= seq![digit_char(d as nat, upper)]);
    s
}

/// Appends the lowest `n` hexadecimal digits of `v`.
pub fn push_hex_fixed(s: &mut String, v: u64, n: u64, upper: bool)
    ensures
        final(s)@ == old(s)@ + hex_fixed(v as nat, n as nat, upper),
    decreases n,
{
    if n > 0 {
        push_hex_fixed(s, v / 16, n - 1, upper);
        s.append(digit_str(v % 16, upper));
    }
    assert(final(s)@ =~= old(s)@ + hex_fixed(v as nat, n as nat, upper));
}

/// The number of hexadecimal digits of `v` without leading zeros.
pub fn hex_digit_count(v: u64) -> (n: u64)
    ensures
        n == hex_len(v as nat),
        n <= 16,
    decreases v,
{
    proof {
        reveal_with_fuel(pow16, 17);
        assert(pow16(16) == 0x1_0000_0000_0000_0000);
        lemma_hex_len_bound(v as nat, 16);
    }
    if v < 16 {
        1
    } else {
        1 + hex_digit_count(v / 16)
    }
}

/// Appends `v` as `0x` and at least `min_digits` hexadecimal digits.
pub fn push_hex_prefixed(s: &mut String, v: u64, min_digits: u64, upper: bool)
    ensures
        final(s)@ == old(s)@ + hex_prefixed(v as nat, min_digits as nat, upper),
{
    s.append("0x");
    let len = hex_digit_count(v);
    let n = if len < min_digits {
        min_digits
    } else {
        len
    };
    push_hex_fixed(s, v, n, upper);
    assert(final(s)@ =~= old(s)@ + hex_prefixed(v as nat, min_digits as nat, upper));
}

/// Appends `v` in decimal.
pub fn push_dec(s: &mut String, v: u64)
    ensures
        final(s)@ == old(s)@ + dec(v as nat),
    decreases v,
{
    if v >= 10 {
        push_dec(s, v / 10);
    }
    s.append(digit_str(v % 10, true));
    assert(final(s)@ =~= old(s)@ + dec(v as nat));
}

} // verus!
