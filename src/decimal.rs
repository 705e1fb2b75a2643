use vstd::prelude::*;

verus! {

/// `b` is an ASCII decimal digit.
pub open spec fn is_digit(b: u8) -> bool {
    48 <= b <= 57
}

/// Every byte of `s` is a decimal digit.
pub open spec fn all_digits(s: Seq<u8>) -> bool {
    forall|i: int| 0 <= i < s.len() ==> is_digit(#[trigger] s[i])
}

/// The number that the digits `s` spell, most significant first.
pub open spec fn digits_value(s: Seq<u8>) -> nat
    decreases s.len(),
{
    if s.len() == 0 {
        0
    } else {
        digits_value(s.drop_last()) * 10 + (s.last() as int - 48) as nat
    }
}

/// Ten to the power `n`.
pub open spec fn pow10(n: nat) -> nat
    decreases n,
{
    if n == 0 {
        1
    } else {
        10 * pow10((n - 1) as nat)
    }
}

/// `s` is `whole.frac` with the point at `p`: at least one digit before
/// it, one to four after it.
pub open spec fn point_at(s: Seq<u8>, p: int) -> bool {
    &&& 0 < p
    &&& p + 1 < s.len()
    &&& s.len() - p - 1 <= 4
    &&& s[p] == 46
    &&& all_digits(s.subrange(0, p))
    &&& all_digits(s.subrange(p + 1, s.len() as int))
}

/// The value, in ten-thousandths, of `s` read with its point at `p`.
pub open spec fn value_with_point(s: Seq<u8>, p: int) -> int {
    (digits_value(s.subrange(0, p)) * 10000 + digits_value(s.subrange(p + 1, s.len() as int)) * pow10(
        (4 - (s.len() - p - 1)) as nat,
    )) as int
}

/// The text `s` denotes the amount `v` (in ten-thousandths): it is a
/// non-empty run of digits, or digits, a point and one to four digits.
pub open spec fn denotes_amount(s: Seq<u8>, v: int) -> bool {
    ||| s.len() > 0 && all_digits(s) && v == digits_value(s) * 10000
    ||| exists|p: int| point_at(s, p) && v == value_with_point(s, p)
}

/// A cap above every whole part that can still give an `i64` amount.
const WHOLE_CAP: u64 = 1_000_000_000_000_000;

proof fn lemma_pow10_bound(n: nat)
    requires
        n <= 4,
    ensures
        1 <= pow10(n) <= 10000,
        pow10((4 - n) as nat) * pow10(n) == 10000,
{
    reveal_with_fuel(pow10, 5);
    assert(pow10(0) == 1 && pow10(1) == 10 && pow10(2) == 100 && pow10(3) == 1000 && pow10(4) == 10000);
    let m = (4 - n) as nat;
    if n == 0 {
        assert(m == 4);
        assert(pow10(m) * pow10(n) == pow10(4) * 1);
    } else if n == 1 {
        assert(m == 3);
        assert(pow10(m) * pow10(n) == pow10(3) * 10);
    } else if n == 2 {
        assert(m == 2);
        assert(pow10(m) * pow10(n) == pow10(2) * 100);
    } else if n == 3 {
        assert(m == 1);
        assert(pow10(m) * pow10(n) == pow10(1) * 1000);
    } else {
        assert(m == 0);
        assert(pow10(m) * pow10(n) == pow10(0) * 10000);
    }
}

/// Reads a non-negative decimal amount with at most four fractional
/// digits (`"12"`, `"0.5"`, `"1.1234"`) as a number of ten-thousandths.
/// Gives `None` for any other text and for amounts beyond `i64`.
pub fn parse_amount(s: &[u8]) -> (r: Option<i64>)
    ensures
        match r {
            Some(v) => denotes_amount(s@, v as int),
            None => forall|v: int| i64::MIN <= v <= i64::MAX ==> !denotes_amount(s@, v),
        },
{
    let n = s.len();
    let mut i: usize = 0;
    let mut whole: u64 = 0;
    while i < n && 48 <= s[i] && s[i] <= 57
        invariant
            i <= n == s@.len(),
            all_digits(s@.subrange(0, i as int)),
            whole as int == if digits_value(s@.subrange(0, i as int)) < WHOLE_CAP {
                digits_value(s@.subrange(0, i as int)) as int
            } else {
                WHOLE_CAP as int
            },
        decreases n - i,
    {
        assert(s@.subrange(0, i + 1).drop_last() =~= s@.subrange(0, i as int));
        let d = (s[i] - 48) as u64;
        whole = if whole >= WHOLE_CAP {
            WHOLE_CAP
        } else {
            let w = whole * 10 + d;
            if w >= WHOLE_CAP {
                WHOLE_CAP
            } else {
                w
            }
        };
        i = i + 1;
    }
    let ghost wv = digits_value(s@.subrange(0, i as int));
    if i == 0 {
        proof {
            assert forall|v: int| i64::MIN <= v <= i64::MAX implies !denotes_amount(s@, v) by {
                if n > 0 {
                    assert(!is_digit(s@[0]));
                }
                assert forall|p: int| !point_at(s@, p) by {
                    if point_at(s@, p) {
                        assert(is_digit(s@.subrange(0, p)[0]));
                    }
                }
            }
        }
        return None;
    }
    if i == n {
        assert(s@.subrange(0, i as int) =~= s@);
        if whole >= WHOLE_CAP || whole * 10000 > i64::MAX as u64 {
            return None;
        }
        return Some((whole * 10000) as i64);
    }
    assert(!is_digit(s@[i as int]));
    // The point, if any, can only stand where the leading digits end.
    assert forall|p: int| point_at(s@, p) implies p == i by {
        if p < i {
            assert(s@.subrange(0, i as int)[p] == s@[p]);
        } else if p > i {
            assert(s@.subrange(0, p)[i as int] == s@[i as int]);
        }
    }
    assert(!all_digits(s@));
    if s[i] != 46 {
        return None;
    }
    let start = i + 1;
    let mut j: usize = start;
    let mut frac: u64 = 0;
    while j < n && j - start < 5 && 48 <= s[j] && s[j] <= 57
        invariant
            start <= j <= n == s@.len(),
            j - start <= 5,
            all_digits(s@.subrange(start as int, j as int)),
            frac as int == digits_value(s@.subrange(start as int, j as int)),
            frac < pow10((j - start) as nat),
            pow10((j - start) as nat) <= 100000,
        decreases n - j,
    {
        assert(s@.subrange(start as int, j + 1).drop_last() =~= s@.subrange(start as int, j as int));
        proof {
            reveal_with_fuel(pow10, 6);
        }
        frac = frac * 10 + (s[j] - 48) as u64;
        j = j + 1;
    }
    let count = j - start;
    if j < n || count == 0 || count > 4 {
        proof {
            assert forall|p: int| !point_at(s@, p) by {
                if point_at(s@, p) {
                    assert(p == i);
                    if j < n && count < 5 {
                        assert(s@.subrange(p + 1, n as int)[j - start] == s@[j as int]);
                    }
                }
            }
        }
        return None;
    }
    assert(s@.subrange(start as int, j as int) =~= s@.subrange(i + 1, n as int));
    assert(point_at(s@, i as int));
    proof {
        lemma_pow10_bound(count as nat);
    }
    let scale: u64 = if count == 1 {
        1000
    } else if count == 2 {
        100
    } else if count == 3 {
        10
    } else {
        1
    };
    assert(scale == pow10((4 - count) as nat)) by {
        reveal_with_fuel(pow10, 5);
    }
    if whole >= WHOLE_CAP {
        assert(value_with_point(s@, i as int) >= WHOLE_CAP * 10000);
        return None;
    }
    assert(frac * scale < 10000) by (nonlinear_arith)
        requires
            frac < pow10(count as nat),
            scale * pow10(count as nat) == 10000,
            scale >= 1,
    ;
    let v = whole * 10000 + frac * scale;
    if v > i64::MAX as u64 {
        return None;
    }
    Some(v as i64)
}

/// The ASCII digit for `d`.
pub open spec fn digit_byte(d: int) -> u8 {
    (d + 48) as u8
}

/// The decimal digits of `n`, without leading zeros (`"0"` for zero).
pub open spec fn whole_text(n: nat) -> Seq<u8>
    decreases n,
{
    if n < 10 {
        seq![digit_byte(n as int)]
    } else {
        whole_text(n / 10).push(digit_byte((n % 10) as int))
    }
}

/// `s` without its trailing `'0'` bytes.
pub open spec fn trim_trailing_zeros(s: Seq<u8>) -> Seq<u8>
    decreases s.len(),
{
    if s.len() > 0 && s.last() == 48 {
        trim_trailing_zeros(s.drop_last())
    } else {
        s
    }
}

/// The four fractional digits of an amount whose fractional part is `f`
/// ten-thousandths.
pub open spec fn four_digits(f: nat) -> Seq<u8> {
    seq![
        digit_byte((f / 1000) as int),
        digit_byte((f / 100 % 10) as int),
        digit_byte((f / 10 % 10) as int),
        digit_byte((f % 10) as int),
    ]
}

/// The shortest decimal text of the amount `v` (in ten-thousandths): a
/// minus sign if negative, the whole part, and the fractional digits
/// without trailing zeros after a point, if any are left (`-0.5`, `2`,
/// `0.5001`).
pub open spec fn amount_text(v: int) -> Seq<u8> {
    let m = if v < 0 {
        -v
    } else {
        v
    };
    (if v < 0 {
        seq![45u8]
    } else {
        Seq::<u8>::empty()
    }) + whole_text((m / 10000) as nat) + (if m % 10000 == 0 {
        Seq::<u8>::empty()
    } else {
        seq![46u8] + trim_trailing_zeros(four_digits((m % 10000) as nat))
    })
}

fn push_whole_text(n: u64, out: &mut Vec<u8>)
    ensures
        final(out)@ == old(out)@ + whole_text(n as nat),
    decreases n,
{
    if n >= 10 {
        push_whole_text(n / 10, out);
    }
    let ghost before = out@;
    out.push((n % 10) as u8 + 48);
    proof {
        if n >= 10 {
            assert(old(out)@ + whole_text(n as nat) =~= before.push(digit_byte((n % 10) as int)));
        } else {
            assert(old(out)@ + whole_text(n as nat) =~= out@);
        }
    }
}

/// Renders an amount in ten-thousandths as `amount_text` says.
pub fn format_amount(v: i64) -> (r: Vec<u8>)
    ensures
        r@ == amount_text(v as int),
{
    let mut out: Vec<u8> = Vec::new();
    let m: u64 = if v < 0 {
        (0i128 - v as i128) as u64
    } else {
        v as u64
    };
    if v < 0 {
        out.push(45);
    }
    let ghost sign = out@;
    push_whole_text(m / 10000, &mut out);
    let f = m % 10000;
    if f != 0 {
        let ghost head = out@;
        out.push(46);
        let mut digits: Vec<u8> = Vec::new();
        digits.push((f / 1000) as u8 + 48);
        digits.push((f / 100 % 10) as u8 + 48);
        digits.push((f / 10 % 10) as u8 + 48);
        digits.push((f % 10) as u8 + 48);
        assert(digits@ =~= four_digits(f as nat));
        while digits.len() > 0 && digits[digits.len() - 1] == 48
            invariant
                trim_trailing_zeros(digits@) == trim_trailing_zeros(four_digits(f as nat)),
            decreases digits@.len(),
        {
            let ghost d = digits@;
            digits.pop();
            assert(digits@ =~= d.drop_last());
        }
        let mut k: usize = 0;
        while k < digits.len()
            invariant
                k <= digits@.len(),
                out@ == head.push(46) + digits@.subrange(0, k as int),
            decreases digits@.len() - k,
        {
            out.push(digits[k]);
            k = k + 1;
            assert(out@ =~= head.push(46) + digits@.subrange(0, k as int));
        }
        assert(digits@.subrange(0, k as int) =~= digits@);
        assert(out@ =~= sign + whole_text((m / 10000) as nat) + (seq![46u8] + trim_trailing_zeros(
            four_digits((m % 10000) as nat),
        )));
    } else {
        assert(out@ =~= sign + whole_text((m / 10000) as nat) + Seq::<u8>::empty());
    }
    out
}

} // verus!
