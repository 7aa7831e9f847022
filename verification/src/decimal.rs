//! Decimal text of integers, as `to_string` writes it and as `str::parse::<i64>` reads it,
//! over ASCII bytes.
use vstd::prelude::*;

verus! {

/// ASCII code of the decimal digit `d`.
pub open spec fn digit_byte(d: int) -> u8 {
    (48 + d) as u8
}

/// Whether `b` is the ASCII code of a decimal digit.
pub open spec fn is_digit(b: u8) -> bool {
    48 <= b <= 57
}

/// Decimal text of a natural number: most significant digit first, no leading zero.
pub open spec fn dec_nat(n: nat) -> Seq<u8>
    decreases n,
{
    if n < 10 {
        seq![digit_byte(n as int)]
    } else {
        dec_nat(n / 10).push(digit_byte((n % 10) as int))
    }
}

/// Decimal text of an integer: a minus sign before the magnitude of a negative number.
pub open spec fn dec_int(n: int) -> Seq<u8> {
    if n < 0 {
        seq![45u8] + dec_nat((-n) as nat)
    } else {
        dec_nat(n as nat)
    }
}

/// Every byte of a decimal text of a natural number is a digit, and the text is not empty.
pub proof fn lemma_dec_nat_digits(n: nat)
    ensures
        dec_nat(n).len() >= 1,
        forall|i: int| 0 <= i < dec_nat(n).len() ==> is_digit(#[trigger] dec_nat(n)[i]),
    decreases n,
{
    if n >= 10 {
        lemma_dec_nat_digits(n / 10);
    }
}

/// A number of at least `10 * p` has one digit more than a number of at least `p` needs.
pub proof fn lemma_dec_nat_len_ge(n: nat, k: nat, p: nat)
    requires
        p == pow10(k),
        n >= p,
    ensures
        dec_nat(n).len() >= k + 1,
    decreases k,
{
    if k > 0 {
        let q = pow10((k - 1) as nat);
        assert(p == 10 * q);
        assert(n / 10 >= q) by (nonlinear_arith)
            requires
                n >= 10 * q,
        ;
        lemma_dec_nat_len_ge(n / 10, (k - 1) as nat, q);
    } else {
        lemma_dec_nat_digits(n);
    }
}

/// Ten to the power `k`.
pub open spec fn pow10(k: nat) -> nat
    decreases k,
{
    if k == 0 {
        1
    } else {
        10 * pow10((k - 1) as nat)
    }
}

fn dec_u64(m: u64) -> (r: Vec<u8>)
    ensures
        r@ == dec_nat(m as nat),
    decreases m,
{
    if m < 10 {
        let mut v: Vec<u8> = Vec::new();
        v.push((48 + m) as u8);
        assert(v@ =~= dec_nat(m as nat));
        v
    } else {
        let mut v = dec_u64(m / 10);
        v.push((48 + m % 10) as u8);
        v
    }
}

/// Decimal text of `n`, as `n.to_string()` writes it, in ASCII bytes.
pub fn dec_i64(n: i64) -> (r: Vec<u8>)
    ensures
        r@ == dec_int(n as int),
{
    if n < 0 {
        let mag: u64 = if n == i64::MIN {
            9223372036854775808u64
        } else {
            (-n) as u64
        };
        let digits = dec_u64(mag);
        let mut r: Vec<u8> = Vec::new();
        r.push(45u8);
        let mut i: usize = 0;
        while i < digits.len()
            invariant
                i <= digits@.len(),
                r@ =~= seq![45u8] + digits@.take(i as int),
            decreases digits@.len() - i,
        {
            r.push(digits[i]);
            i += 1;
        }
        assert(digits@.take(digits@.len() as int) =~= digits@);
        r
    } else {
        dec_u64(n as u64)
    }
}

/// Whether `p` is a prefix of `s`, as `str::starts_with` decides.
pub fn starts_with(s: &Vec<u8>, p: &Vec<u8>) -> (r: bool)
    ensures
        r == p@.is_prefix_of(s@),
{
    if p.len() > s.len() {
        return false;
    }
    let mut i: usize = 0;
    while i < p.len()
        invariant
            p@.len() <= s@.len(),
            i <= p@.len(),
            forall|j: int| 0 <= j < i ==> p@[j] == s@[j],
        decreases p@.len() - i,
    {
        if p[i] != s[i] {
            assert(p@[i as int] != s@.subrange(0, p@.len() as int)[i as int]);
            return false;
        }
        i += 1;
    }
    assert(p@ =~= s@.subrange(0, p@.len() as int));
    true
}

/// Whether every byte of `s` is a decimal digit.
pub open spec fn all_digits(s: Seq<u8>) -> bool {
    forall|i: int| 0 <= i < s.len() ==> is_digit(#[trigger] s[i])
}

/// The number that a string of decimal digits denotes.
pub open spec fn digits_value(s: Seq<u8>) -> int
    decreases s.len(),
{
    if s.len() == 0 {
        0
    } else {
        digits_value(s.drop_last()) * 10 + (s.last() - 48)
    }
}

/// What `str::parse::<i64>` gives for the text `s`: an optional `+` or `-`, then one or
/// more digits, whose value fits in an `i64`.
pub open spec fn parse_i64(s: Seq<u8>) -> Option<i64> {
    if s.len() == 0 {
        None
    } else if (s[0] == 43 || s[0] == 45) && s.len() == 1 {
        None
    } else {
        let ds = if s[0] == 43 || s[0] == 45 {
            s.drop_first()
        } else {
            s
        };
        if !all_digits(ds) {
            None
        } else {
            let v = if s[0] == 45 {
                -digits_value(ds)
            } else {
                digits_value(ds)
            };
            if i64::MIN <= v <= i64::MAX {
                Some(v as i64)
            } else {
                None
            }
        }
    }
}

proof fn lemma_digits_value_nonneg(s: Seq<u8>)
    requires
        all_digits(s),
    ensures
        digits_value(s) >= 0,
    decreases s.len(),
{
    if s.len() > 0 {
        lemma_digits_value_nonneg(s.drop_last());
    }
}

proof fn lemma_digits_value_prefix(s: Seq<u8>, k: int)
    requires
        all_digits(s),
        0 <= k <= s.len(),
    ensures
        digits_value(s.take(k)) <= digits_value(s),
    decreases s.len(),
{
    if k < s.len() {
        let t = s.drop_last();
        lemma_digits_value_prefix(t, k);
        assert(t.take(k) =~= s.take(k));
        lemma_digits_value_nonneg(t);
    } else {
        assert(s.take(k) =~= s);
    }
}

/// Reads a decimal `i64` from `s` exactly as `str::parse::<i64>` does.
#[verifier::loop_isolation(false)]
pub fn parse_i64_bytes(s: &[u8]) -> (r: Option<i64>)
    ensures
        r == parse_i64(s@),
{
    let len = s.len();
    if len == 0 {
        return None;
    }
    let first = s[0];
    if (first == 43 || first == 45) && len == 1 {
        return None;
    }
    let neg = first == 45;
    let start: usize = if first == 43 || first == 45 {
        1
    } else {
        0
    };
    let limit: u64 = if neg {
        9223372036854775808u64
    } else {
        9223372036854775807u64
    };
    let ghost ds = s@.subrange(start as int, len as int);
    assert(ds =~= (if first == 43 || first == 45 {
        s@.drop_first()
    } else {
        s@
    }));
    let mut acc: u64 = 0;
    let mut i: usize = start;
    while i < len
        invariant
            start <= i <= len,
            len == s@.len(),
            ds == s@.subrange(start as int, len as int),
            all_digits(ds.take(i - start)),
            acc as int == digits_value(ds.take(i - start)),
            acc <= limit,
            limit == (if neg {
                9223372036854775808u64
            } else {
                9223372036854775807u64
            }),
        decreases len - i,
    {
        let b = s[i];
        if b < 48 || b > 57 {
            assert(!is_digit(ds[i - start]));
            return None;
        }
        let d: u64 = (b - 48) as u64;
        let ghost k = i + 1 - start;
        assert(ds.take(k).drop_last() =~= ds.take(i - start));
        assert(all_digits(ds.take(k)));
        if acc > (limit - d) / 10 {
            assert(acc * 10 + d > limit) by (nonlinear_arith)
                requires
                    acc > (limit - d) / 10,
                    d <= 9,
                    limit >= 9,
            ;
            proof {
                if all_digits(ds) {
                    lemma_digits_value_prefix(ds, k);
                }
            }
            return None;
        }
        assert(acc * 10 + d <= limit) by (nonlinear_arith)
            requires
                acc <= (limit - d) / 10,
                d <= 9,
                limit >= 9,
        ;
        acc = acc * 10 + d;
        i += 1;
    }
    assert(ds.take(len - start) =~= ds);
    if neg {
        if acc == limit {
            Some(i64::MIN)
        } else {
            Some(-(acc as i64))
        }
    } else {
        Some(acc as i64)
    }
}

} // verus!
