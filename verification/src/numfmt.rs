//! Fixed-width ASCII number formats used by the session token: zero-padded
//! decimal fields and lowercase hex, with round-trip proofs.

use vstd::prelude::*;
use vstd::arithmetic::div_mod::lemma_fundamental_div_mod;

verus! {

pub open spec fn is_digit(b: u8) -> bool {
    48 <= b && b <= 57
}

pub open spec fn all_digits(s: Seq<u8>) -> bool {
    forall|i: int| 0 <= i < s.len() ==> is_digit(#[trigger] s[i])
}

/// `n` written in decimal, zero-padded to exactly `width` digits
/// (most significant first); digits beyond the width are cut off.
pub open spec fn dec_digits(n: nat, width: nat) -> Seq<u8>
    decreases width,
{
    if width == 0 {
        Seq::empty()
    } else {
        dec_digits(n / 10, (width - 1) as nat).push((n % 10 + 48) as u8)
    }
}

/// The numeric value of a digit string (most significant first).
pub open spec fn dec_val(s: Seq<u8>) -> int
    decreases s.len(),
{
    if s.len() == 0 {
        0
    } else {
        dec_val(s.drop_last()) * 10 + (s.last() - 48)
    }
}

pub open spec fn pow10(e: nat) -> nat
    decreases e,
{
    if e == 0 {
        1
    } else {
        10 * pow10((e - 1) as nat)
    }
}

pub proof fn lemma_pow10_pos(e: nat)
    ensures
        pow10(e) >= 1,
    decreases e,
{
    if e > 0 {
        lemma_pow10_pos((e - 1) as nat);
    }
}

pub proof fn lemma_dec_digits_len(n: nat, width: nat)
    ensures
        dec_digits(n, width).len() == width,
    decreases width,
{
    if width > 0 {
        lemma_dec_digits_len(n / 10, (width - 1) as nat);
    }
}

pub proof fn lemma_dec_digits_are_digits(n: nat, width: nat)
    ensures
        all_digits(dec_digits(n, width)),
    decreases width,
{
    if width > 0 {
        lemma_dec_digits_are_digits(n / 10, (width - 1) as nat);
        let s = dec_digits(n, width);
        let t = dec_digits(n / 10, (width - 1) as nat);
        assert forall|i: int| 0 <= i < s.len() implies is_digit(#[trigger] s[i]) by {
            lemma_dec_digits_len(n / 10, (width - 1) as nat);
            if i < s.len() - 1 {
                assert(s[i] == t[i]);
            }
        }
    }
}

/// Writing a value below `pow10(width)` and reading it back is the identity.
pub proof fn lemma_dec_roundtrip(n: nat, width: nat)
    requires
        n < pow10(width),
    ensures
        dec_val(dec_digits(n, width)) == n,
    decreases width,
{
    if width == 0 {
        assert(n == 0);
    } else {
        lemma_fundamental_div_mod(n as int, 10);
        assert(n / 10 < pow10((width - 1) as nat)) by {
            if n / 10 >= pow10((width - 1) as nat) {
                assert(n >= 10 * (n / 10)) by (nonlinear_arith)
                    requires n >= 0 && n as int == 10 * (n as int / 10) + n as int % 10 && n as int % 10 >= 0;
                assert(10 * (n / 10) >= 10 * pow10((width - 1) as nat)) by (nonlinear_arith)
                    requires n / 10 >= pow10((width - 1) as nat);
            }
        }
        lemma_dec_roundtrip(n / 10, (width - 1) as nat);
        let s = dec_digits(n, width);
        let t = dec_digits(n / 10, (width - 1) as nat);
        assert(s.drop_last() =~= t);
        assert(dec_val(s) == dec_val(t) * 10 + n % 10);
    }
}

/// Every u64 fits in twenty decimal digits.
pub proof fn lemma_u64_fits_20_digits(n: u64)
    ensures
        (n as nat) < pow10(20),
{
    assert(pow10(20) == 100_000_000_000_000_000_000) by {
        reveal_with_fuel(pow10, 21);
    }
}

/// A digit-string prefix never exceeds the whole string's value:
/// the remaining digits scale it up by a power of ten and add digits.
pub proof fn lemma_dec_val_prefix(s: Seq<u8>, i: int)
    requires
        all_digits(s),
        0 <= i <= s.len(),
    ensures
        dec_val(s) >= dec_val(s.take(i)) * pow10((s.len() - i) as nat),
        dec_val(s.take(i)) >= 0,
    decreases s.len() - i,
{
    if i == s.len() {
        assert(s.take(i) =~= s);
        lemma_dec_val_nonneg(s);
        assert(pow10((s.len() - i) as nat) == 1);
        assert(dec_val(s.take(i)) * 1 == dec_val(s.take(i))) by (nonlinear_arith);
    } else {
        lemma_dec_val_prefix(s, i + 1);
        let p = s.take(i);
        let q = s.take(i + 1);
        assert(q.drop_last() =~= p);
        assert(dec_val(q) == dec_val(p) * 10 + (s[i] - 48));
        assert(is_digit(s[i]));
        assert(dec_val(q) >= dec_val(p) * 10);
        lemma_dec_val_nonneg(p);
        let k = (s.len() - i - 1) as nat;
        lemma_pow10_pos(k);
        assert(dec_val(s) >= dec_val(q) * pow10(k));
        assert(dec_val(q) * pow10(k) >= (dec_val(p) * 10) * pow10(k)) by (nonlinear_arith)
            requires dec_val(q) >= dec_val(p) * 10 && pow10(k) >= 1;
        assert((dec_val(p) * 10) * pow10(k) == dec_val(p) * (10 * pow10(k))) by (nonlinear_arith);
        assert(pow10((s.len() - i) as nat) == 10 * pow10(k));
        assert(dec_val(s) >= dec_val(p) * pow10((s.len() - i) as nat));
    }
}

/// Two equal-width digit strings with the same value are the same string:
/// the positional representation is unique.
pub proof fn lemma_dec_val_injective(s1: Seq<u8>, s2: Seq<u8>)
    requires
        all_digits(s1),
        all_digits(s2),
        s1.len() == s2.len(),
        dec_val(s1) == dec_val(s2),
    ensures
        s1 == s2,
    decreases s1.len(),
{
    if s1.len() == 0 {
        assert(s1 =~= s2);
    } else {
        let a = s1.drop_last();
        let b = s2.drop_last();
        assert(all_digits(a)) by {
            assert(forall|i: int| 0 <= i < s1.len() - 1 ==> a[i] == s1[i]);
        }
        assert(all_digits(b)) by {
            assert(forall|i: int| 0 <= i < s2.len() - 1 ==> b[i] == s2[i]);
        }
        lemma_dec_val_nonneg(a);
        lemma_dec_val_nonneg(b);
        let d1 = s1.last() - 48;
        let d2 = s2.last() - 48;
        assert(dec_val(a) == dec_val(b) && d1 == d2) by (nonlinear_arith)
            requires
                dec_val(a) * 10 + d1 == dec_val(b) * 10 + d2,
                0 <= d1 < 10,
                0 <= d2 < 10,
                dec_val(a) >= 0,
                dec_val(b) >= 0;
        lemma_dec_val_injective(a, b);
        assert(s1.last() == s2.last());
        assert(s1 =~= a.push(s1.last()));
        assert(s2 =~= b.push(s2.last()));
        assert(s1 =~= s2);
    }
}

pub proof fn lemma_dec_val_nonneg(s: Seq<u8>)
    requires
        all_digits(s),
    ensures
        dec_val(s) >= 0,
    decreases s.len(),
{
    if s.len() > 0 {
        assert(all_digits(s.drop_last())) by {
            assert(forall|i: int| 0 <= i < s.len() - 1 ==> s.drop_last()[i] == s[i]);
        }
        lemma_dec_val_nonneg(s.drop_last());
    }
}

/// Appends `n` to `out` as exactly `width` decimal digits.
pub fn push_dec(out: &mut Vec<u8>, n: u64, width: u8)
    ensures
        final(out)@ == old(out)@ + dec_digits(n as nat, width as nat),
    decreases width,
{
    if width == 0 {
        proof {
            assert(out@ =~= out@ + dec_digits(n as nat, 0));
        }
    } else {
        push_dec(out, n / 10, width - 1);
        out.push((n % 10 + 48) as u8);
        proof {
            assert(out@ =~= old(out)@ + dec_digits(n as nat, width as nat));
        }
    }
}

/// Reads the twenty-digit decimal field at `start`; `None` when a byte is
/// not a digit or the value does not fit in a u64.
pub open spec fn spec_parse20(s: Seq<u8>) -> Option<u64> {
    if s.len() == 20 && all_digits(s) && dec_val(s) <= u64::MAX {
        Some(dec_val(s) as u64)
    } else {
        None
    }
}

pub fn parse_dec20(s: &[u8], start: usize) -> (r: Option<u64>)
    requires
        start + 20 <= s@.len(),
    ensures
        r == spec_parse20(s@.subrange(start as int, start as int + 20)),
{
    let ghost sub = s@.subrange(start as int, start as int + 20);
    let slen: usize = s.len();
    let mut acc: u64 = 0;
    let mut i: usize = 0;
    while i < 20
        invariant
            slen == s@.len(),
            start + 20 <= s@.len(),
            0 <= i <= 20,
            sub == s@.subrange(start as int, start as int + 20),
            all_digits(sub.take(i as int)),
            acc == dec_val(sub.take(i as int)),
        decreases 20 - i,
    {
        let b = s[start + i];
        assert(b == sub[i as int]);
        if b < 48 || b > 57 {
            assert(!all_digits(sub));
            return None;
        }
        let d = b - 48;
        let ghost p = sub.take(i as int);
        let ghost q = sub.take(i as int + 1);
        proof {
            assert(q.drop_last() =~= p);
            assert(dec_val(q) == dec_val(p) * 10 + (sub[i as int] - 48));
        }
        if acc > (u64::MAX - d as u64) / 10 {
            proof {
                lemma_fundamental_div_mod((u64::MAX - d) as int, 10);
                assert(acc * 10 + d > u64::MAX) by (nonlinear_arith)
                    requires
                        acc > ((u64::MAX - d) as int) / 10,
                        (u64::MAX - d) as int == 10 * (((u64::MAX - d) as int) / 10) + ((u64::MAX - d) as int) % 10,
                        ((u64::MAX - d) as int) % 10 < 10;
                if all_digits(sub) {
                    lemma_dec_val_prefix(sub, i as int + 1);
                    lemma_pow10_pos((sub.len() - i - 1) as nat);
                    assert(dec_val(q) * pow10((sub.len() - i - 1) as nat) >= dec_val(q) * 1) by (nonlinear_arith)
                        requires dec_val(q) >= 0 && pow10((sub.len() - i - 1) as nat) >= 1;
                    assert(dec_val(sub) > u64::MAX);
                }
            }
            return None;
        }
        proof {
            lemma_fundamental_div_mod((u64::MAX - d) as int, 10);
            assert(acc * 10 + d <= u64::MAX) by (nonlinear_arith)
                requires
                    acc <= ((u64::MAX - d) as int) / 10,
                    (u64::MAX - d) as int == 10 * (((u64::MAX - d) as int) / 10) + ((u64::MAX - d) as int) % 10,
                    ((u64::MAX - d) as int) % 10 >= 0;
        }
        acc = acc * 10 + d as u64;
        i += 1;
    }
    proof {
        assert(sub.take(20) =~= sub);
    }
    Some(acc)
}

pub open spec fn hex_digit(v: u8) -> u8 {
    if v < 10 {
        (v + 48) as u8
    } else {
        (v + 87) as u8
    }
}

/// Lowercase hex of a byte string, two digits per byte.
pub open spec fn hex_of(s: Seq<u8>) -> Seq<u8>
    decreases s.len(),
{
    if s.len() == 0 {
        Seq::empty()
    } else {
        hex_of(s.drop_last()).push(hex_digit(s.last() / 16)).push(hex_digit(s.last() % 16))
    }
}

pub fn hex_encode(s: &[u8]) -> (r: Vec<u8>)
    ensures
        r@ == hex_of(s@),
{
    let mut r: Vec<u8> = Vec::new();
    let mut i: usize = 0;
    while i < s.len()
        invariant
            0 <= i <= s@.len(),
            r@ == hex_of(s@.take(i as int)),
        decreases s@.len() - i,
    {
        let b = s[i];
        let hi = b / 16;
        let lo = b % 16;
        r.push(if hi < 10 { hi + 48 } else { hi + 87 });
        r.push(if lo < 10 { lo + 48 } else { lo + 87 });
        proof {
            let q = s@.take(i as int + 1);
            assert(q.drop_last() =~= s@.take(i as int));
            assert(r@ =~= hex_of(q));
        }
        i += 1;
    }
    proof {
        assert(s@.take(s@.len() as int) =~= s@);
    }
    r
}

} // verus!
