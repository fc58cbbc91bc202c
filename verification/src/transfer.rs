//! The plain file-transfer header line.
//!
//! A transfer announces itself with one line, `name:size`, the file's name
//! and its decimal byte count; the bytes that follow are the file itself.
//! Encoding and parsing of that line live here; moving the bytes is the
//! caller's business.

use vstd::prelude::*;

use crate::bytes::copy_range;

verus! {

/// An ASCII decimal digit.
pub open spec fn is_digit(b: u8) -> bool {
    48 <= b <= 57
}

/// Every byte of `s` is a decimal digit.
pub open spec fn all_digits(s: Seq<u8>) -> bool {
    forall|i: int| 0 <= i < s.len() ==> is_digit(#[trigger] s[i])
}

/// The decimal digits of `n`, most significant first.
pub open spec fn dec_spec(n: u64) -> Seq<u8>
    decreases n,
{
    if n < 10 {
        seq![(48 + n) as u8]
    } else {
        dec_spec(n / 10).push((48 + n % 10) as u8)
    }
}

/// The value of a run of decimal digits, read left to right.
pub open spec fn digits_val(s: Seq<u8>) -> int
    decreases s.len(),
{
    if s.len() == 0 {
        0
    } else {
        digits_val(s.drop_last()) * 10 + (s.last() - 48)
    }
}

/// The index of the first occurrence of `b` in `s`, or -1.
pub open spec fn find_byte(s: Seq<u8>, b: u8) -> int
    decreases s.len(),
{
    if s.len() == 0 {
        -1
    } else if s[0] == b {
        0
    } else {
        let r = find_byte(s.skip(1), b);
        if r < 0 {
            -1
        } else {
            r + 1
        }
    }
}

/// What a header line means: the bytes before the first colon are the
/// name, the bytes after it must be a nonempty run of digits whose value
/// fits in 64 bits, and that value is the size.
pub open spec fn parse_header_spec(b: Seq<u8>) -> Option<(Seq<u8>, u64)> {
    let i = find_byte(b, 58);
    if i < 0 {
        None
    } else {
        let num = b.subrange(i + 1, b.len() as int);
        if num.len() == 0 || !all_digits(num) || digits_val(num) > u64::MAX {
            None
        } else {
            Some((b.subrange(0, i), digits_val(num) as u64))
        }
    }
}

proof fn lemma_find_byte_at(s: Seq<u8>, b: u8, i: int)
    requires
        0 <= i <= s.len(),
        forall|k: int| 0 <= k < i ==> s[k] != b,
        i == s.len() || s[i] == b,
    ensures
        find_byte(s, b) == if i == s.len() {
            -1int
        } else {
            i
        },
    decreases i,
{
    if s.len() == 0 {
    } else if i == 0 {
    } else {
        let t = s.skip(1);
        assert(forall|k: int| 0 <= k < i - 1 ==> #[trigger] t[k] != b);
        assert(i - 1 == t.len() || t[i - 1] == b);
        lemma_find_byte_at(t, b, i - 1);
    }
}

proof fn lemma_digits_val_nonneg(s: Seq<u8>)
    requires
        all_digits(s),
    ensures
        digits_val(s) >= 0,
    decreases s.len(),
{
    if s.len() > 0 {
        assert(all_digits(s.drop_last()));
        lemma_digits_val_nonneg(s.drop_last());
    }
}

proof fn lemma_digits_val_prefix(s: Seq<u8>, k: int)
    requires
        all_digits(s),
        0 <= k <= s.len(),
    ensures
        digits_val(s.take(k)) <= digits_val(s),
    decreases s.len() - k,
{
    if k == s.len() {
        assert(s.take(k) =~= s);
    } else {
        assert(s.take(k + 1).drop_last() =~= s.take(k));
        assert(s.take(k + 1).last() == s[k]);
        assert(all_digits(s.take(k)));
        lemma_digits_val_nonneg(s.take(k));
        assert(digits_val(s.take(k + 1)) == digits_val(s.take(k)) * 10 + (s[k] - 48));
        lemma_digits_val_prefix(s, k + 1);
    }
}

proof fn lemma_dec_spec_digits(n: u64)
    ensures
        dec_spec(n).len() >= 1,
        all_digits(dec_spec(n)),
    decreases n,
{
    if n >= 10 {
        lemma_dec_spec_digits(n / 10);
        let s = dec_spec(n);
        let p = dec_spec(n / 10);
        assert forall|i: int| 0 <= i < s.len() implies is_digit(#[trigger] s[i]) by {
            if i < p.len() {
                assert(s[i] == p[i]);
            }
        }
    }
}

proof fn lemma_dec_spec_val(n: u64)
    ensures
        digits_val(dec_spec(n)) == n,
    decreases n,
{
    if n < 10 {
        let s = dec_spec(n);
        assert(s.drop_last() =~= Seq::<u8>::empty());
        assert(digits_val(Seq::<u8>::empty()) == 0);
        assert(s.last() == (48 + n) as u8);
        assert((48 + n) as u8 as int == 48 + n);
        assert(digits_val(s) == n);
    } else {
        lemma_dec_spec_val(n / 10);
        let s = dec_spec(n);
        let p = dec_spec(n / 10);
        assert(s.drop_last() =~= p);
        assert(s.last() == (48 + n % 10) as u8);
        assert((48 + n % 10) as u8 as int == 48 + n % 10);
        assert(digits_val(s) == digits_val(p) * 10 + n % 10);
        assert(n as int / 10 * 10 + n as int % 10 == n) by (nonlinear_arith);
    }
}

/// A header built from a colon-free name and a size parses back to exactly
/// that name and size.
pub proof fn lemma_header_round_trip(name: Seq<u8>, size: u64)
    requires
        forall|k: int| 0 <= k < name.len() ==> name[k] != 58u8,
    ensures
        parse_header_spec(name + seq![58u8] + dec_spec(size)) == Some((name, size)),
{
    let h = name + seq![58u8] + dec_spec(size);
    lemma_dec_spec_digits(size);
    lemma_dec_spec_val(size);
    assert forall|k: int| 0 <= k < name.len() implies #[trigger] h[k] != 58u8 by {
        assert(h[k] == name[k]);
    }
    assert(h[name.len() as int] == 58u8);
    lemma_find_byte_at(h, 58, name.len() as int);
    let num = h.subrange(name.len() as int + 1, h.len() as int);
    assert(num =~= dec_spec(size));
    assert(h.subrange(0, name.len() as int) =~= name);
}

/// Append the decimal digits of `n` to `out`.
pub fn push_decimal(out: &mut Vec<u8>, n: u64)
    ensures
        final(out)@ == old(out)@ + dec_spec(n),
    decreases n,
{
    if n >= 10 {
        push_decimal(out, n / 10);
    }
    out.push(48 + (n % 10) as u8);
    assert(out@ =~= old(out)@ + dec_spec(n));
}

/// The header line for a file of the given name and size: `name:size`.
pub fn encode_transfer_header(name: &Vec<u8>, size: u64) -> (r: Vec<u8>)
    ensures
        r@ == name@ + seq![58u8] + dec_spec(size),
{
    let mut r = crate::bytes::copy_bytes(name);
    r.push(58);
    push_decimal(&mut r, size);
    assert(r@ =~= name@ + seq![58u8] + dec_spec(size));
    r
}

/// Take a header line apart: the name before the first colon and the
/// decimal size after it, or nothing when there is no colon, no digits,
/// a stray non-digit, or a value too large for 64 bits.
pub fn parse_transfer_header(b: &Vec<u8>) -> (r: Option<(Vec<u8>, u64)>)
    ensures
        (match r {
            Some(ns) => parse_header_spec(b@) == Some((ns.0@, ns.1)),
            None => parse_header_spec(b@) is None,
        }),
{
    let n = b.len();
    let mut i: usize = 0;
    while i < n && b[i] != 58
        invariant
            i <= n,
            n == b@.len(),
            forall|k: int| 0 <= k < i ==> b@[k] != 58u8,
        decreases n - i,
    {
        i = i + 1;
    }
    proof {
        lemma_find_byte_at(b@, 58, i as int);
    }
    if i == n {
        return None;
    }
    let ghost num = b@.subrange(i + 1, n as int);
    let mut val: u64 = 0;
    let mut j: usize = i + 1;
    while j < n
        invariant
            i < j <= n,
            n == b@.len(),
            i < n,
            find_byte(b@, 58) == i as int,
            num == b@.subrange(i + 1, n as int),
            all_digits(b@.subrange(i + 1, j as int)),
            val == digits_val(b@.subrange(i + 1, j as int)),
        decreases n - j,
    {
        let d = b[j];
        if d < 48 || d > 57 {
            assert(!all_digits(num)) by {
                assert(num[j - i - 1] == b@[j as int]);
            }
            return None;
        }
        let dv = (d - 48) as u64;
        if val > (u64::MAX - dv) / 10 {
            proof {
                let pre = b@.subrange(i + 1, j as int);
                let pre1 = b@.subrange(i + 1, j + 1 as int);
                assert(pre1.drop_last() =~= pre);
                assert(pre1.last() == b@[j as int]);
                assert(digits_val(pre1) == val * 10 + dv);
                assert(val * 10 + dv > u64::MAX) by (nonlinear_arith)
                    requires
                        val > (u64::MAX - dv) / 10,
                        dv <= 9,
                ;
                if all_digits(num) {
                    assert(num.take(j - i) =~= pre1);
                    lemma_digits_val_prefix(num, j - i);
                }
            }
            return None;
        }
        proof {
            let pre = b@.subrange(i + 1, j as int);
            let pre1 = b@.subrange(i + 1, j + 1 as int);
            assert(pre1.drop_last() =~= pre);
            assert(pre1.last() == b@[j as int]);
            assert(val * 10 + dv <= u64::MAX) by (nonlinear_arith)
                requires
                    val <= (u64::MAX - dv) / 10,
                    dv <= 9,
            ;
        }
        val = val * 10 + dv;
        j = j + 1;
    }
    if i + 1 == n {
        assert(num.len() == 0);
        return None;
    }
    assert(num =~= b@.subrange(i + 1, n as int));
    proof {
        lemma_digits_val_nonneg(num);
    }
    let name = copy_range(b, 0, i);
    Some((name, val))
}

} // verus!
