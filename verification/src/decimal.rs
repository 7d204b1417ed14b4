//! Decimal rendering and parsing of unsigned integers.
//!
//! Client identifiers cross the local pipe in decimal, and nonces and
//! identifiers are embedded in the canonical JSON signing blob as decimal
//! numbers.  Rendering is specified exactly and parsing is proved to
//! invert it.

use vstd::prelude::*;

verus! {

/// The ASCII decimal digits of `n`, most significant first.
pub open spec fn dec_of(n: nat) -> Seq<u8>
    decreases n,
{
    if n < 10 {
        seq![(48 + n) as u8]
    } else {
        dec_of(n / 10) + seq![(48 + n % 10) as u8]
    }
}

/// The number a string of ASCII digits stands for.
pub open spec fn dec_val(s: Seq<u8>) -> nat
    decreases s.len(),
{
    if s.len() == 0 {
        0
    } else {
        dec_val(s.drop_last()) * 10 + (if s.last() >= 48 {
            (s.last() - 48) as nat
        } else {
            0
        })
    }
}

/// Whether every byte of `s` is an ASCII decimal digit.
pub open spec fn all_dec_digits(s: Seq<u8>) -> bool {
    forall|i: int| 0 <= i < s.len() ==> 48 <= #[trigger] s[i] <= 57
}

/// Parsing inverts rendering.
pub proof fn lemma_dec_round_trip(n: nat)
    ensures
        dec_val(dec_of(n)) == n,
        all_dec_digits(dec_of(n)),
        dec_of(n).len() >= 1,
    decreases n,
{
    if n < 10 {
        let s = dec_of(n);
        assert(s.len() == 1);
        assert(s.drop_last() =~= Seq::<u8>::empty());
        assert(dec_val(s.drop_last()) == 0);
        assert(s.last() == (48 + n) as u8);
        assert((48 + n) as u8 == 48 + n);
        assert(dec_val(s) == n);
    } else {
        lemma_dec_round_trip(n / 10);
        let s = dec_of(n);
        let p = dec_of(n / 10);
        assert(s =~= p + seq![(48 + n % 10) as u8]);
        assert(s.drop_last() =~= p);
        assert(s.last() == (48 + n % 10) as u8);
        assert(dec_val(s) == dec_val(p) * 10 + n % 10);
        assert(n / 10 * 10 + n % 10 == n) by (nonlinear_arith);
        assert forall|i: int| 0 <= i < s.len() implies 48 <= #[trigger] s[i] <= 57 by {
            if i < p.len() {
                assert(s[i] == p[i]);
            }
        }
    }
}

/// Renders a 128-bit number in decimal.
pub fn u128_to_dec(n: u128) -> (r: Vec<u8>)
    ensures
        r@ =~= dec_of(n as nat),
{
    let mut rev: Vec<u8> = Vec::new();
    let mut m = n;
    loop
        invariant
            dec_of(n as nat) =~= dec_of(m as nat) + rev@.reverse(),
        ensures
            m < 10,
            dec_of(n as nat) =~= dec_of(m as nat) + rev@.reverse(),
        decreases m,
    {
        if m < 10 {
            break;
        }
        let ghost old_rev = rev@;
        let d = (m % 10) as u8;
        rev.push(48 + d);
        proof {
            assert(rev@.reverse() =~= seq![(48 + (m as nat) % 10) as u8]
                + old_rev.reverse());
            assert(dec_of(m as nat) =~= dec_of((m as nat) / 10) + seq![(48 + (m as nat)
                % 10) as u8]);
            assert(dec_of(n as nat) =~= dec_of((m as nat) / 10) + rev@.reverse());
            assert((m / 10) as nat == (m as nat) / 10);
            assert(m / 10 < m) by (nonlinear_arith)
                requires
                    m >= 10,
            ;
        }
        m = m / 10;
    }
    let ghost old_rev = rev@;
    let d = (m % 10) as u8;
    rev.push(48 + d);
    proof {
        assert(rev@.reverse() =~= seq![(48 + (m as nat) % 10) as u8] + old_rev.reverse());
        assert(dec_of(m as nat) =~= seq![(48 + (m as nat) % 10) as u8]);
        assert(dec_of(n as nat) =~= rev@.reverse());
    }
    // emit the collected digits most significant first
    let mut r: Vec<u8> = Vec::new();
    let mut j: usize = rev.len();
    while j > 0
        invariant
            j <= rev.len(),
            r@.len() == rev@.len() - j,
            forall|k: int| 0 <= k < r@.len() ==> r@[k] == rev@.reverse()[k],
        decreases j,
    {
        j = j - 1;
        r.push(rev[j]);
    }
    proof {
        assert(r@ =~= rev@.reverse());
    }
    r
}

/// Renders a 64-bit number in decimal.
pub fn u64_to_dec(n: u64) -> (r: Vec<u8>)
    ensures
        r@ =~= dec_of(n as nat),
{
    u128_to_dec(n as u128)
}

/// Parses a decimal number; fails exactly on an empty string, a
/// non-digit byte, or a value past `u64::MAX`.
pub fn dec_to_u64(s: &Vec<u8>) -> (r: Option<u64>)
    ensures
        r is Some <==> (s@.len() > 0 && all_dec_digits(s@) && dec_val(s@) <= u64::MAX),
        r is Some ==> r.unwrap() as nat == dec_val(s@),
{
    if s.len() == 0 {
        return None;
    }
    let mut acc: u64 = 0;
    let mut i: usize = 0;
    while i < s.len()
        invariant
            i <= s@.len(),
            acc as nat == dec_val(s@.subrange(0, i as int)),
            all_dec_digits(s@.subrange(0, i as int)),
        decreases s@.len() - i,
    {
        let b = s[i];
        if b < 48 || b > 57 {
            proof {
                assert(s@[i as int] == b);
            }
            return None;
        }
        let d = (b - 48) as u64;
        let wide: u128 = (acc as u128) * 10 + (d as u128);
        if wide > u64::MAX as u128 {
            proof {
                let pre = s@.subrange(0, i as int);
                let post = s@.subrange(0, i + 1);
                assert(post.drop_last() =~= pre);
                assert(post.last() == b);
                assert(dec_val(post) == dec_val(pre) * 10 + (b - 48));
                if all_dec_digits(s@) {
                    lemma_dec_val_monotone(s@, i as int);
                }
            }
            return None;
        }
        acc = wide as u64;
        proof {
            let pre = s@.subrange(0, i as int);
            let post = s@.subrange(0, i + 1);
            assert(post =~= pre.push(b));
            assert(post.drop_last() =~= pre);
            assert forall|k: int| 0 <= k < post.len() implies 48 <= #[trigger] post[k]
                <= 57 by {
                if k < pre.len() {
                    assert(pre[k] == post[k]);
                }
            }
        }
        i = i + 1;
    }
    proof {
        assert(s@.subrange(0, s@.len() as int) =~= s@);
    }
    Some(acc)
}

/// The big-endian 64-bit value of eight bytes.
pub open spec fn be_u64(s: Seq<u8>) -> u64
    recommends
        s.len() == 8,
{
    (s[0] * 0x100000000000000 + s[1] * 0x1000000000000 + s[2] * 0x10000000000 + s[3]
        * 0x100000000 + s[4] * 0x1000000 + s[5] * 0x10000 + s[6] * 0x100 + s[7]) as u64
}

/// Reads eight bytes as a big-endian 64-bit number.
pub fn u64_from_be_bytes(b: &Vec<u8>) -> (r: u64)
    requires
        b@.len() == 8,
    ensures
        r == be_u64(b@),
{
    (b[0] as u64) * 0x100000000000000 + (b[1] as u64) * 0x1000000000000 + (b[2] as u64)
        * 0x10000000000 + (b[3] as u64) * 0x100000000 + (b[4] as u64) * 0x1000000 + (b[5] as u64)
        * 0x10000 + (b[6] as u64) * 0x100 + (b[7] as u64)
}

/// The big-endian 128-bit value of sixteen bytes: the first eight
/// bytes shifted above the last eight.
pub open spec fn be_u128(s: Seq<u8>) -> u128
    recommends
        s.len() == 16,
{
    (be_u64(s.subrange(0, 8)) * 0x10000000000000000 + be_u64(s.subrange(8, 16))) as u128
}

/// Reads sixteen bytes as a big-endian 128-bit number.
pub fn u128_from_be_bytes(b: &Vec<u8>) -> (r: u128)
    requires
        b@.len() == 16,
    ensures
        r == be_u128(b@),
{
    let mut hi_bytes: Vec<u8> = Vec::new();
    let mut lo_bytes: Vec<u8> = Vec::new();
    let mut i: usize = 0;
    while i < 8
        invariant
            i <= 8,
            b@.len() == 16,
            hi_bytes@ =~= b@.subrange(0, i as int),
        decreases 8 - i,
    {
        hi_bytes.push(b[i]);
        proof {
            assert(b@.subrange(0, i + 1) =~= b@.subrange(0, i as int).push(b@[i as int]));
        }
        i = i + 1;
    }
    let mut j: usize = 8;
    while j < 16
        invariant
            8 <= j <= 16,
            b@.len() == 16,
            lo_bytes@ =~= b@.subrange(8, j as int),
        decreases 16 - j,
    {
        lo_bytes.push(b[j]);
        proof {
            assert(b@.subrange(8, j + 1) =~= b@.subrange(8, j as int).push(b@[j as int]));
        }
        j = j + 1;
    }
    let hi = u64_from_be_bytes(&hi_bytes);
    let lo = u64_from_be_bytes(&lo_bytes);
    (hi as u128) * 0x10000000000000000 + (lo as u128)
}

/// A longer digit string stands for at least as large a value: once a
/// prefix exceeds `u64::MAX`, the whole string does.
proof fn lemma_dec_val_monotone(s: Seq<u8>, i: int)
    requires
        0 <= i < s.len(),
        all_dec_digits(s),
    ensures
        dec_val(s) >= dec_val(s.subrange(0, i + 1)),
    decreases s.len() - i,
{
    if i + 1 == s.len() {
        assert(s.subrange(0, i + 1) =~= s);
    } else {
        lemma_dec_val_monotone(s, i + 1);
        let a = s.subrange(0, i + 1);
        let b = s.subrange(0, i + 2);
        assert(b.drop_last() =~= a);
        assert(dec_val(b) == dec_val(a) * 10 + (b.last() - 48));
        assert(dec_val(a) * 10 >= dec_val(a)) by (nonlinear_arith);
    }
}

} // verus!
