//! Lexicographic ordering of strings, and sorted deduplication.
//!
//! The dependency roll-up sorts crate names before any hashing so that the
//! summary fingerprint does not depend on discovery order.  This module
//! defines the order on character sequences, an executable comparison, a
//! sort-and-deduplicate pass, and the lemma that makes the determinism
//! argument go through: two strictly sorted sequences holding the same
//! elements are equal.

use vstd::prelude::*;

verus! {

/// Strict lexicographic order on character sequences, by code point.
pub open spec fn chars_lt(a: Seq<char>, b: Seq<char>) -> bool
    decreases a.len(),
{
    if b.len() == 0 {
        false
    } else if a.len() == 0 {
        true
    } else if a[0] as u32 != b[0] as u32 {
        (a[0] as u32) < (b[0] as u32)
    } else {
        chars_lt(a.skip(1), b.skip(1))
    }
}

pub open spec fn chars_le(a: Seq<char>, b: Seq<char>) -> bool {
    chars_lt(a, b) || a == b
}

/// The order is irreflexive.
pub proof fn lemma_chars_lt_irrefl(a: Seq<char>)
    ensures
        !chars_lt(a, a),
    decreases a.len(),
{
    if a.len() > 0 {
        lemma_chars_lt_irrefl(a.skip(1));
    }
}

/// The order is total: two sequences are ordered one way, the other way,
/// or equal.
pub proof fn lemma_chars_lt_total(a: Seq<char>, b: Seq<char>)
    ensures
        chars_lt(a, b) || chars_lt(b, a) || a == b,
    decreases a.len(),
{
    if a.len() == 0 {
        if b.len() == 0 {
            assert(a =~= b);
        }
    } else if b.len() > 0 {
        if a[0] as u32 == b[0] as u32 {
            assert(a[0] == b[0]) by {
                lemma_char_eq_u32(a[0], b[0]);
            }
            lemma_chars_lt_total(a.skip(1), b.skip(1));
            if a.skip(1) == b.skip(1) {
                assert(a =~= seq![a[0]] + a.skip(1));
                assert(b =~= seq![b[0]] + b.skip(1));
            }
        }
    }
}

/// Two characters with the same code point are the same character.
proof fn lemma_char_eq_u32(a: char, b: char)
    requires
        a as u32 == b as u32,
    ensures
        a == b,
{
}

/// The order is asymmetric.
pub proof fn lemma_chars_lt_asymm(a: Seq<char>, b: Seq<char>)
    requires
        chars_lt(a, b),
    ensures
        !chars_lt(b, a),
    decreases a.len(),
{
    if a.len() > 0 && b.len() > 0 && a[0] as u32 == b[0] as u32 {
        lemma_chars_lt_asymm(a.skip(1), b.skip(1));
    }
}

/// The order is transitive.
pub proof fn lemma_chars_lt_trans(a: Seq<char>, b: Seq<char>, c: Seq<char>)
    requires
        chars_lt(a, b),
        chars_lt(b, c),
    ensures
        chars_lt(a, c),
    decreases a.len(),
{
    if a.len() > 0 && b.len() > 0 && c.len() > 0 {
        if a[0] as u32 == b[0] as u32 && b[0] as u32 == c[0] as u32 {
            lemma_chars_lt_trans(a.skip(1), b.skip(1), c.skip(1));
        }
    }
}

/// Executable lexicographic comparison of two string slices.
pub fn str_lt(a: &str, b: &str) -> (r: bool)
    ensures
        r == chars_lt(a@, b@),
{
    let a_len = a.unicode_len();
    let b_len = b.unicode_len();
    let mut i: usize = 0;
    proof {
        assert(a@.skip(0) =~= a@);
        assert(b@.skip(0) =~= b@);
        assert(a@.subrange(0, 0) =~= b@.subrange(0, 0));
    }
    loop
        invariant
            i <= a_len,
            i <= b_len,
            a_len == a@.len(),
            b_len == b@.len(),
            a@.subrange(0, i as int) =~= b@.subrange(0, i as int),
            chars_lt(a@, b@) == chars_lt(a@.skip(i as int), b@.skip(i as int)),
        decreases a_len - i,
    {
        if i == b_len {
            return false;
        }
        if i == a_len {
            return true;
        }
        let ca = a.get_char(i);
        let cb = b.get_char(i);
        if ca as u32 != cb as u32 {
            return (ca as u32) < (cb as u32);
        }
        proof {
            assert(a@.skip(i as int)[0] == ca);
            assert(b@.skip(i as int)[0] == cb);
            lemma_char_eq_u32(ca, cb);
            assert(a@.skip(i as int).skip(1) =~= a@.skip(i + 1));
            assert(b@.skip(i as int).skip(1) =~= b@.skip(i + 1));
            assert(a@.subrange(0, i + 1) =~= a@.subrange(0, i as int) + seq![ca]);
            assert(b@.subrange(0, i + 1) =~= b@.subrange(0, i as int) + seq![cb]);
        }
        i = i + 1;
    }
}

/// Strict lexicographic order on byte strings.
pub open spec fn bytes_lt(a: Seq<u8>, b: Seq<u8>) -> bool
    decreases a.len(),
{
    if b.len() == 0 {
        false
    } else if a.len() == 0 {
        true
    } else if a[0] != b[0] {
        a[0] < b[0]
    } else {
        bytes_lt(a.skip(1), b.skip(1))
    }
}

/// The byte order is total.
pub proof fn lemma_bytes_lt_total(a: Seq<u8>, b: Seq<u8>)
    ensures
        bytes_lt(a, b) || bytes_lt(b, a) || a == b,
    decreases a.len(),
{
    if a.len() == 0 {
        if b.len() == 0 {
            assert(a =~= b);
        }
    } else if b.len() > 0 {
        if a[0] == b[0] {
            lemma_bytes_lt_total(a.skip(1), b.skip(1));
            if a.skip(1) == b.skip(1) {
                assert(a =~= seq![a[0]] + a.skip(1));
                assert(b =~= seq![b[0]] + b.skip(1));
            }
        }
    }
}

/// The byte order is asymmetric.
pub proof fn lemma_bytes_lt_asymm(a: Seq<u8>, b: Seq<u8>)
    requires
        bytes_lt(a, b),
    ensures
        !bytes_lt(b, a),
    decreases a.len(),
{
    if a.len() > 0 && b.len() > 0 && a[0] == b[0] {
        lemma_bytes_lt_asymm(a.skip(1), b.skip(1));
    }
}

/// A sequence of strings in strictly increasing lexicographic order.
pub open spec fn strictly_sorted(s: Seq<Seq<char>>) -> bool {
    forall|i: int, j: int| 0 <= i < j < s.len() ==> chars_lt(s[i], s[j])
}

/// Strictly sorted sequences holding the same elements are equal.
///
/// This is the heart of roll-up determinism: whatever order dependencies
/// are discovered in, sorting and deduplicating them leaves one canonical
/// sequence.
pub proof fn lemma_strictly_sorted_same_elements(s1: Seq<Seq<char>>, s2: Seq<Seq<char>>)
    requires
        strictly_sorted(s1),
        strictly_sorted(s2),
        forall|x: Seq<char>| s1.contains(x) <==> s2.contains(x),
    ensures
        s1 =~= s2,
    decreases s1.len(),
{
    if s1.len() == 0 {
        if s2.len() > 0 {
            assert(s2.contains(s2[0]));
        }
    } else {
        assert(s1.contains(s1[0]));
        assert(s2.contains(s1[0]));
        let j = choose|j: int| 0 <= j < s2.len() && s2[j] == s1[0];
        assert(s2.contains(s2[0]));
        assert(s1.contains(s2[0]));
        let i = choose|i: int| 0 <= i < s1.len() && s1[i] == s2[0];
        if j > 0 {
            assert(chars_lt(s2[0], s2[j]));
            if i > 0 {
                assert(chars_lt(s1[0], s1[i]));
                lemma_chars_lt_asymm(s1[0], s2[0]);
            } else {
                lemma_chars_lt_irrefl(s1[0]);
            }
        }
        assert(s1[0] == s2[0]);
        let t1 = s1.skip(1);
        let t2 = s2.skip(1);
        assert forall|x: Seq<char>| t1.contains(x) implies t2.contains(x) by {
            let k = choose|k: int| 0 <= k < t1.len() && t1[k] == x;
            assert(s1[k + 1] == x);
            assert(chars_lt(s1[0], x));
            assert(s2.contains(x));
            let m = choose|m: int| 0 <= m < s2.len() && s2[m] == x;
            if m == 0 {
                lemma_chars_lt_irrefl(x);
            }
            assert(t2[m - 1] == x);
        }
        assert forall|x: Seq<char>| t2.contains(x) implies t1.contains(x) by {
            let k = choose|k: int| 0 <= k < t2.len() && t2[k] == x;
            assert(s2[k + 1] == x);
            assert(chars_lt(s2[0], x));
            assert(s1.contains(x));
            let m = choose|m: int| 0 <= m < s1.len() && s1[m] == x;
            if m == 0 {
                lemma_chars_lt_irrefl(x);
            }
            assert(t1[m - 1] == x);
        }
        lemma_strictly_sorted_same_elements(t1, t2);
        assert(s1 =~= seq![s1[0]] + t1);
        assert(s2 =~= seq![s2[0]] + t2);
    }
}

/// Sorts the strings into strictly increasing order, dropping duplicates.
///
/// The result holds exactly the elements of the input, each once, in
/// lexicographic order.
pub fn sort_dedup(input: Vec<String>) -> (out: Vec<String>)
    ensures
        strictly_sorted(out.deep_view()),
        forall|x: Seq<char>| out.deep_view().contains(x) <==> input.deep_view().contains(x),
{
    let mut out: Vec<String> = Vec::new();
    let mut idx: usize = 0;
    while idx < input.len()
        invariant
            idx <= input.len(),
            strictly_sorted(out.deep_view()),
            forall|x: Seq<char>|
                out.deep_view().contains(x) <==> input.deep_view().subrange(
                    0,
                    idx as int,
                ).contains(x),
        decreases input.len() - idx,
    {
        let x = input[idx].clone();
        let ghost pre = out.deep_view();
        let mut lo: usize = 0;
        let mut dup = false;
        // find the insertion point for x
        loop
            invariant_except_break
                !dup,
            invariant
                lo <= out.len(),
                forall|k: int| 0 <= k < lo ==> chars_lt(out.deep_view()[k], x@),
                out.deep_view() == pre,
            ensures
                lo <= out.len(),
                forall|k: int| 0 <= k < lo ==> chars_lt(out.deep_view()[k], x@),
                dup ==> lo < out.len() && out.deep_view()[lo as int] == x@,
                !dup && lo < out.len() ==> chars_lt(x@, out.deep_view()[lo as int]),
                out.deep_view() == pre,
            decreases out.len() - lo,
        {
            if lo == out.len() {
                break;
            }
            if str_lt(out[lo].as_str(), x.as_str()) {
                lo = lo + 1;
            } else if str_lt(x.as_str(), out[lo].as_str()) {
                break;
            } else {
                proof {
                    lemma_chars_lt_total(out.deep_view()[lo as int], x@);
                }
                dup = true;
                break;
            }
        }
        if !dup {
            proof {
                if lo < pre.len() {
                    assert(chars_lt(x@, pre[lo as int]));
                }
            }
            out.insert(lo, x);
            proof {
                let post = out.deep_view();
                assert(post =~= pre.subrange(0, lo as int) + seq![x@] + pre.subrange(
                    lo as int,
                    pre.len() as int,
                ));
                assert forall|i: int, j: int| 0 <= i < j < post.len() implies chars_lt(
                    post[i],
                    post[j],
                ) by {
                    if i < lo && j == lo {
                        assert(post[i] == pre[i]);
                    } else if i == lo && j > lo {
                        assert(post[j] == pre[j - 1]);
                        if j - 1 > lo {
                            lemma_chars_lt_trans(x@, pre[lo as int], pre[j - 1]);
                        }
                    } else if i < lo && j > lo {
                        assert(post[i] == pre[i]);
                        assert(post[j] == pre[j - 1]);
                        if i < j - 1 {
                            assert(chars_lt(pre[i], pre[j - 1]));
                        } else {
                            assert(chars_lt(pre[i], x@));
                            assert(chars_lt(x@, pre[lo as int]));
                            lemma_chars_lt_trans(pre[i], x@, pre[j - 1]);
                        }
                    } else if j < lo {
                        // both i and j lie before the insertion point
                        assert(post[i] == pre[i]);
                        assert(post[j] == pre[j]);
                    } else {
                        // both i and j lie past the insertion point
                        assert(post[i] == pre[i - 1]);
                        assert(post[j] == pre[j - 1]);
                        assert(chars_lt(pre[i - 1], pre[j - 1]));
                    }
                }
                assert forall|y: Seq<char>| post.contains(y) implies (pre.contains(y) || y
                    == x@) by {
                    let k = choose|k: int| 0 <= k < post.len() && post[k] == y;
                    if k < lo {
                        assert(pre[k] == y);
                    } else if k > lo {
                        assert(pre[k - 1] == y);
                    }
                }
                assert forall|y: Seq<char>| pre.contains(y) implies post.contains(y) by {
                    let k = choose|k: int| 0 <= k < pre.len() && pre[k] == y;
                    if k < lo {
                        assert(post[k] == y);
                    } else {
                        assert(post[k + 1] == y);
                    }
                }
                assert(post.contains(x@)) by {
                    assert(post[lo as int] == x@);
                }
            }
        }
        proof {
            let dv = input.deep_view();
            let sub1 = dv.subrange(0, idx as int);
            let sub2 = dv.subrange(0, idx + 1);
            assert(x@ == dv[idx as int]);
            assert(sub2 =~= sub1 + seq![x@]);
            assert forall|y: Seq<char>| sub2.contains(y) implies (sub1.contains(y) || y
                == x@) by {
                let k = choose|k: int| 0 <= k < sub2.len() && sub2[k] == y;
                if k < idx {
                    assert(sub1[k] == y);
                }
            }
            assert forall|y: Seq<char>| sub1.contains(y) implies sub2.contains(y) by {
                let k = choose|k: int| 0 <= k < sub1.len() && sub1[k] == y;
                assert(sub2[k] == y);
            }
            assert(sub2[idx as int] == x@);
            if dup {
                assert(out.deep_view().contains(x@)) by {
                    assert(out.deep_view()[lo as int] == x@);
                }
            }
        }
        idx = idx + 1;
    }
    proof {
        assert(input.deep_view().subrange(0, input.len() as int) =~= input.deep_view());
    }
    out
}

/// The keys of a sequence of key-value string pairs.
pub open spec fn pair_keys(s: Seq<(Seq<char>, Seq<char>)>) -> Seq<Seq<char>> {
    s.map_values(|p: (Seq<char>, Seq<char>)| p.0)
}

/// Whether some pair of `s` carries the key `k`.
pub open spec fn has_key(s: Seq<(Seq<char>, Seq<char>)>, k: Seq<char>) -> bool {
    exists|i: int| 0 <= i < s.len() && s[i].0 == k
}

/// Sorts the pairs into strictly increasing key order, dropping pairs
/// whose key was already placed.
///
/// Every pair of the result comes from the input, every input key is
/// represented, and the keys come out strictly sorted — the canonical
/// order in which a map is serialized before hashing.
pub fn sort_dedup_pairs(input: Vec<(String, String)>) -> (out: Vec<(String, String)>)
    ensures
        strictly_sorted(pair_keys(out.deep_view())),
        forall|p: (Seq<char>, Seq<char>)|
            out.deep_view().contains(p) ==> input.deep_view().contains(p),
        forall|k: Seq<char>| has_key(out.deep_view(), k) <==> has_key(input.deep_view(), k),
{
    let mut out: Vec<(String, String)> = Vec::new();
    let mut idx: usize = 0;
    while idx < input.len()
        invariant
            idx <= input.len(),
            strictly_sorted(pair_keys(out.deep_view())),
            forall|p: (Seq<char>, Seq<char>)|
                out.deep_view().contains(p) ==> input.deep_view().subrange(
                    0,
                    idx as int,
                ).contains(p),
            forall|k: Seq<char>|
                has_key(out.deep_view(), k) <==> has_key(
                    input.deep_view().subrange(0, idx as int),
                    k,
                ),
        decreases input.len() - idx,
    {
        let x_key = input[idx].0.clone();
        let x_val = input[idx].1.clone();
        let ghost pre = out.deep_view();
        let mut lo: usize = 0;
        let mut dup = false;
        loop
            invariant_except_break
                !dup,
            invariant
                lo <= out.len(),
                forall|j: int| 0 <= j < lo ==> chars_lt(pair_keys(out.deep_view())[j], x_key@),
                out.deep_view() == pre,
            ensures
                lo <= out.len(),
                forall|j: int| 0 <= j < lo ==> chars_lt(pair_keys(out.deep_view())[j], x_key@),
                dup ==> lo < out.len() && out.deep_view()[lo as int].0 == x_key@,
                !dup && lo < out.len() ==> chars_lt(x_key@, out.deep_view()[lo as int].0),
                out.deep_view() == pre,
            decreases out.len() - lo,
        {
            if lo == out.len() {
                break;
            }
            if str_lt(out[lo].0.as_str(), x_key.as_str()) {
                lo = lo + 1;
            } else if str_lt(x_key.as_str(), out[lo].0.as_str()) {
                break;
            } else {
                proof {
                    lemma_chars_lt_total(out.deep_view()[lo as int].0, x_key@);
                }
                dup = true;
                break;
            }
        }
        if !dup {
            out.insert(lo, (x_key, x_val));
            proof {
                let post = out.deep_view();
                let x: (Seq<char>, Seq<char>) = post[lo as int];
                assert(post =~= pre.subrange(0, lo as int) + seq![x] + pre.subrange(
                    lo as int,
                    pre.len() as int,
                ));
                let pk = pair_keys(post);
                let prk = pair_keys(pre);
                assert forall|i: int, j: int| 0 <= i < j < pk.len() implies chars_lt(
                    pk[i],
                    pk[j],
                ) by {
                    if i < lo && j == lo {
                        assert(post[i] == pre[i]);
                        assert(chars_lt(prk[i], x.0));
                    } else if i == lo && j > lo {
                        assert(post[j] == pre[j - 1]);
                        if j - 1 > lo {
                            assert(chars_lt(x.0, prk[lo as int]));
                            assert(chars_lt(prk[lo as int], prk[j - 1]));
                            lemma_chars_lt_trans(x.0, prk[lo as int], prk[j - 1]);
                        } else {
                            assert(chars_lt(x.0, prk[lo as int]));
                        }
                    } else if i < lo && j > lo {
                        assert(post[i] == pre[i]);
                        assert(post[j] == pre[j - 1]);
                        if i < j - 1 {
                            assert(chars_lt(prk[i], prk[j - 1]));
                        } else {
                            assert(chars_lt(prk[i], x.0));
                            assert(chars_lt(x.0, prk[lo as int]));
                            lemma_chars_lt_trans(prk[i], x.0, prk[j - 1]);
                        }
                    } else if j < lo {
                        assert(post[i] == pre[i]);
                        assert(post[j] == pre[j]);
                        assert(chars_lt(prk[i], prk[j]));
                    } else {
                        assert(post[i] == pre[i - 1]);
                        assert(post[j] == pre[j - 1]);
                        assert(chars_lt(prk[i - 1], prk[j - 1]));
                    }
                }
                assert forall|p: (Seq<char>, Seq<char>)| post.contains(p) implies (pre.contains(
                    p,
                ) || p == x) by {
                    let m = choose|m: int| 0 <= m < post.len() && post[m] == p;
                    if m < lo {
                        assert(pre[m] == p);
                    } else if m > lo {
                        assert(pre[m - 1] == p);
                    }
                }
                assert forall|p: (Seq<char>, Seq<char>)| pre.contains(p) implies post.contains(
                    p,
                ) by {
                    let m = choose|m: int| 0 <= m < pre.len() && pre[m] == p;
                    if m < lo {
                        assert(post[m] == p);
                    } else {
                        assert(post[m + 1] == p);
                    }
                }
                assert(post.contains(x)) by {
                    assert(post[lo as int] == x);
                }
                assert forall|k: Seq<char>| has_key(post, k) implies (has_key(pre, k) || k
                    == x.0) by {
                    let m = choose|m: int| 0 <= m < post.len() && post[m].0 == k;
                    if m < lo {
                        assert(pre[m].0 == k);
                    } else if m > lo {
                        assert(pre[m - 1].0 == k);
                    }
                }
                assert forall|k: Seq<char>| has_key(pre, k) implies has_key(post, k) by {
                    let m = choose|m: int| 0 <= m < pre.len() && pre[m].0 == k;
                    if m < lo {
                        assert(post[m].0 == k);
                    } else {
                        assert(post[m + 1].0 == k);
                    }
                }
                assert(has_key(post, x.0)) by {
                    assert(post[lo as int].0 == x.0);
                }
            }
        }
        proof {
            let dv = input.deep_view();
            let sub1 = dv.subrange(0, idx as int);
            let sub2 = dv.subrange(0, idx + 1);
            assert(dv[idx as int] == (x_key@, x_val@));
            assert(sub2 =~= sub1 + seq![(x_key@, x_val@)]);
            assert forall|p: (Seq<char>, Seq<char>)| sub2.contains(p) implies (sub1.contains(p)
                || p == (x_key@, x_val@)) by {
                let m = choose|m: int| 0 <= m < sub2.len() && sub2[m] == p;
                if m < idx {
                    assert(sub1[m] == p);
                }
            }
            assert forall|p: (Seq<char>, Seq<char>)| sub1.contains(p) implies sub2.contains(
                p,
            ) by {
                let m = choose|m: int| 0 <= m < sub1.len() && sub1[m] == p;
                assert(sub2[m] == p);
            }
            assert(sub2[idx as int] == (x_key@, x_val@));
            assert forall|k: Seq<char>| has_key(sub2, k) implies (has_key(sub1, k) || k
                == x_key@) by {
                let m = choose|m: int| 0 <= m < sub2.len() && sub2[m].0 == k;
                if m < idx {
                    assert(sub1[m].0 == k);
                }
            }
            assert forall|k: Seq<char>| has_key(sub1, k) implies has_key(sub2, k) by {
                let m = choose|m: int| 0 <= m < sub1.len() && sub1[m].0 == k;
                assert(sub2[m].0 == k);
            }
            if dup {
                assert(has_key(out.deep_view(), x_key@)) by {
                    assert(out.deep_view()[lo as int].0 == x_key@);
                }
            }
        }
        idx = idx + 1;
    }
    proof {
        assert(input.deep_view().subrange(0, input.len() as int) =~= input.deep_view());
    }
    out
}

} // verus!
