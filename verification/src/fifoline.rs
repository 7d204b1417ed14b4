//! The line format of the sidecar-to-service pipe.
//!
//! Each attestation delivers one line `<nonce hex>,<ciphertext
//! hex>,<client id decimal>\n` to the attested process.  Encoding is
//! specified exactly, and parsing is proved to recover every line the
//! encoder writes.

use vstd::prelude::*;

use crate::decimal::{all_dec_digits, dec_of, dec_to_u64, dec_val, lemma_dec_round_trip, u64_to_dec};
use crate::hexcode::{
    hex_at, hex_decode_bytes, hex_decode_spec, hex_encode, hex_encode_bytes, is_hex_seq,
    lemma_hex_round_trip,
};
use crate::jsoncode::append_bytes;

verus! {

/// One pipe line: nonce and ciphertext in lowercase hex, client id in
/// decimal, two commas, a terminating newline.
pub open spec fn fifo_line(nonce: Seq<u8>, ct: Seq<u8>, id: u64) -> Seq<u8> {
    hex_encode(nonce) + seq![44u8] + hex_encode(ct) + seq![44u8] + dec_of(id as nat)
        + seq![10u8]
}

/// Encodes one pipe line.
pub fn encode_fifo_line(nonce: &Vec<u8>, ct: &Vec<u8>, id: u64) -> (r: Vec<u8>)
    ensures
        r@ =~= fifo_line(nonce@, ct@, id),
{
    let mut out = hex_encode_bytes(nonce);
    out.push(44);
    let ct_hex = hex_encode_bytes(ct);
    append_bytes(&mut out, &ct_hex);
    out.push(44);
    let id_dec = u64_to_dec(id);
    append_bytes(&mut out, &id_dec);
    out.push(10);
    out
}

/// Hex encodings hold only digit bytes: never a comma or a newline.
proof fn lemma_hex_no_separator(s: Seq<u8>)
    ensures
        forall|k: int|
            0 <= k < hex_encode(s).len() ==> 48 <= #[trigger] hex_encode(s)[k] <= 102
                && hex_encode(s)[k] != 44 && hex_encode(s)[k] != 10,
{
    assert forall|k: int| 0 <= k < hex_encode(s).len() implies 48 <= #[trigger] hex_encode(
        s,
    )[k] <= 102 && hex_encode(s)[k] != 44 && hex_encode(s)[k] != 10 by {
        assert(hex_encode(s)[k] == hex_at(s, k));
    }
}

/// The layout of a pipe line: where the commas stand, what each
/// segment holds, and that the segments decode back to the inputs.
proof fn lemma_fifo_layout(nonce: Seq<u8>, ct: Seq<u8>, id: u64)
    ensures
        ({
            let w = fifo_line(nonce, ct, id);
            let a = 2 * nonce.len() as int;
            let b = a + 1 + 2 * ct.len() as int;
            &&& w.len() == b + 1 + dec_of(id as nat).len() + 1
            &&& dec_of(id as nat).len() >= 1
            &&& forall|k: int| 0 <= k < a ==> #[trigger] w[k] != 44 && w[k] != 10
            &&& w[a] == 44
            &&& forall|k: int| a < k < b ==> #[trigger] w[k] != 44 && w[k] != 10
            &&& w[b] == 44
            &&& forall|k: int| b < k < w.len() - 1 ==> #[trigger] w[k] != 44 && w[k] != 10
            &&& w[w.len() - 1] == 10
            &&& w.subrange(0, a) == hex_encode(nonce)
            &&& w.subrange(a + 1, b) == hex_encode(ct)
            &&& w.subrange(b + 1, w.len() - 1) == dec_of(id as nat)
            &&& is_hex_seq(hex_encode(nonce))
            &&& hex_decode_spec(hex_encode(nonce)) == nonce
            &&& is_hex_seq(hex_encode(ct))
            &&& hex_decode_spec(hex_encode(ct)) == ct
            &&& all_dec_digits(dec_of(id as nat))
            &&& dec_val(dec_of(id as nat)) == id as nat
        }),
{
    let w = fifo_line(nonce, ct, id);
    let a = 2 * nonce.len() as int;
    let b = a + 1 + 2 * ct.len() as int;
    lemma_hex_no_separator(nonce);
    lemma_hex_no_separator(ct);
    lemma_hex_round_trip(nonce);
    lemma_hex_round_trip(ct);
    lemma_dec_round_trip(id as nat);
    let d = dec_of(id as nat);
    assert(w.subrange(0, a) =~= hex_encode(nonce));
    assert(w.subrange(a + 1, b) =~= hex_encode(ct));
    assert(w.subrange(b + 1, w.len() - 1) =~= d);
    assert forall|k: int| b < k < w.len() - 1 implies #[trigger] w[k] != 44 && w[k] != 10 by {
        assert(w[k] == d[k - b - 1]);
        assert(48 <= d[k - b - 1] <= 57);
    }
    assert forall|k: int| 0 <= k < a implies #[trigger] w[k] != 44 && w[k] != 10 by {
        assert(w[k] == hex_encode(nonce)[k]);
    }
    assert forall|k: int| a < k < b implies #[trigger] w[k] != 44 && w[k] != 10 by {
        assert(w[k] == hex_encode(ct)[k - a - 1]);
    }
}

/// Copies the bytes of `v` between `from` and `to`.
fn sub_vec(v: &Vec<u8>, from: usize, to: usize) -> (r: Vec<u8>)
    requires
        from <= to <= v@.len(),
    ensures
        r@ =~= v@.subrange(from as int, to as int),
{
    let mut r: Vec<u8> = Vec::new();
    let mut i = from;
    while i < to
        invariant
            from <= i <= to <= v@.len(),
            r@ =~= v@.subrange(from as int, i as int),
        decreases to - i,
    {
        r.push(v[i]);
        proof {
            assert(v@.subrange(from as int, i + 1) =~= v@.subrange(from as int, i as int).push(
                v@[i as int],
            ));
        }
        i = i + 1;
    }
    r
}

/// Whether two byte vectors hold the same bytes.
fn bytes_eq(a: &Vec<u8>, b: &Vec<u8>) -> (r: bool)
    ensures
        r == (a@ == b@),
{
    if a.len() != b.len() {
        return false;
    }
    let mut i: usize = 0;
    while i < a.len()
        invariant
            i <= a@.len(),
            a@.len() == b@.len(),
            forall|k: int| 0 <= k < i ==> a@[k] == #[trigger] b@[k],
        decreases a@.len() - i,
    {
        if a[i] != b[i] {
            return false;
        }
        i = i + 1;
    }
    proof {
        assert(a@ =~= b@);
    }
    true
}

/// Finds the first comma at or after `from`.
fn find_comma(line: &Vec<u8>, from: usize) -> (r: Option<usize>)
    ensures
        r matches Some(p) ==> from <= p < line@.len() && line@[p as int] == 44 && forall|k: int|
            from <= k < p ==> #[trigger] line@[k] != 44,
        r is None ==> forall|k: int| from <= k < line@.len() ==> #[trigger] line@[k] != 44,
{
    let mut p = from;
    while p < line.len()
        invariant
            from <= p,
            forall|k: int| from <= k < p ==> #[trigger] line@[k] != 44,
        decreases line@.len() - p,
    {
        if line[p] == 44 {
            return Some(p);
        }
        p = p + 1;
    }
    None
}

/// Parses one pipe line into its nonce, ciphertext and client id.
///
/// Accepts exactly the canonical lines the encoder writes: parsing
/// succeeds precisely on such a line, and recovers its values.
#[verifier::rlimit(60)]
pub fn parse_fifo_line(line: &Vec<u8>) -> (r: Option<(Vec<u8>, Vec<u8>, u64)>)
    ensures
        forall|nonce: Seq<u8>, ct: Seq<u8>, id: u64|
            line@ == fifo_line(nonce, ct, id) ==> (r matches Some(t) && t.0@ == nonce && t.1@
                == ct && t.2 == id),
        r matches Some(t) ==> line@ == fifo_line(t.0@, t.1@, t.2),
{
    let len = line.len();
    if len == 0 || line[len - 1] != 10 {
        proof {
            assert forall|nonce: Seq<u8>, ct: Seq<u8>, id: u64|
                line@ == fifo_line(nonce, ct, id) implies false by {
                lemma_fifo_layout(nonce, ct, id);
            }
        }
        return None;
    }
    let p1 = match find_comma(line, 0) {
        Some(p) => p,
        None => {
            proof {
                assert forall|nonce: Seq<u8>, ct: Seq<u8>, id: u64|
                    line@ == fifo_line(nonce, ct, id) implies false by {
                    lemma_fifo_layout(nonce, ct, id);
                    assert(line@[2 * nonce.len() as int] == 44);
                }
            }
            return None;
        },
    };
    let p2 = match find_comma(line, p1 + 1) {
        Some(p) => p,
        None => {
            proof {
                assert forall|nonce: Seq<u8>, ct: Seq<u8>, id: u64|
                    line@ == fifo_line(nonce, ct, id) implies false by {
                    lemma_fifo_layout(nonce, ct, id);
                    let a = 2 * nonce.len() as int;
                    let b = a + 1 + 2 * ct.len() as int;
                    assert(p1 == a);
                    assert(line@[b] == 44);
                }
            }
            return None;
        },
    };
    if p2 + 1 > len - 1 {
        proof {
            assert forall|nonce: Seq<u8>, ct: Seq<u8>, id: u64|
                line@ == fifo_line(nonce, ct, id) implies false by {
                lemma_fifo_layout(nonce, ct, id);
                let a = 2 * nonce.len() as int;
                let b = a + 1 + 2 * ct.len() as int;
                assert(p1 == a);
                assert(p2 == b);
            }
        }
        return None;
    }
    let seg1 = sub_vec(line, 0, p1);
    let seg2 = sub_vec(line, p1 + 1, p2);
    let seg3 = sub_vec(line, p2 + 1, len - 1);
    let nonce_bytes = match crate::hexcode::hex_decode_bytes(&seg1) {
        Some(v) => v,
        None => {
            proof {
                assert forall|nonce: Seq<u8>, ct: Seq<u8>, id: u64|
                    line@ == fifo_line(nonce, ct, id) implies false by {
                    lemma_fifo_layout(nonce, ct, id);
                    let a = 2 * nonce.len() as int;
                    assert(p1 == a);
                    assert(seg1@ == hex_encode(nonce));
                }
            }
            return None;
        },
    };
    let ct_bytes = match crate::hexcode::hex_decode_bytes(&seg2) {
        Some(v) => v,
        None => {
            proof {
                assert forall|nonce: Seq<u8>, ct: Seq<u8>, id: u64|
                    line@ == fifo_line(nonce, ct, id) implies false by {
                    lemma_fifo_layout(nonce, ct, id);
                    let a = 2 * nonce.len() as int;
                    let b = a + 1 + 2 * ct.len() as int;
                    assert(p1 == a);
                    assert(p2 == b);
                    assert(seg2@ == hex_encode(ct));
                }
            }
            return None;
        },
    };
    let id = match dec_to_u64(&seg3) {
        Some(v) => v,
        None => {
            proof {
                assert forall|nonce: Seq<u8>, ct: Seq<u8>, id: u64|
                    line@ == fifo_line(nonce, ct, id) implies false by {
                    lemma_fifo_layout(nonce, ct, id);
                    let a = 2 * nonce.len() as int;
                    let b = a + 1 + 2 * ct.len() as int;
                    assert(p1 == a);
                    assert(p2 == b);
                    assert(seg3@ == dec_of(id as nat));
                }
            }
            return None;
        },
    };
    // only the canonical rendering of the decoded values is accepted
    let seg1_canon = hex_encode_bytes(&nonce_bytes);
    if !bytes_eq(&seg1_canon, &seg1) {
        proof {
            assert forall|nonce: Seq<u8>, ct: Seq<u8>, id2: u64|
                line@ == fifo_line(nonce, ct, id2) implies false by {
                lemma_fifo_layout(nonce, ct, id2);
                let a = 2 * nonce.len() as int;
                assert(p1 == a);
                assert(seg1@ == hex_encode(nonce));
                assert(nonce_bytes@ == nonce);
            }
        }
        return None;
    }
    let seg2_canon = hex_encode_bytes(&ct_bytes);
    if !bytes_eq(&seg2_canon, &seg2) {
        proof {
            assert forall|nonce: Seq<u8>, ct: Seq<u8>, id2: u64|
                line@ == fifo_line(nonce, ct, id2) implies false by {
                lemma_fifo_layout(nonce, ct, id2);
                let a = 2 * nonce.len() as int;
                let b = a + 1 + 2 * ct.len() as int;
                assert(p1 == a);
                assert(p2 == b);
                assert(seg2@ == hex_encode(ct));
                assert(ct_bytes@ == ct);
            }
        }
        return None;
    }
    let seg3_canon = u64_to_dec(id);
    if !bytes_eq(&seg3_canon, &seg3) {
        proof {
            assert forall|nonce: Seq<u8>, ct: Seq<u8>, id2: u64|
                line@ == fifo_line(nonce, ct, id2) implies false by {
                lemma_fifo_layout(nonce, ct, id2);
                let a = 2 * nonce.len() as int;
                let b = a + 1 + 2 * ct.len() as int;
                assert(p1 == a);
                assert(p2 == b);
                assert(seg3@ == dec_of(id2 as nat));
                assert(id == id2);
            }
        }
        return None;
    }
    proof {
        assert forall|nonce: Seq<u8>, ct: Seq<u8>, id2: u64|
            line@ == fifo_line(nonce, ct, id2) implies (nonce_bytes@ == nonce && ct_bytes@ == ct
            && id == id2) by {
            lemma_fifo_layout(nonce, ct, id2);
            let a = 2 * nonce.len() as int;
            let b = a + 1 + 2 * ct.len() as int;
            assert(p1 == a);
            assert(p2 == b);
            assert(seg1@ == hex_encode(nonce));
            assert(seg2@ == hex_encode(ct));
            assert(seg3@ == dec_of(id2 as nat));
        }
        // the accepted line is exactly the canonical rendering
        assert(line@ =~= line@.subrange(0, p1 as int) + seq![44u8] + line@.subrange(
            p1 + 1,
            p2 as int,
        ) + seq![44u8] + line@.subrange(p2 + 1, len - 1) + seq![10u8]);
        assert(line@ =~= fifo_line(nonce_bytes@, ct_bytes@, id));
    }
    Some((nonce_bytes, ct_bytes, id))
}

} // verus!
