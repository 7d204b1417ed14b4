//! The service-side ingress: decoding session keys off the sidecar
//! pipe and handing each one to exactly one request handler.

use vstd::prelude::*;

use crate::crypto::{aead_open_of, AeadKey};
use crate::errors::{AttestErrors, AttestResult};
use crate::fifoline::{fifo_line, parse_fifo_line};
use crate::types::ClientId;

verus! {

/// The first session key recorded for a client identifier.
pub open spec fn key_lookup(m: Seq<(u64, Seq<u8>)>, id: u64) -> Option<Seq<u8>>
    decreases m.len(),
{
    if m.len() == 0 {
        None
    } else if m[0].0 == id {
        Some(m[0].1)
    } else {
        key_lookup(m.skip(1), id)
    }
}

/// The process-wide map from client identifiers to session keys.
///
/// Entries are inserted by the pipe reader and removed by the first
/// handler that claims them.
pub struct ClientSessionMap {
    entries: Vec<(ClientId, AeadKey)>,
}

impl View for ClientSessionMap {
    type V = Seq<(u64, Seq<u8>)>;

    closed spec fn view(&self) -> Seq<(u64, Seq<u8>)> {
        Seq::new(self.entries@.len(), |i: int| (self.entries@[i].0@, self.entries@[i].1@))
    }
}

impl ClientSessionMap {
    /// Each client identifier holds at most one session key.
    pub open spec fn wf(&self) -> bool {
        forall|i: int, j: int|
            0 <= i < j < self@.len() ==> #[trigger] self@[i].0 != #[trigger] self@[j].0
    }

    /// An empty map.
    pub fn new() -> (r: ClientSessionMap)
        ensures
            r@ =~= Seq::<(u64, Seq<u8>)>::empty(),
            r.wf(),
    {
        ClientSessionMap { entries: Vec::new() }
    }

    /// Records the session key for a client, replacing any key the
    /// client already held.
    pub fn insert(&mut self, client_id: ClientId, key: AeadKey)
        requires
            old(self).wf(),
        ensures
            final(self).wf(),
            key_lookup(final(self)@, client_id@) == Some(key@),
            forall|k: u64|
                k != client_id@ ==> key_lookup(final(self)@, k) == key_lookup(
                    #[trigger] old(self)@,
                    k,
                ),
    {
        let ghost pre = self@;
        let mut i: usize = 0;
        proof {
            assert(pre.skip(0) =~= pre);
        }
        while i < self.entries.len()
            invariant
                i <= pre.len(),
                self@ == pre,
                old(self).wf(),
                self@ == old(self)@,
                forall|j: int| 0 <= j < i ==> #[trigger] pre[j].0 != client_id@,
            decreases pre.len() - i,
        {
            if self.entries[i].0 == client_id {
                proof {
                    assert(pre[i as int].0 == client_id@);
                }
                self.entries.set(i, (client_id, key));
                proof {
                    let post = self@;
                    assert(post.len() == pre.len());
                    assert(post[i as int] == (client_id@, key@));
                    assert forall|j: int| 0 <= j < post.len() && j != i implies post[j]
                        == pre[j] by {}
                    assert(key_lookup(post, client_id@) == Some(key@)) by {
                        lemma_key_lookup_hit(post, i as int);
                    }
                    assert forall|k: u64| k != client_id@ implies key_lookup(post, k)
                        == key_lookup(pre, k) by {
                        lemma_key_lookup_set(pre, post, i as int, k);
                    }
                }
                return ;
            }
            proof {
                assert(pre[i as int].0 != client_id@);
            }
            i = i + 1;
        }
        self.entries.push((client_id, key));
        proof {
            let post = self@;
            assert(post =~= pre.push((client_id@, key@)));
            assert forall|k: u64| true implies key_lookup(post, k) == (if key_lookup(
                pre,
                k,
            ) is Some {
                key_lookup(pre, k)
            } else if client_id@ == k {
                Some(key@)
            } else {
                None
            }) by {
                lemma_key_lookup_push(pre, (client_id@, key@), k);
            }
            assert(key_lookup(pre, client_id@) is None) by {
                lemma_key_lookup_none(pre, client_id@);
            }
        }
    }

    /// Removes and returns the session key for a client: a second
    /// retrieval of the same identifier fails, which also guards
    /// against replay by client id.
    pub fn take(&mut self, client_id: &ClientId) -> (r: AttestResult<AeadKey>)
        requires
            old(self).wf(),
        ensures
            final(self).wf(),
            r is Ok <==> key_lookup(old(self)@, client_id@) is Some,
            r matches Ok(k) ==> key_lookup(old(self)@, client_id@) == Some(k@),
            key_lookup(final(self)@, client_id@) is None,
            forall|k: u64|
                k != client_id@ ==> key_lookup(final(self)@, k) == key_lookup(
                    #[trigger] old(self)@,
                    k,
                ),
            r matches Err(e) ==> e == AttestErrors::InvalidAttestation && final(self)@ == old(
                self,
            )@,
    {
        let ghost pre = self@;
        let mut i: usize = 0;
        proof {
            assert(pre.skip(0) =~= pre);
        }
        while i < self.entries.len()
            invariant
                i <= pre.len(),
                self@ == pre,
                old(self).wf(),
                self@ == old(self)@,
                forall|j: int| 0 <= j < i ==> #[trigger] pre[j].0 != client_id@,
            decreases pre.len() - i,
        {
            if self.entries[i].0 == *client_id {
                proof {
                    assert(pre[i as int].0 == client_id@);
                }
                let (_, key) = self.entries.remove(i);
                proof {
                    let post = self@;
                    assert(post =~= pre.subrange(0, i as int) + pre.subrange(
                        i + 1,
                        pre.len() as int,
                    ));
                    assert(key_lookup(pre, client_id@) == Some(pre[i as int].1)) by {
                        lemma_key_lookup_hit(pre, i as int);
                    }
                    assert forall|m: int, n: int|
                        0 <= m < n < post.len() implies #[trigger] post[m].0
                        != #[trigger] post[n].0 by {
                        let m2: int = if m < i {
                            m
                        } else {
                            m + 1
                        };
                        let n2: int = if n < i {
                            n
                        } else {
                            n + 1
                        };
                        assert(post[m] == pre[m2]);
                        assert(post[n] == pre[n2]);
                    }
                    assert(key_lookup(post, client_id@) is None) by {
                        assert forall|j: int| 0 <= j < post.len() implies #[trigger] post[j].0
                            != client_id@ by {
                            if j < i {
                                assert(post[j] == pre[j]);
                            } else {
                                assert(post[j] == pre[j + 1]);
                            }
                        }
                        lemma_key_lookup_none(post, client_id@);
                    }
                    assert forall|k: u64| k != client_id@ implies key_lookup(post, k)
                        == key_lookup(pre, k) by {
                        lemma_key_lookup_remove(pre, i as int, k);
                    }
                }
                return Ok(key);
            }
            proof {
                assert(pre[i as int].0 != client_id@);
            }
            i = i + 1;
        }
        proof {
            assert(key_lookup(pre, client_id@) is None) by {
                lemma_key_lookup_none(pre, client_id@);
            }
        }
        Err(AttestErrors::InvalidAttestation)
    }
}

/// Retrieves the session key for a client, consuming it: the entry is
/// removed from the map, so a repeated retrieval fails.
pub fn get_key_for_client(map: &mut ClientSessionMap, client_id: &ClientId) -> (r: AttestResult<
    AeadKey,
>)
    requires
        old(map).wf(),
    ensures
        final(map).wf(),
        r is Ok <==> key_lookup(old(map)@, client_id@) is Some,
        r matches Ok(k) ==> key_lookup(old(map)@, client_id@) == Some(k@),
        key_lookup(final(map)@, client_id@) is None,
        forall|k: u64|
            k != client_id@ ==> key_lookup(final(map)@, k) == key_lookup(
                #[trigger] old(map)@,
                k,
            ),
{
    map.take(client_id)
}

/// Decodes one pipe line under the pipe key: the client identifier
/// and the delivered session key.
///
/// Succeeds exactly on a canonical line whose payload authenticates
/// under the key and decrypts to 32 bytes of key material, recovering
/// the delivered client identifier and session key; every other line
/// is rejected as malformed, as a protocol violation by the sidecar.
pub fn read_session_key(line: &Vec<u8>, kek: &AeadKey) -> (r: AttestResult<(ClientId, AeadKey)>)
    ensures
        forall|n: Seq<u8>, c: Seq<u8>, id: u64|
            (line@ == fifo_line(n, c, id) && n.len() == 12 && aead_open_of(kek@, n, c) is Some
                && aead_open_of(kek@, n, c).unwrap().len() == 32) ==> (r matches Ok(t) && t.0@
                == id && t.1@ == aead_open_of(kek@, n, c).unwrap()),
        !(exists|n: Seq<u8>, c: Seq<u8>, id: u64| line@ == fifo_line(n, c, id) && n.len() == 12)
            ==> r == Err::<(ClientId, AeadKey), AttestErrors>(
            AttestErrors::AttestDataMalformedError,
        ),
        forall|n: Seq<u8>, c: Seq<u8>, id: u64|
            (line@ == fifo_line(n, c, id) && n.len() == 12 && aead_open_of(kek@, n, c) is None)
                ==> r == Err::<(ClientId, AeadKey), AttestErrors>(
                AttestErrors::AttestDataMalformedError,
            ),
        r matches Ok(t) ==> exists|n: Seq<u8>, c: Seq<u8>|
            line@ == fifo_line(n, c, t.0@) && n.len() == 12 && #[trigger] aead_open_of(
                kek@,
                n,
                c,
            ) == Some(t.1@),
        r matches Err(e) ==> e == AttestErrors::AttestDataMalformedError,
{
    let parsed = match parse_fifo_line(line) {
        Some(t) => t,
        None => {
            return Err(AttestErrors::AttestDataMalformedError);
        },
    };
    let (nonce, ct, id) = parsed;
    if nonce.len() != 12 {
        proof {
            assert forall|n: Seq<u8>, c: Seq<u8>, id2: u64|
                line@ == fifo_line(n, c, id2) implies !(n.len() == 12) by {
                assert(nonce@ == n);
            }
        }
        return Err(AttestErrors::AttestDataMalformedError);
    }
    let material = match kek.open(&nonce, &ct) {
        Ok(m) => m,
        Err(_) => {
            proof {
                assert forall|n: Seq<u8>, c: Seq<u8>, id2: u64|
                    line@ == fifo_line(n, c, id2) && n.len() == 12 implies aead_open_of(
                    kek@,
                    n,
                    c,
                ) is None by {
                    assert(nonce@ == n && ct@ == c);
                }
            }
            return Err(AttestErrors::AttestDataMalformedError);
        },
    };
    if material.len() != 32 {
        // the payload must be exactly one 256-bit session key
        proof {
            assert forall|n: Seq<u8>, c: Seq<u8>, id2: u64|
                (line@ == fifo_line(n, c, id2) && n.len() == 12 && aead_open_of(kek@, n, c)
                    is Some && aead_open_of(kek@, n, c).unwrap().len() == 32) implies false by {
                assert(nonce@ == n && ct@ == c);
                assert(aead_open_of(kek@, nonce@, ct@) == Some(material@));
            }
        }
        return Err(AttestErrors::AttestDataMalformedError);
    }
    let ghost material_view = material@;
    let key = match AeadKey::new(material) {
        Ok(k) => k,
        Err(_) => {
            proof {
                assert(false);
            }
            return Err(AttestErrors::AttestDataMalformedError);
        },
    };
    proof {
        assert forall|n: Seq<u8>, c: Seq<u8>, id2: u64|
            (line@ == fifo_line(n, c, id2) && n.len() == 12 && aead_open_of(kek@, n, c) is Some
                && aead_open_of(kek@, n, c).unwrap().len() == 32) implies (id == id2 && key@
            == aead_open_of(kek@, n, c).unwrap()) by {
            assert(nonce@ == n && ct@ == c && id == id2);
            assert(aead_open_of(kek@, nonce@, ct@) == Some(material_view));
        }
        assert(line@ == fifo_line(nonce@, ct@, id));
        assert(aead_open_of(kek@, nonce@, ct@) == Some(key@));
    }
    Ok((ClientId(id), key))
}

/// Looking a key up lands on the first pair carrying it.
proof fn lemma_key_lookup_hit(m: Seq<(u64, Seq<u8>)>, i: int)
    requires
        0 <= i < m.len(),
        forall|j: int| 0 <= j < i ==> #[trigger] m[j].0 != m[i].0,
    ensures
        key_lookup(m, m[i].0) == Some(m[i].1),
    decreases i,
{
    if i > 0 {
        assert(m.skip(1)[i - 1] == m[i]);
        assert forall|j: int| 0 <= j < i - 1 implies #[trigger] m.skip(1)[j].0 != m.skip(
            1,
        )[i - 1].0 by {
            assert(m.skip(1)[j] == m[j + 1]);
        }
        lemma_key_lookup_hit(m.skip(1), i - 1);
    }
}

/// A key held by no pair looks up to nothing.
proof fn lemma_key_lookup_none(m: Seq<(u64, Seq<u8>)>, k: u64)
    requires
        forall|j: int| 0 <= j < m.len() ==> #[trigger] m[j].0 != k,
    ensures
        key_lookup(m, k) is None,
    decreases m.len(),
{
    if m.len() > 0 {
        assert forall|j: int| 0 <= j < m.skip(1).len() implies #[trigger] m.skip(1)[j].0
            != k by {
            assert(m.skip(1)[j] == m[j + 1]);
        }
        lemma_key_lookup_none(m.skip(1), k);
    }
}

/// Replacing the pair at a position touches no other key's lookup.
proof fn lemma_key_lookup_set(pre: Seq<(u64, Seq<u8>)>, post: Seq<(u64, Seq<u8>)>, i: int, k: u64)
    requires
        pre.len() == post.len(),
        0 <= i < pre.len(),
        forall|j: int| 0 <= j < pre.len() && j != i ==> post[j] == #[trigger] pre[j],
        post[i].0 == pre[i].0,
        k != pre[i].0,
    ensures
        key_lookup(post, k) == key_lookup(pre, k),
    decreases pre.len(),
{
    if pre.len() > 0 {
        if i == 0 {
            assert(post.skip(1) =~= pre.skip(1));
        } else {
            assert(post[0] == pre[0]);
            if pre[0].0 != k {
                assert forall|j: int| 0 <= j < pre.skip(1).len() && j != i - 1 implies
                    post.skip(1)[j] == #[trigger] pre.skip(1)[j] by {
                    assert(pre.skip(1)[j] == pre[j + 1]);
                    assert(post.skip(1)[j] == post[j + 1]);
                }
                assert(post.skip(1)[i - 1].0 == pre.skip(1)[i - 1].0) by {
                    assert(pre.skip(1)[i - 1] == pre[i]);
                    assert(post.skip(1)[i - 1] == post[i]);
                }
                lemma_key_lookup_set(pre.skip(1), post.skip(1), i - 1, k);
            }
        }
    }
}

/// A lookup in a sequence with one pair appended.
proof fn lemma_key_lookup_push(m: Seq<(u64, Seq<u8>)>, p: (u64, Seq<u8>), k: u64)
    ensures
        key_lookup(m.push(p), k) == (if key_lookup(m, k) is Some {
            key_lookup(m, k)
        } else if p.0 == k {
            Some(p.1)
        } else {
            None
        }),
    decreases m.len(),
{
    if m.len() == 0 {
        assert(m.push(p)[0] == p);
        assert(m.push(p).skip(1) =~= Seq::<(u64, Seq<u8>)>::empty());
        assert(key_lookup(m, k) is None);
        if p.0 != k {
            assert(key_lookup(m.push(p), k) == key_lookup(m.push(p).skip(1), k));
        }
    } else {
        assert(m.push(p)[0] == m[0]);
        assert(m.push(p).skip(1) =~= m.skip(1).push(p));
        lemma_key_lookup_push(m.skip(1), p, k);
    }
}

/// Removing the pair at a position touches no other key's lookup,
/// provided that key stood at most once.
proof fn lemma_key_lookup_remove(pre: Seq<(u64, Seq<u8>)>, i: int, k: u64)
    requires
        0 <= i < pre.len(),
        k != pre[i].0,
        forall|m: int, n: int|
            0 <= m < n < pre.len() ==> #[trigger] pre[m].0 != #[trigger] pre[n].0,
    ensures
        key_lookup(
            pre.subrange(0, i) + pre.subrange(i + 1, pre.len() as int),
            k,
        ) == key_lookup(pre, k),
    decreases pre.len(),
{
    let post = pre.subrange(0, i) + pre.subrange(i + 1, pre.len() as int);
    if i == 0 {
        assert(post =~= pre.skip(1));
    } else {
        assert(post[0] == pre[0]);
        if pre[0].0 != k {
            assert forall|m: int, n: int|
                0 <= m < n < pre.skip(1).len() implies #[trigger] pre.skip(1)[m].0
                != #[trigger] pre.skip(1)[n].0 by {
                assert(pre.skip(1)[m] == pre[m + 1]);
                assert(pre.skip(1)[n] == pre[n + 1]);
            }
            assert(pre.skip(1)[i - 1] == pre[i]);
            lemma_key_lookup_remove(pre.skip(1), i - 1, k);
            assert(post.skip(1) =~= pre.skip(1).subrange(0, i - 1) + pre.skip(1).subrange(
                i,
                pre.skip(1).len() as int,
            ));
        }
    }
}

} // verus!
