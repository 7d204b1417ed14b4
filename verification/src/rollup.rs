//! The per-crate policy fingerprint and its dependency roll-up.
//!
//! A crate's policy-hash document holds its local implementation
//! fingerprints, the summary hashes of its policy-bearing
//! dependencies, and a single summary hash folding both together.
//! Dependencies are pruned against the hash index, deduplicated and
//! sorted before any hashing, which makes the summary independent of
//! the order in which they were discovered.

use vstd::prelude::*;

use vstd::string::StringExecFns;
use vstd::utf8::encode_utf8;

use crate::crypto::{sha256, sha256_of};
use crate::errors::{AttestErrors, AttestResult};
use crate::hexcode::{hex_encode, hex_encode_bytes};
use crate::jsoncode::{append_bytes, append_json_string, json_map, json_string, utf8_pairs};
use crate::order::{
    chars_lt, has_key, lemma_strictly_sorted_same_elements, pair_keys, sort_dedup,
    sort_dedup_pairs, strictly_sorted,
};
use crate::strbytes::string_bytes;

verus! {

/// A crate name, ordered lexicographically for the roll-up.
#[derive(Debug, Hash)]
pub struct CrateName(pub String);

impl View for CrateName {
    type V = Seq<char>;

    open spec fn view(&self) -> Seq<char> {
        self.0@
    }
}

impl DeepView for CrateName {
    type V = Seq<char>;

    open spec fn deep_view(&self) -> Seq<char> {
        self.0@
    }
}

impl Clone for CrateName {
    fn clone(&self) -> (r: Self)
        ensures
            r@ == self@,
    {
        CrateName(self.0.clone())
    }
}

impl PartialEq for CrateName {
    fn eq(&self, other: &Self) -> (r: bool) {
        self.0 == other.0
    }
}

impl vstd::std_specs::cmp::PartialEqSpecImpl for CrateName {
    open spec fn obeys_eq_spec() -> bool {
        true
    }

    open spec fn eq_spec(&self, other: &Self) -> bool {
        self@ == other@
    }
}

/// The mathematical content of a crate under roll-up.
#[verifier::ext_equal]
pub ghost struct CrateRollup {
    pub name: Seq<char>,
    pub local_impls: Seq<(Seq<char>, Seq<char>)>,
    pub dep_names: Seq<Seq<char>>,
    pub dep_hashes: Seq<Seq<char>>,
}

/// A crate being attested: its name, its local policy-implementation
/// fingerprints (canonically sorted by type path), and — once pruned
/// and resolved — its policy-bearing dependencies with their summary
/// hashes.
pub struct Crate {
    my_crate_name: String,
    local_implementations_stable_hashes: Vec<(String, String)>,
    dependencies_names: Vec<CrateName>,
    dependencies_hashes: Vec<String>,
}

impl View for Crate {
    type V = CrateRollup;

    closed spec fn view(&self) -> CrateRollup {
        CrateRollup {
            name: self.my_crate_name@,
            local_impls: self.local_implementations_stable_hashes.deep_view(),
            dep_names: self.dependencies_names.deep_view(),
            dep_hashes: self.dependencies_hashes.deep_view(),
        }
    }
}

/// The bytes of the member key `dependency_hashes`.
pub open spec fn key_dependency_hashes() -> Seq<u8> {
    seq![100u8, 101, 112, 101, 110, 100, 101, 110, 99, 121, 95, 104, 97, 115, 104, 101, 115]
}

/// The bytes of the member key `local_summary_hash`.
pub open spec fn key_local_summary_hash() -> Seq<u8> {
    seq![108u8, 111, 99, 97, 108, 95, 115, 117, 109, 109, 97, 114, 121, 95, 104, 97, 115, 104]
}

/// The bytes of the member key `local_impls_hashes`.
pub open spec fn key_local_impls_hashes() -> Seq<u8> {
    seq![108u8, 111, 99, 97, 108, 95, 105, 109, 112, 108, 115, 95, 104, 97, 115, 104, 101, 115]
}

/// The canonical JSON of a string map.
pub open spec fn map_json(m: Seq<(Seq<char>, Seq<char>)>) -> Seq<u8> {
    json_map(utf8_pairs(m))
}

/// The local summary: the hex digest of the canonical JSON of the
/// local implementation fingerprints.
pub open spec fn local_summary_of(impls: Seq<(Seq<char>, Seq<char>)>) -> Seq<u8> {
    hex_encode(sha256_of(map_json(impls)))
}

/// The crate summary: the digest of the dependency map's hex digest
/// concatenated, as ASCII, with the local summary.
pub open spec fn summary_of(
    deps: Seq<(Seq<char>, Seq<char>)>,
    impls: Seq<(Seq<char>, Seq<char>)>,
) -> Seq<u8> {
    hex_encode(sha256_of(hex_encode(sha256_of(map_json(deps))) + local_summary_of(impls)))
}

/// A whole policy-hash document: the summary line, then the JSON body.
pub open spec fn policy_file_of(
    deps: Seq<(Seq<char>, Seq<char>)>,
    impls: Seq<(Seq<char>, Seq<char>)>,
) -> Seq<u8> {
    summary_of(deps, impls) + seq![10u8] + (seq![123u8] + json_string(key_dependency_hashes())
        + seq![58u8] + map_json(deps) + seq![44u8] + json_string(key_local_summary_hash())
        + seq![58u8] + (seq![34u8] + local_summary_of(impls) + seq![34u8]) + seq![44u8]
        + json_string(key_local_impls_hashes()) + seq![58u8] + map_json(impls) + seq![125u8])
}

/// The names of an optional hash index; an absent index reads as
/// empty.
pub open spec fn index_names(ix: Option<Seq<Seq<char>>>) -> Seq<Seq<char>> {
    match ix {
        None => Seq::empty(),
        Some(s) => s,
    }
}

/// The view of an optional hash index handed to the roll-up.
pub open spec fn index_view(ix: Option<&Vec<String>>) -> Seq<Seq<char>> {
    match ix {
        None => Seq::empty(),
        Some(v) => v.deep_view(),
    }
}

/// The canonical pruned dependency list: the crate's dependencies that
/// the hash index holds, each once, in lexicographic order.  It is the
/// unique such sequence.
pub open spec fn pruned_deps(deps: Seq<Seq<char>>, index: Seq<Seq<char>>) -> Seq<Seq<char>> {
    choose|r: Seq<Seq<char>>|
        strictly_sorted(r) && (forall|x: Seq<char>|
            #[trigger] r.contains(x) <==> (deps.contains(x) && index.contains(x)))
}

/// Any sorted sequence holding exactly the indexed dependencies is the
/// canonical pruned list.
pub proof fn lemma_pruned_deps_unique(deps: Seq<Seq<char>>, index: Seq<Seq<char>>, r: Seq<
    Seq<char>,
>)
    requires
        strictly_sorted(r),
        forall|x: Seq<char>| #[trigger] r.contains(x) <==> (deps.contains(x) && index.contains(x)),
    ensures
        r =~= pruned_deps(deps, index),
{
    let p = pruned_deps(deps, index);
    assert(strictly_sorted(p) && (forall|x: Seq<char>|
        #[trigger] p.contains(x) <==> (deps.contains(x) && index.contains(x)))) by {
        assert(strictly_sorted(r) && (forall|x: Seq<char>|
            #[trigger] r.contains(x) <==> (deps.contains(x) && index.contains(x))));
    }
    lemma_strictly_sorted_same_elements(r, p);
}

/// Roll-up determinism: whatever order dependencies are discovered in,
/// and whatever order the hash index lists crates in, pruning yields
/// one canonical sorted list, so the summary hash cannot depend on
/// discovery order.
pub proof fn lemma_rollup_determinism(
    deps1: Seq<Seq<char>>,
    deps2: Seq<Seq<char>>,
    index: Seq<Seq<char>>,
)
    requires
        forall|x: Seq<char>| #[trigger] deps1.contains(x) <==> deps2.contains(x),
    ensures
        pruned_deps(deps1, index) =~= pruned_deps(deps2, index),
{
    let p1 = pruned_deps(deps1, index);
    lemma_exists_pruned(deps1, index);
    assert(strictly_sorted(p1) && (forall|x: Seq<char>|
        #[trigger] p1.contains(x) <==> (deps1.contains(x) && index.contains(x))));
    assert(forall|x: Seq<char>|
        #[trigger] p1.contains(x) <==> (deps2.contains(x) && index.contains(x)));
    lemma_pruned_deps_unique(deps2, index, p1);
}

/// Some sorted deduplicated intersection always exists.
proof fn lemma_exists_pruned(deps: Seq<Seq<char>>, index: Seq<Seq<char>>)
    ensures
        exists|r: Seq<Seq<char>>|
            strictly_sorted(r) && (forall|x: Seq<char>|
                #[trigger] r.contains(x) <==> (deps.contains(x) && index.contains(x))),
    decreases deps.len(),
{
    if deps.len() == 0 {
        let r = Seq::<Seq<char>>::empty();
        assert(strictly_sorted(r) && (forall|x: Seq<char>|
            #[trigger] r.contains(x) <==> (deps.contains(x) && index.contains(x))));
    } else {
        lemma_exists_pruned(deps.drop_last(), index);
        let r0 = choose|r: Seq<Seq<char>>|
            strictly_sorted(r) && (forall|x: Seq<char>|
                #[trigger] r.contains(x) <==> (deps.drop_last().contains(x) && index.contains(
                    x,
                )));
        let y = deps.last();
        if !index.contains(y) || r0.contains(y) {
            assert(strictly_sorted(r0) && (forall|x: Seq<char>|
                #[trigger] r0.contains(x) <==> (deps.contains(x) && index.contains(x)))) by {
                assert forall|x: Seq<char>| deps.contains(x) && index.contains(x) implies
                    r0.contains(x) by {
                    let m = choose|m: int| 0 <= m < deps.len() && deps[m] == x;
                    if m < deps.len() - 1 {
                        assert(deps.drop_last()[m] == x);
                    }
                }
                assert forall|x: Seq<char>| r0.contains(x) implies deps.contains(x)
                    && index.contains(x) by {
                    assert(deps.drop_last().contains(x));
                    let m = choose|m: int| 0 <= m < deps.len() - 1 && deps.drop_last()[m] == x;
                    assert(deps[m] == x);
                }
            }
        } else {
            let r1 = insert_sorted_spec(r0, y);
            assert(strictly_sorted(r1) && (forall|x: Seq<char>|
                #[trigger] r1.contains(x) <==> (deps.contains(x) && index.contains(x)))) by {
                lemma_insert_sorted_spec(r0, y);
                assert forall|x: Seq<char>| deps.contains(x) && index.contains(x) implies
                    r1.contains(x) by {
                    let m = choose|m: int| 0 <= m < deps.len() && deps[m] == x;
                    if m < deps.len() - 1 {
                        assert(deps.drop_last()[m] == x);
                    }
                }
                assert forall|x: Seq<char>| r1.contains(x) implies deps.contains(x)
                    && index.contains(x) by {
                    if x != y {
                        assert(r0.contains(x));
                        assert(deps.drop_last().contains(x));
                        let m = choose|m: int| 0 <= m < deps.len() - 1 && deps.drop_last()[m]
                            == x;
                        assert(deps[m] == x);
                    } else {
                        assert(deps.contains(y)) by {
                            assert(deps[deps.len() - 1] == y);
                        }
                    }
                }
            }
        }
    }
}

/// Where a fresh element lands in a sorted sequence.
spec fn insert_pos(r: Seq<Seq<char>>, y: Seq<char>) -> int
    decreases r.len(),
{
    if r.len() == 0 {
        0
    } else if chars_lt(y, r[0]) {
        0
    } else {
        1 + insert_pos(r.skip(1), y)
    }
}

/// A sorted sequence with a fresh element placed at its position.
spec fn insert_sorted_spec(r: Seq<Seq<char>>, y: Seq<char>) -> Seq<Seq<char>> {
    let p = insert_pos(r, y);
    r.subrange(0, p) + seq![y] + r.subrange(p, r.len() as int)
}

/// Inserting a fresh element keeps the sequence sorted and adds
/// exactly that element.
proof fn lemma_insert_sorted_spec(r: Seq<Seq<char>>, y: Seq<char>)
    requires
        strictly_sorted(r),
        !r.contains(y),
    ensures
        strictly_sorted(insert_sorted_spec(r, y)),
        forall|x: Seq<char>|
            #[trigger] insert_sorted_spec(r, y).contains(x) <==> (r.contains(x) || x == y),
    decreases r.len(),
{
    let p = insert_pos(r, y);
    lemma_insert_pos_bounds(r, y);
    let out = insert_sorted_spec(r, y);
    assert forall|i: int, j: int| 0 <= i < j < out.len() implies chars_lt(out[i], out[j]) by {
        crate::order::lemma_chars_lt_total(y, r[if i < p {
            i
        } else if i > p {
            i - 1
        } else {
            0
        }]);
        if i < p && j == p {
            assert(out[i] == r[i]);
            assert(chars_lt(r[i], y)) by {
                lemma_insert_pos_lt(r, y, i);
            }
        } else if i == p && j > p {
            assert(out[j] == r[j - 1]);
            assert(chars_lt(y, r[j - 1])) by {
                lemma_insert_pos_ge(r, y, j - 1);
            }
        } else if i < p && j > p {
            assert(out[i] == r[i]);
            assert(out[j] == r[j - 1]);
            if i < j - 1 {
            } else {
                lemma_insert_pos_lt(r, y, i);
                lemma_insert_pos_ge(r, y, j - 1);
                crate::order::lemma_chars_lt_trans(r[i], y, r[j - 1]);
            }
        } else if j < p {
            assert(out[i] == r[i]);
            assert(out[j] == r[j]);
        } else {
            assert(out[i] == r[i - 1]);
            assert(out[j] == r[j - 1]);
        }
    }
    assert forall|x: Seq<char>| #[trigger] out.contains(x) implies (r.contains(x) || x == y) by {
        let m = choose|m: int| 0 <= m < out.len() && out[m] == x;
        if m < p {
            assert(r[m] == x);
        } else if m > p {
            assert(r[m - 1] == x);
        }
    }
    assert forall|x: Seq<char>| r.contains(x) || x == y implies #[trigger] out.contains(x) by {
        if x == y {
            assert(out[p] == y);
        } else {
            let m = choose|m: int| 0 <= m < r.len() && r[m] == x;
            if m < p {
                assert(out[m] == x);
            } else {
                assert(out[m + 1] == x);
            }
        }
    }
}

/// The insertion position lies within the sequence.
proof fn lemma_insert_pos_bounds(r: Seq<Seq<char>>, y: Seq<char>)
    ensures
        0 <= insert_pos(r, y) <= r.len(),
    decreases r.len(),
{
    if r.len() > 0 && !chars_lt(y, r[0]) {
        lemma_insert_pos_bounds(r.skip(1), y);
    }
}

/// Elements before the insertion position come before the new one.
proof fn lemma_insert_pos_lt(r: Seq<Seq<char>>, y: Seq<char>, i: int)
    requires
        strictly_sorted(r),
        !r.contains(y),
        0 <= i < insert_pos(r, y),
        insert_pos(r, y) <= r.len(),
    ensures
        chars_lt(r[i], y),
    decreases r.len(),
{
    crate::order::lemma_chars_lt_total(r[0], y);
    if i == 0 {
        assert(!chars_lt(y, r[0]));
        assert(r[0] != y) by {
            assert(r.contains(r[0]));
        }
    } else {
        assert(r.skip(1).contains(y) ==> r.contains(y)) by {
            if r.skip(1).contains(y) {
                let m = choose|m: int| 0 <= m < r.skip(1).len() && r.skip(1)[m] == y;
                assert(r[m + 1] == y);
            }
        }
        assert(strictly_sorted(r.skip(1))) by {
            assert forall|a: int, b: int| 0 <= a < b < r.skip(1).len() implies chars_lt(
                r.skip(1)[a],
                r.skip(1)[b],
            ) by {
                assert(r.skip(1)[a] == r[a + 1]);
                assert(r.skip(1)[b] == r[b + 1]);
            }
        }
        lemma_insert_pos_bounds(r.skip(1), y);
        lemma_insert_pos_lt(r.skip(1), y, i - 1);
        assert(r.skip(1)[i - 1] == r[i]);
    }
}

/// Elements at or past the insertion position come after the new one.
proof fn lemma_insert_pos_ge(r: Seq<Seq<char>>, y: Seq<char>, i: int)
    requires
        strictly_sorted(r),
        !r.contains(y),
        insert_pos(r, y) <= i < r.len(),
    ensures
        chars_lt(y, r[i]),
    decreases r.len(),
{
    let p = insert_pos(r, y);
    if p == 0 {
        assert(chars_lt(y, r[0])) by {
            if !chars_lt(y, r[0]) {
                lemma_insert_pos_bounds(r.skip(1), y);
            }
        }
        if i > 0 {
            crate::order::lemma_chars_lt_trans(y, r[0], r[i]);
        }
    } else {
        assert(r.skip(1).contains(y) ==> r.contains(y)) by {
            if r.skip(1).contains(y) {
                let m = choose|m: int| 0 <= m < r.skip(1).len() && r.skip(1)[m] == y;
                assert(r[m + 1] == y);
            }
        }
        assert(strictly_sorted(r.skip(1))) by {
            assert forall|a: int, b: int| 0 <= a < b < r.skip(1).len() implies chars_lt(
                r.skip(1)[a],
                r.skip(1)[b],
            ) by {
                assert(r.skip(1)[a] == r[a + 1]);
                assert(r.skip(1)[b] == r[b + 1]);
            }
        }
        lemma_insert_pos_bounds(r.skip(1), y);
        lemma_insert_pos_ge(r.skip(1), y, i - 1);
        assert(r.skip(1)[i - 1] == r[i]);
    }
}

/// The first line recorded for a crate in a list of read files; an
/// absent entry or an absent file reads as nothing.
pub open spec fn find_line(files: Seq<(Seq<char>, Option<Seq<char>>)>, name: Seq<char>) -> Option<
    Seq<char>,
>
    decreases files.len(),
{
    if files.len() == 0 {
        None
    } else if files[0].0 == name {
        files[0].1
    } else {
        find_line(files.skip(1), name)
    }
}

/// Whether a usable summary line was read for `name`: present and not
/// blank.
pub open spec fn good_line(files: Seq<(Seq<char>, Option<Seq<char>>)>, name: Seq<char>) -> bool {
    match find_line(files, name) {
        Some(l) => l.len() > 0,
        None => false,
    }
}

/// The summary lines of the named crates, in order.
pub open spec fn dep_lines(files: Seq<(Seq<char>, Option<Seq<char>>)>, names: Seq<Seq<char>>) -> Seq<
    Seq<char>,
> {
    Seq::new(names.len(), |i: int| match find_line(files, names[i]) {
        Some(l) => l,
        None => Seq::empty(),
    })
}

/// The dependency map: names zipped with their summary hashes.
pub open spec fn zip_pairs(names: Seq<Seq<char>>, hashes: Seq<Seq<char>>) -> Seq<(
    Seq<char>,
    Seq<char>,
)>
    recommends
        names.len() == hashes.len(),
{
    Seq::new(names.len(), |i: int| (names[i], hashes[i]))
}

impl Crate {
    /// Builds a crate record from its name and the fingerprints of its
    /// local policy implementations; the fingerprints are put in
    /// canonical order.  Dependencies are attached by
    /// `fetch_dependencies`.
    pub fn new(my_crate_name: String, local_impls: Vec<(String, String)>) -> (r: Crate)
        ensures
            r@.name == my_crate_name@,
            strictly_sorted(pair_keys(r@.local_impls)),
            forall|p: (Seq<char>, Seq<char>)|
                r@.local_impls.contains(p) ==> local_impls.deep_view().contains(p),
            forall|k: Seq<char>|
                has_key(r@.local_impls, k) <==> has_key(local_impls.deep_view(), k),
            r@.dep_names =~= Seq::<Seq<char>>::empty(),
            r@.dep_hashes =~= Seq::<Seq<char>>::empty(),
    {
        let sorted = sort_dedup_pairs(local_impls);
        Crate {
            my_crate_name,
            local_implementations_stable_hashes: sorted,
            dependencies_names: Vec::new(),
            dependencies_hashes: Vec::new(),
        }
    }

    /// The crate's name.
    pub fn name(&self) -> (r: &String)
        ensures
            r@ == self@.name,
    {
        &self.my_crate_name
    }

    /// Records the crates this one uses, as the compiler reported
    /// them; order is arbitrary at this point.
    pub fn fetch_dependencies(&mut self, names: Vec<CrateName>)
        ensures
            final(self)@.name == old(self)@.name,
            final(self)@.local_impls == old(self)@.local_impls,
            final(self)@.dep_names == names.deep_view(),
            final(self)@.dep_hashes == old(self)@.dep_hashes,
    {
        self.dependencies_names = names;
    }

    /// The pruned dependency list.
    pub fn get_pruned(&self) -> (r: &Vec<CrateName>)
        ensures
            r.deep_view() == self@.dep_names,
    {
        &self.dependencies_names
    }

    /// Prunes the dependencies to those the hash index lists, each
    /// once, in lexicographic order.  An absent index reads as empty:
    /// nothing is rolled up.
    pub fn prune_deps(&mut self, hash_index: Option<&Vec<String>>)
        ensures
            final(self)@.name == old(self)@.name,
            final(self)@.local_impls == old(self)@.local_impls,
            final(self)@.dep_hashes == old(self)@.dep_hashes,
            strictly_sorted(final(self)@.dep_names),
            forall|x: Seq<char>|
                #[trigger] final(self)@.dep_names.contains(x) <==> (old(
                    self,
                )@.dep_names.contains(x) && index_names(
                    match hash_index {
                        Some(v) => Some(v.deep_view()),
                        None => None,
                    },
                ).contains(x)),
            final(self)@.dep_names == pruned_deps(
                old(self)@.dep_names,
                index_names(
                    match hash_index {
                        Some(v) => Some(v.deep_view()),
                        None => None,
                    },
                ),
            ),
    {
        let ghost old_names = self@.dep_names;
        let ghost index = index_names(
            match hash_index {
                Some(v) => Some(v.deep_view()),
                None => None,
            },
        );
        let mut kept: Vec<String> = Vec::new();
        match hash_index {
            None => {},
            Some(ix) => {
                let mut i: usize = 0;
                while i < self.dependencies_names.len()
                    invariant
                        i <= self.dependencies_names@.len(),
                        self@.dep_names == old_names,
                        index == ix.deep_view(),
                        forall|x: Seq<char>|
                            #[trigger] kept.deep_view().contains(x) ==> (old_names.contains(x)
                                && index.contains(x)),
                        forall|j: int|
                            0 <= j < i && index.contains(#[trigger] old_names[j])
                                ==> kept.deep_view().contains(old_names[j]),
                    decreases self.dependencies_names@.len() - i,
                {
                    let name = &self.dependencies_names[i];
                    proof {
                        assert(old_names[i as int] == name@);
                    }
                    if contains_name(ix, &name.0) {
                        let ghost pre = kept.deep_view();
                        kept.push(name.0.clone());
                        proof {
                            assert(kept.deep_view() =~= pre.push(name@));
                            assert forall|x: Seq<char>|
                                #[trigger] kept.deep_view().contains(x) implies (
                            old_names.contains(x) && index.contains(x)) by {
                                let m = choose|m: int|
                                    0 <= m < kept.deep_view().len() && kept.deep_view()[m] == x;
                                if m < pre.len() {
                                    assert(pre[m] == x);
                                    assert(pre.contains(x));
                                } else {
                                    assert(x == name@);
                                    assert(old_names.contains(name@)) by {
                                        assert(old_names[i as int] == name@);
                                    }
                                }
                            }
                            assert(kept.deep_view().contains(name@)) by {
                                assert(kept.deep_view()[pre.len() as int] == name@);
                            }
                            assert forall|x: Seq<char>| pre.contains(x) implies
                                kept.deep_view().contains(x) by {
                                let m = choose|m: int| 0 <= m < pre.len() && pre[m] == x;
                                assert(kept.deep_view()[m] == x);
                            }
                        }
                    }
                    i = i + 1;
                }
                proof {
                    assert forall|x: Seq<char>|
                        old_names.contains(x) && index.contains(x) implies
                        kept.deep_view().contains(x) by {
                        let m = choose|m: int| 0 <= m < old_names.len() && old_names[m] == x;
                    }
                }
            },
        }
        let sorted = sort_dedup(kept);
        let mut named: Vec<CrateName> = Vec::new();
        let mut k: usize = 0;
        while k < sorted.len()
            invariant
                k <= sorted@.len(),
                named.deep_view() =~= sorted.deep_view().subrange(0, k as int),
            decreases sorted@.len() - k,
        {
            let ghost pre = named.deep_view();
            named.push(CrateName(sorted[k].clone()));
            proof {
                assert(named.deep_view() =~= pre.push(sorted.deep_view()[k as int]));
                assert(sorted.deep_view().subrange(0, k + 1) =~= sorted.deep_view().subrange(
                    0,
                    k as int,
                ).push(sorted.deep_view()[k as int]));
            }
            k = k + 1;
        }
        proof {
            assert(named.deep_view() =~= sorted.deep_view());
        }
        self.dependencies_names = named;
        proof {
            assert(self@.dep_names =~= sorted.deep_view());
            lemma_pruned_deps_unique(old_names, index, self@.dep_names);
        }
    }

    /// Resolves each pruned dependency's summary hash from the read
    /// policy-hash files: the build fails where any expected file is
    /// missing or empty.
    pub fn get_leaves(&mut self, files: &Vec<(String, Option<String>)>) -> (r: AttestResult<()>)
        ensures
            r is Ok <==> (forall|i: int|
                0 <= i < old(self)@.dep_names.len() ==> good_line(
                    files.deep_view(),
                    #[trigger] old(self)@.dep_names[i],
                )),
            final(self)@.name == old(self)@.name,
            final(self)@.local_impls == old(self)@.local_impls,
            final(self)@.dep_names == old(self)@.dep_names,
            r is Ok ==> final(self)@.dep_hashes =~= dep_lines(
                files.deep_view(),
                old(self)@.dep_names,
            ),
            r is Err ==> final(self)@.dep_hashes == old(self)@.dep_hashes,
            r matches Err(e) ==> e == AttestErrors::IoError,
    {
        let ghost names = self@.dep_names;
        let mut hashes: Vec<String> = Vec::new();
        let mut i: usize = 0;
        while i < self.dependencies_names.len()
            invariant
                i <= names.len(),
                self@.dep_names == names,
                self@ == old(self)@,
                names.len() == self.dependencies_names@.len(),
                hashes.deep_view() =~= dep_lines(files.deep_view(), names.subrange(0, i as int)),
                forall|j: int| 0 <= j < i ==> good_line(files.deep_view(), #[trigger] names[j]),
            decreases names.len() - i,
        {
            let name = &self.dependencies_names[i];
            proof {
                assert(names[i as int] == name@);
            }
            let line = find_line_exec(files, &name.0);
            match line {
                None => {
                    return Err(AttestErrors::IoError);
                },
                Some(l) => {
                    if l.as_str().unicode_len() == 0 {
                        return Err(AttestErrors::IoError);
                    }
                    let ghost pre = hashes.deep_view();
                    hashes.push(l);
                    proof {
                        assert(hashes.deep_view() =~= dep_lines(
                            files.deep_view(),
                            names.subrange(0, i + 1),
                        )) by {
                            assert(names.subrange(0, i + 1) =~= names.subrange(0, i as int).push(
                                names[i as int],
                            ));
                            assert(hashes.deep_view() =~= pre.push(
                                find_line(files.deep_view(), names[i as int]).unwrap(),
                            ));
                            assert forall|m: int| 0 <= m < hashes.deep_view().len() implies
                                hashes.deep_view()[m] == dep_lines(
                                files.deep_view(),
                                names.subrange(0, i + 1),
                            )[m] by {
                                if m < pre.len() {
                                    assert(names.subrange(0, i + 1)[m] == names.subrange(
                                        0,
                                        i as int,
                                    )[m]);
                                }
                            }
                        }
                    }
                },
            }
            i = i + 1;
        }
        proof {
            assert(names.subrange(0, names.len() as int) =~= names);
        }
        self.dependencies_hashes = hashes;
        Ok(())
    }

    /// The line this crate appends to the hash index once its document
    /// is written: its name and a newline.
    pub fn register_to_index(&self) -> (r: Vec<u8>)
        ensures
            r@ =~= encode_utf8(self@.name) + seq![10u8],
    {
        let mut out = string_bytes(&self.my_crate_name);
        out.push(10);
        out
    }

    /// Renders the crate's policy-hash document: the summary line,
    /// then the JSON body holding the dependency map, the local
    /// summary and the local implementation map.
    pub fn dump_local_to_file(&self) -> (r: Vec<u8>)
        requires
            self@.dep_names.len() == self@.dep_hashes.len(),
        ensures
            r@ =~= policy_file_of(
                zip_pairs(self@.dep_names, self@.dep_hashes),
                self@.local_impls,
            ),
    {
        let ghost dep_pairs = zip_pairs(self@.dep_names, self@.dep_hashes);
        let mut deps: Vec<(String, String)> = Vec::new();
        let mut i: usize = 0;
        while i < self.dependencies_names.len()
            invariant
                i <= self.dependencies_names@.len(),
                self.dependencies_names@.len() == self.dependencies_hashes@.len(),
                dep_pairs == zip_pairs(self@.dep_names, self@.dep_hashes),
                dep_pairs.len() == self.dependencies_names@.len(),
                deps.deep_view() =~= dep_pairs.subrange(0, i as int),
            decreases self.dependencies_names@.len() - i,
        {
            let ghost pre = deps.deep_view();
            deps.push((self.dependencies_names[i].0.clone(), self.dependencies_hashes[i].clone()));
            proof {
                assert(dep_pairs[i as int] == (
                    self@.dep_names[i as int],
                    self@.dep_hashes[i as int],
                ));
                assert(deps.deep_view() =~= pre.push(dep_pairs[i as int]));
                assert(dep_pairs.subrange(0, i + 1) =~= dep_pairs.subrange(0, i as int).push(
                    dep_pairs[i as int],
                ));
            }
            i = i + 1;
        }
        proof {
            assert(deps.deep_view() =~= dep_pairs);
        }
        let mut dep_json: Vec<u8> = Vec::new();
        crate::jsoncode::append_json_str_map(&mut dep_json, &deps);
        let mut impl_json: Vec<u8> = Vec::new();
        crate::jsoncode::append_json_str_map(
            &mut impl_json,
            &self.local_implementations_stable_hashes,
        );
        let dep_hex = hex_encode_bytes(&sha256(&dep_json));
        let local_hex = hex_encode_bytes(&sha256(&impl_json));
        let mut summary_input = dep_hex;
        append_bytes(&mut summary_input, &local_hex);
        let summary = hex_encode_bytes(&sha256(&summary_input));
        let mut out = summary;
        out.push(10);
        out.push(123);
        append_json_string(
            &mut out,
            &vec![
                100u8, 101, 112, 101, 110, 100, 101, 110, 99, 121, 95, 104, 97, 115, 104, 101,
                115,
            ],
        );
        out.push(58);
        append_bytes(&mut out, &dep_json);
        out.push(44);
        append_json_string(
            &mut out,
            &vec![
                108u8, 111, 99, 97, 108, 95, 115, 117, 109, 109, 97, 114, 121, 95, 104, 97, 115,
                104,
            ],
        );
        out.push(58);
        out.push(34);
        append_bytes(&mut out, &local_hex);
        out.push(34);
        out.push(44);
        append_json_string(
            &mut out,
            &vec![
                108u8, 111, 99, 97, 108, 95, 105, 109, 112, 108, 115, 95, 104, 97, 115, 104, 101,
                115,
            ],
        );
        out.push(58);
        append_bytes(&mut out, &impl_json);
        out.push(125);
        proof {
            assert(out@ =~= policy_file_of(dep_pairs, self@.local_impls));
        }
        out
    }
}

/// Whether the hash index lists the named crate.
fn contains_name(ix: &Vec<String>, name: &String) -> (r: bool)
    ensures
        r == ix.deep_view().contains(name@),
{
    let mut j: usize = 0;
    while j < ix.len()
        invariant
            j <= ix@.len(),
            forall|m: int| 0 <= m < j ==> ix.deep_view()[m] != name@,
        decreases ix@.len() - j,
    {
        if ix[j].eq(name) {
            proof {
                assert(ix.deep_view()[j as int] == name@);
            }
            return true;
        }
        j = j + 1;
    }
    proof {
        assert(!ix.deep_view().contains(name@)) by {
            if ix.deep_view().contains(name@) {
                let m = choose|m: int|
                    0 <= m < ix.deep_view().len() && ix.deep_view()[m] == name@;
            }
        }
    }
    false
}

/// Finds the first line read for the named crate.
fn find_line_exec(files: &Vec<(String, Option<String>)>, name: &String) -> (r: Option<String>)
    ensures
        r.deep_view() == find_line(files.deep_view(), name@),
{
    proof {
        assert(files.deep_view().skip(0) =~= files.deep_view());
    }
    let mut i: usize = 0;
    while i < files.len()
        invariant
            i <= files@.len(),
            find_line(files.deep_view(), name@) == find_line(
                files.deep_view().skip(i as int),
                name@,
            ),
        decreases files@.len() - i,
    {
        proof {
            assert(files.deep_view().skip(i as int)[0] == files.deep_view()[i as int]);
            assert(files.deep_view().skip(i as int).skip(1) =~= files.deep_view().skip(i + 1));
        }
        if files[i].0.eq(name) {
            proof {
                assert(files.deep_view()[i as int].0 == name@);
                assert(find_line(files.deep_view(), name@) == files.deep_view()[i as int].1);
            }
            let r = match &files[i].1 {
                Some(l) => Some(l.clone()),
                None => None,
            };
            proof {
                assert(r.deep_view() == files.deep_view()[i as int].1);
            }
            return r;
        }
        proof {
            assert(files.deep_view()[i as int].0 != name@);
        }
        i = i + 1;
    }
    proof {
        assert(files.deep_view().skip(files@.len() as int) =~= Seq::<(
            Seq<char>,
            Option<Seq<char>>,
        )>::empty());
    }
    None
}

/// The on-disk name of a crate's policy-hash document.
pub fn format_file_name(string: &String) -> (r: String)
    ensures
        r@ == "./policy_hashes/"@ + string@ + "_policy_hashes.json"@,
{
    let mut out = String::new();
    out.append("./policy_hashes/");
    out.append(string.as_str());
    out.append("_policy_hashes.json");
    out
}

/// Runs the whole roll-up for one crate: prune the dependencies
/// against the hash index, resolve their summary hashes from the read
/// files, and render the policy-hash document and the crate's
/// hash-index line.
pub fn attest_crate(
    kr: Crate,
    hash_index: Option<&Vec<String>>,
    files: &Vec<(String, Option<String>)>,
) -> (r: AttestResult<(Vec<u8>, Vec<u8>)>)
    ensures
        r is Ok <==> (forall|i: int|
            0 <= i < pruned_deps(kr@.dep_names, index_view(hash_index)).len() ==> good_line(
                files.deep_view(),
                #[trigger] pruned_deps(kr@.dep_names, index_view(hash_index))[i],
            )),
        r matches Ok(t) ==> t.0@ == policy_file_of(
            zip_pairs(
                pruned_deps(kr@.dep_names, index_view(hash_index)),
                dep_lines(files.deep_view(), pruned_deps(kr@.dep_names, index_view(hash_index))),
            ),
            kr@.local_impls,
        ),
        r matches Ok(t) ==> t.1@ == encode_utf8(kr@.name) + seq![10u8],
        r matches Err(e) ==> e == AttestErrors::IoError,
{
    let ghost orig = kr@;
    let ghost index = index_view(hash_index);
    let mut kr = kr;
    kr.prune_deps(hash_index);
    proof {
        assert(kr@.dep_names == pruned_deps(orig.dep_names, index));
        assert(kr@.local_impls == orig.local_impls);
        assert(kr@.name == orig.name);
    }
    let ghost pruned = kr@.dep_names;
    match kr.get_leaves(files) {
        Err(e) => {
            proof {
                assert(!(forall|i: int|
                    0 <= i < pruned.len() ==> good_line(files.deep_view(), #[trigger] pruned[i])));
            }
            Err(e)
        },
        Ok(()) => {
            proof {
                assert(kr@.dep_hashes =~= dep_lines(files.deep_view(), pruned));
            }
            let line = kr.register_to_index();
            let file = kr.dump_local_to_file();
            proof {
                assert(file@ =~= policy_file_of(zip_pairs(pruned, dep_lines(files.deep_view(), pruned)), orig.local_impls));
            }
            Ok((file, line))
        },
    }
}

/// Hash stability: the policy-hash document is a function of the
/// crate's canonical maps alone, so re-running the roll-up over an
/// unchanged source tree with unchanged dependency hashes writes a
/// byte-identical document.
pub proof fn lemma_hash_stability(
    deps1: Seq<(Seq<char>, Seq<char>)>,
    impls1: Seq<(Seq<char>, Seq<char>)>,
    deps2: Seq<(Seq<char>, Seq<char>)>,
    impls2: Seq<(Seq<char>, Seq<char>)>,
)
    requires
        deps1 =~= deps2,
        impls1 =~= impls2,
    ensures
        policy_file_of(deps1, impls1) == policy_file_of(deps2, impls2),
{
}

/// An absent hash index is the empty hash index: in either case the
/// pruned list is empty and nothing is rolled up.
pub proof fn lemma_absent_index_like_empty(deps: Seq<Seq<char>>)
    ensures
        pruned_deps(deps, index_names(None)) =~= Seq::<Seq<char>>::empty(),
        pruned_deps(deps, index_names(None)) =~= pruned_deps(
            deps,
            index_names(Some(Seq::empty())),
        ),
{
    let e = Seq::<Seq<char>>::empty();
    assert(strictly_sorted(e) && (forall|x: Seq<char>|
        #[trigger] e.contains(x) <==> (deps.contains(x) && index_names(None).contains(x))));
    lemma_pruned_deps_unique(deps, index_names(None), e);
    assert(strictly_sorted(e) && (forall|x: Seq<char>|
        #[trigger] e.contains(x) <==> (deps.contains(x) && index_names(
            Some(Seq::empty()),
        ).contains(x))));
    lemma_pruned_deps_unique(deps, index_names(Some(Seq::empty())), e);
}

} // verus!
