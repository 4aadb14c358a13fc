//! What holds of every rebuilt chain: the empty pool, the bound on what a
//! chain can hold, and the independence from the order of the pool.

use vstd::prelude::*;
use vstd::multiset::*;
use vstd::seq_lib::*;
use crate::certificate::{CertificateView, spec_certificate};
use crate::chain::{
    ChainError, all_decodable, chain_above, decoded_pool, ders_of, first_parent, is_first_parent,
    signs, spec_rebuild_chain,
};

verus! {

/// No certificate in reach of the chain has two parents in the pool: for
/// the leaf and for every certificate of the pool, at most one position
/// of the pool holds a certificate whose key signed it.
pub open spec fn unique_parents(leaf: CertificateView, pool: Seq<CertificateView>) -> bool {
    forall|child: CertificateView, i: int, j: int|
        #![trigger signs(pool[i], child), signs(pool[j], child)]
        (child == leaf || pool.contains(child)) && 0 <= i < pool.len() && 0 <= j < pool.len()
            && signs(pool[i], child) && signs(pool[j], child) ==> i == j
}

/// Where some certificate of the pool signed `child`, one of them is the
/// first.
proof fn lemma_some_parent_is_first(child: CertificateView, pool: Seq<CertificateView>, m: int)
    requires
        0 <= m < pool.len(),
        signs(pool[m], child),
    ensures
        is_first_parent(child, pool, first_parent(child, pool)),
    decreases m,
{
    if exists|j: int| 0 <= j < m && signs(#[trigger] pool[j], child) {
        let j = choose|j: int| 0 <= j < m && signs(#[trigger] pool[j], child);
        lemma_some_parent_is_first(child, pool, j);
    } else {
        assert(is_first_parent(child, pool, m));
    }
}

/// A chain holds no more than the pool: it is no longer, and each byte
/// string occurs in it at most as often as in the pool.
pub proof fn lemma_chain_within_pool(child: CertificateView, pool: Seq<CertificateView>)
    ensures
        chain_above(child, pool).len() <= pool.len(),
        ders_of(chain_above(child, pool)).to_multiset().subset_of(ders_of(pool).to_multiset()),
    decreases pool.len(),
{
    broadcast use group_multiset_axioms;

    let i = first_parent(child, pool);
    if is_first_parent(child, pool, i) {
        let rest = pool.remove(i);
        let tail = chain_above(pool[i], rest);
        lemma_chain_within_pool(pool[i], rest);
        let x = pool[i].der;
        assert(ders_of(rest) =~= ders_of(pool).remove(i));
        to_multiset_remove(ders_of(pool), i);
        assert(ders_of(chain_above(child, pool)) =~= ders_of(tail).insert(0, x));
        to_multiset_insert(ders_of(tail), 0, x);
        assert(ders_of(pool)[i] == x);
        to_multiset_contains(ders_of(pool), x);
        assert(ders_of(pool).contains(x));
        let whole = ders_of(pool).to_multiset();
        let part = ders_of(tail).to_multiset();
        assert forall|d: Seq<u8>| part.insert(x).count(d) <= whole.count(d) by {
            assert(part.count(d) <= whole.remove(x).count(d));
        }
    } else {
        assert(ders_of(Seq::<CertificateView>::empty()).to_multiset().len() == 0) by {
            to_multiset_len(ders_of(Seq::<CertificateView>::empty()));
        }
    }
}

/// Two sequences that hold the same items as often still do so after each
/// item has been replaced by its image under `f`.
pub proof fn lemma_images_keep_permutation<A, B>(first: Seq<A>, second: Seq<A>, f: spec_fn(A) -> B)
    requires
        first.to_multiset() == second.to_multiset(),
    ensures
        first.map_values(f).to_multiset() == second.map_values(f).to_multiset(),
    decreases first.len(),
{
    broadcast use group_multiset_axioms;

    to_multiset_len(first);
    to_multiset_len(second);
    if first.len() == 0 {
        assert(first.map_values(f) =~= second.map_values(f));
    } else {
        let last = first.len() - 1;
        let x = first[last];
        to_multiset_contains(first, x);
        to_multiset_contains(second, x);
        assert(first.contains(x));
        let j = choose|j: int| 0 <= j < second.len() && second[j] == x;
        to_multiset_remove(first, last);
        to_multiset_remove(second, j);
        lemma_images_keep_permutation(first.remove(last), second.remove(j), f);
        assert(first.map_values(f) =~= first.remove(last).map_values(f).insert(last, f(x)));
        assert(second.map_values(f) =~= second.remove(j).map_values(f).insert(j, f(x)));
        to_multiset_insert(first.remove(last).map_values(f), last, f(x));
        to_multiset_insert(second.remove(j).map_values(f), j, f(x));
    }
}

/// The chain above `child` is the same in two pools that hold the same
/// certificates as often, where no certificate of `scope` has two parents
/// in the first pool and `scope` holds `child` and the pool.
proof fn lemma_same_chain(
    child: CertificateView,
    first: Seq<CertificateView>,
    second: Seq<CertificateView>,
    scope: Set<CertificateView>,
)
    requires
        first.to_multiset() == second.to_multiset(),
        scope.contains(child),
        forall|k: int| 0 <= k < first.len() ==> scope.contains(#[trigger] first[k]),
        forall|c: CertificateView, i: int, j: int|
            #![trigger signs(first[i], c), signs(first[j], c)]
            scope.contains(c) && 0 <= i < first.len() && 0 <= j < first.len() && signs(
                first[i],
                c,
            ) && signs(first[j], c) ==> i == j,
    ensures
        chain_above(child, first) == chain_above(child, second),
    decreases first.len(),
{
    broadcast use group_multiset_axioms;

    let i1 = first_parent(child, first);
    let i2 = first_parent(child, second);
    if is_first_parent(child, first, i1) {
        let x = first[i1];
        to_multiset_contains(first, x);
        to_multiset_contains(second, x);
        assert(first.contains(x));
        let m = choose|m: int| 0 <= m < second.len() && second[m] == x;
        lemma_some_parent_is_first(child, second, m);
        let y = second[i2];
        to_multiset_contains(first, y);
        to_multiset_contains(second, y);
        assert(second.contains(y));
        let n = choose|n: int| 0 <= n < first.len() && first[n] == y;
        assert(signs(first[n], child) && signs(first[i1], child));
        assert(n == i1);
        let rest1 = first.remove(i1);
        let rest2 = second.remove(i2);
        to_multiset_remove(first, i1);
        to_multiset_remove(second, i2);
        assert forall|k: int| 0 <= k < rest1.len() implies scope.contains(#[trigger] rest1[k]) by {
            if k < i1 {
                assert(rest1[k] == first[k]);
            } else {
                assert(rest1[k] == first[k + 1]);
            }
        }
        assert forall|c: CertificateView, i: int, j: int|
            #![trigger signs(rest1[i], c), signs(rest1[j], c)]
            scope.contains(c) && 0 <= i < rest1.len() && 0 <= j < rest1.len() && signs(
                rest1[i],
                c,
            ) && signs(rest1[j], c) implies i == j by {
            let a = if i < i1 { i } else { i + 1 };
            let b = if j < i1 { j } else { j + 1 };
            assert(rest1[i] == first[a]);
            assert(rest1[j] == first[b]);
            assert(signs(first[a], c) && signs(first[b], c));
        }
        lemma_same_chain(x, rest1, rest2, scope);
    } else {
        if is_first_parent(child, second, i2) {
            let y = second[i2];
            to_multiset_contains(first, y);
            to_multiset_contains(second, y);
            assert(second.contains(y));
            let n = choose|n: int| 0 <= n < first.len() && first[n] == y;
            lemma_some_parent_is_first(child, first, n);
        }
    }
}

/// The chain above a leaf does not depend on the order of the pool, as
/// long as no certificate in reach has two parents in it.
pub proof fn lemma_chain_order_independent(
    leaf: CertificateView,
    first: Seq<CertificateView>,
    second: Seq<CertificateView>,
)
    requires
        first.to_multiset() == second.to_multiset(),
        unique_parents(leaf, first),
    ensures
        chain_above(leaf, first) == chain_above(leaf, second),
{
    let scope = Set::new(|c: CertificateView| c == leaf || first.contains(c));
    assert forall|c: CertificateView, i: int, j: int|
        #![trigger signs(first[i], c), signs(first[j], c)]
        scope.contains(c) && 0 <= i < first.len() && 0 <= j < first.len() && signs(first[i], c)
            && signs(first[j], c) implies i == j by {
        assert(c == leaf || first.contains(c));
    }
    lemma_same_chain(leaf, first, second, scope);
}

/// With an empty pool the chain is the leaf alone.
pub proof fn lemma_empty_pool_gives_leaf(leaf: Seq<u8>)
    requires
        spec_certificate(leaf) is Some,
    ensures
        spec_rebuild_chain(leaf, Seq::<Seq<u8>>::empty()) == Ok::<Seq<Seq<u8>>, ChainError>(
            seq![leaf],
        ),
{
    let pool = decoded_pool(Seq::<Seq<u8>>::empty());
    let above = chain_above(spec_certificate(leaf)->0, pool);
    lemma_chain_within_pool(spec_certificate(leaf)->0, pool);
    assert(above.len() == 0);
    assert(seq![leaf] + ders_of(above) =~= seq![leaf]);
}

/// A rebuilt chain starts with the leaf, holds at most one entry more
/// than there are intermediates, and holds no intermediate more often
/// than the pool does: an intermediate that was given once occurs once at
/// most.
pub proof fn lemma_chain_uses_each_intermediate_once(leaf: Seq<u8>, intermediates: Seq<Seq<u8>>)
    ensures
        spec_rebuild_chain(leaf, intermediates) matches Ok(chain) ==> {
            &&& 1 <= chain.len() <= 1 + intermediates.len()
            &&& chain[0] == leaf
            &&& chain.drop_first().to_multiset().subset_of(intermediates.to_multiset())
        },
{
    if spec_rebuild_chain(leaf, intermediates) is Ok {
        let pool = decoded_pool(intermediates);
        let above = chain_above(spec_certificate(leaf)->0, pool);
        lemma_chain_within_pool(spec_certificate(leaf)->0, pool);
        assert(ders_of(pool) =~= intermediates);
        assert((seq![leaf] + ders_of(above)).drop_first() =~= ders_of(above));
    }
}

/// Rebuilding a chain does not depend on the order in which the
/// intermediates are given: where no certificate in reach has two parents
/// among them, a permutation of the intermediates gives the same chain.
/// Whether all intermediates decode does not depend on their order either.
pub proof fn lemma_rebuild_chain_order_independent(
    leaf: Seq<u8>,
    first: Seq<Seq<u8>>,
    second: Seq<Seq<u8>>,
)
    requires
        first.to_multiset() == second.to_multiset(),
        spec_certificate(leaf) matches Some(leaf_certificate) ==> unique_parents(
            leaf_certificate,
            decoded_pool(first),
        ),
    ensures
        spec_rebuild_chain(leaf, first) is Ok <==> spec_rebuild_chain(leaf, second) is Ok,
        spec_rebuild_chain(leaf, first) is Ok ==> spec_rebuild_chain(leaf, second)
            == spec_rebuild_chain(leaf, first),
{
    broadcast use group_multiset_axioms;

    assert(all_decodable(first) <==> all_decodable(second)) by {
        if all_decodable(first) {
            assert forall|i: int| 0 <= i < second.len() implies spec_certificate(
                #[trigger] second[i],
            ) is Some by {
                to_multiset_contains(first, second[i]);
                to_multiset_contains(second, second[i]);
                assert(second.contains(second[i]));
                let k = choose|k: int| 0 <= k < first.len() && first[k] == second[i];
                assert(spec_certificate(first[k]) is Some);
            }
        }
        if all_decodable(second) {
            assert forall|i: int| 0 <= i < first.len() implies spec_certificate(
                #[trigger] first[i],
            ) is Some by {
                to_multiset_contains(first, first[i]);
                to_multiset_contains(second, first[i]);
                assert(first.contains(first[i]));
                let k = choose|k: int| 0 <= k < second.len() && second[k] == first[i];
                assert(spec_certificate(second[k]) is Some);
            }
        }
    }
    if spec_rebuild_chain(leaf, first) is Ok {
        let decode = |der: Seq<u8>| spec_certificate(der)->0;
        lemma_images_keep_permutation(first, second, decode);
        assert(first.map_values(decode) =~= decoded_pool(first));
        assert(second.map_values(decode) =~= decoded_pool(second));
        lemma_chain_order_independent(
            spec_certificate(leaf)->0,
            decoded_pool(first),
            decoded_pool(second),
        );
    }
}

} // verus!
