//! Ordering an unordered pool of certificates into a chain: starting from
//! the leaf, the first certificate of the pool whose key signed the
//! current one is its parent, leaves the pool, and becomes the current
//! one; the chain ends where no certificate of the pool signed it.

use vstd::prelude::*;
use vstd::slice::slice_to_vec;
use crate::certificate::{Certificate, CertificateView, certificate_views, spec_certificate};
use crate::signature::{spec_verify_signature, verify_signature};

verus! {

/// In building a chain, a certificate could not be decoded.
#[derive(Clone, Copy, Debug, PartialEq, Eq, Structural)]
pub enum ChainError {
    /// The leaf is not a certificate.
    InvalidLeaf,
    /// The intermediate at this position is the first that is not a
    /// certificate.
    InvalidIntermediate(usize),
}

/// Whether the key of `parent` signed `child`.
pub open spec fn signs(parent: CertificateView, child: CertificateView) -> bool {
    spec_verify_signature(
        child.signed.tbs,
        child.signed.signature,
        child.signed.algorithm_id,
        parent.signed.public_key,
    ) is Ok
}

/// Whether `pool[i]` is the first certificate of `pool` that signed `child`.
pub open spec fn is_first_parent(child: CertificateView, pool: Seq<CertificateView>, i: int) -> bool {
    &&& 0 <= i < pool.len()
    &&& signs(pool[i], child)
    &&& forall|j: int| 0 <= j < i ==> !signs(#[trigger] pool[j], child)
}

/// The position of the first certificate of `pool` that signed `child`,
/// where there is one.
pub open spec fn first_parent(child: CertificateView, pool: Seq<CertificateView>) -> int {
    choose|i: int| is_first_parent(child, pool, i)
}

/// The chain above `child`: its first parent in `pool`, then the chain
/// above that parent in the pool without it.
pub open spec fn chain_above(child: CertificateView, pool: Seq<CertificateView>) -> Seq<
    CertificateView,
>
    decreases pool.len(),
{
    let i = first_parent(child, pool);
    if is_first_parent(child, pool, i) {
        seq![pool[i]] + chain_above(pool[i], pool.remove(i))
    } else {
        Seq::empty()
    }
}

/// The certificates of `pool` at the given positions, in the order of the
/// positions.
pub open spec fn picked(pool: Seq<CertificateView>, positions: Seq<usize>) -> Seq<CertificateView> {
    Seq::new(positions.len(), |k: int| pool[positions[k] as int])
}

/// The DER bytes of each certificate of a sequence.
pub open spec fn ders_of(certificates: Seq<CertificateView>) -> Seq<Seq<u8>> {
    Seq::new(certificates.len(), |k: int| certificates[k].der)
}

/// The byte strings that a sequence of buffers holds.
pub open spec fn byte_views(buffers: Seq<Vec<u8>>) -> Seq<Seq<u8>> {
    Seq::new(buffers.len(), |k: int| buffers[k]@)
}

/// Whether `ders[i]` is the first byte string of `ders` that is not a
/// certificate.
pub open spec fn is_first_undecodable(ders: Seq<Seq<u8>>, i: int) -> bool {
    &&& 0 <= i < ders.len()
    &&& spec_certificate(ders[i]) is None
    &&& forall|j: int| 0 <= j < i ==> spec_certificate(#[trigger] ders[j]) is Some
}

pub open spec fn all_decodable(ders: Seq<Seq<u8>>) -> bool {
    forall|i: int| 0 <= i < ders.len() ==> spec_certificate(#[trigger] ders[i]) is Some
}

/// The pool that a list of byte strings decodes to.
pub open spec fn decoded_pool(ders: Seq<Seq<u8>>) -> Seq<CertificateView> {
    Seq::new(ders.len(), |i: int| spec_certificate(ders[i])->0)
}

/// The chain that is rebuilt from a leaf and a pool of intermediates: the
/// leaf's own bytes, then the bytes of each certificate of the chain above
/// it. A byte string that is not a certificate is an error, the leaf first,
/// then the intermediates in their order.
pub open spec fn spec_rebuild_chain(leaf: Seq<u8>, intermediates: Seq<Seq<u8>>) -> Result<
    Seq<Seq<u8>>,
    ChainError,
> {
    match spec_certificate(leaf) {
        None => Err(ChainError::InvalidLeaf),
        Some(leaf_certificate) => if all_decodable(intermediates) {
            Ok(
                seq![leaf] + ders_of(
                    chain_above(leaf_certificate, decoded_pool(intermediates)),
                ),
            )
        } else {
            Err(
                ChainError::InvalidIntermediate(
                    (choose|i: int| is_first_undecodable(intermediates, i)) as usize,
                ),
            )
        },
    }
}

/// There is one first parent at most.
pub proof fn lemma_first_parent_is_unique(
    child: CertificateView,
    pool: Seq<CertificateView>,
    i: int,
)
    requires
        is_first_parent(child, pool, i),
    ensures
        first_parent(child, pool) == i,
{
    let c = first_parent(child, pool);
    assert(is_first_parent(child, pool, c));
    if c < i {
        assert(!signs(pool[c], child));
    } else if i < c {
        assert(!signs(pool[i], child));
    }
}

/// Where no certificate of the pool signed `child`, nothing is above it.
pub proof fn lemma_no_parent_no_chain(child: CertificateView, pool: Seq<CertificateView>)
    requires
        forall|j: int| 0 <= j < pool.len() ==> !signs(#[trigger] pool[j], child),
    ensures
        chain_above(child, pool) == Seq::<CertificateView>::empty(),
{
    let c = first_parent(child, pool);
    if is_first_parent(child, pool, c) {
        assert(!signs(pool[c], child));
    }
}

/// Searches `remaining` in its order for the first certificate whose key
/// signed `current`. A candidate whose verification fails, for whatever
/// reason, is passed over.
pub fn find_parent(current: &Certificate, pool: &Vec<Certificate>, remaining: &Vec<usize>) -> (found:
    Option<usize>)
    requires
        forall|k: int| 0 <= k < remaining.len() ==> (#[trigger] remaining[k]) < pool.len(),
    ensures
        match found {
            Some(k) => is_first_parent(
                current@,
                picked(certificate_views(pool@), remaining@),
                k as int,
            ),
            None => forall|j: int|
                0 <= j < remaining.len() ==> !signs(
                    #[trigger] picked(certificate_views(pool@), remaining@)[j],
                    current@,
                ),
        },
{
    let ghost choices = picked(certificate_views(pool@), remaining@);
    let mut k: usize = 0;
    while k < remaining.len()
        invariant
            k <= remaining.len(),
            choices == picked(certificate_views(pool@), remaining@),
            forall|k: int| 0 <= k < remaining.len() ==> (#[trigger] remaining[k]) < pool.len(),
            forall|j: int| 0 <= j < k ==> !signs(#[trigger] choices[j], current@),
        decreases remaining.len() - k,
    {
        let candidate = &pool[remaining[k]];
        assert(choices[k as int] == candidate@);
        let outcome = verify_signature(
            current.signed.tbs.as_slice(),
            current.signed.signature.as_slice(),
            current.signed.algorithm_id.as_str(),
            candidate.signed.public_key.as_slice(),
        );
        if outcome.is_ok() {
            return Some(k);
        }
        k += 1;
    }
    None
}

/// Orders the parents of `leaf`: the positions in `pool` of the
/// certificates of the chain above it, nearest parent first. No position
/// occurs twice.
pub fn parent_order(leaf: &Certificate, pool: &Vec<Certificate>) -> (order: Vec<usize>)
    ensures
        picked(certificate_views(pool@), order@) == chain_above(leaf@, certificate_views(pool@)),
        forall|k: int| 0 <= k < order.len() ==> (#[trigger] order[k]) < pool.len(),
        order@.no_duplicates(),
        order.len() <= pool.len(),
{
    let ghost views = certificate_views(pool@);
    let mut remaining: Vec<usize> = Vec::new();
    let mut i: usize = 0;
    while i < pool.len()
        invariant
            i <= pool.len(),
            remaining.len() == i,
            forall|k: int| 0 <= k < i ==> remaining[k] == k,
        decreases pool.len() - i,
    {
        remaining.push(i);
        i += 1;
    }
    assert(picked(views, remaining@) =~= views);

    let mut order: Vec<usize> = Vec::new();
    let mut current: &Certificate = leaf;
    let mut done = false;
    while !done
        invariant
            views == certificate_views(pool@),
            forall|k: int| 0 <= k < remaining.len() ==> (#[trigger] remaining[k]) < pool.len(),
            forall|k: int| 0 <= k < order.len() ==> (#[trigger] order[k]) < pool.len(),
            remaining@.no_duplicates(),
            order@.no_duplicates(),
            forall|a: int, b: int|
                0 <= a < order.len() && 0 <= b < remaining.len() ==> order[a] != remaining[b],
            order.len() + remaining.len() == pool.len(),
            picked(views, order@) + chain_above(current@, picked(views, remaining@))
                == chain_above(leaf@, views),
            done ==> chain_above(current@, picked(views, remaining@)) == Seq::<
                CertificateView,
            >::empty(),
        decreases remaining.len() + (if done { 0int } else { 1int }),
    {
        let ghost choices = picked(views, remaining@);
        match find_parent(current, pool, &remaining) {
            None => {
                proof {
                    lemma_no_parent_no_chain(current@, choices);
                }
                done = true;
            },
            Some(k) => {
                proof {
                    lemma_first_parent_is_unique(current@, choices, k as int);
                }
                let ghost chosen = order@;
                let parent = remaining.remove(k);
                order.push(parent);
                current = &pool[parent];
                proof {
                    assert(picked(views, remaining@) =~= choices.remove(k as int));
                    assert(choices[k as int] == current@);
                    assert(picked(views, order@) =~= picked(views, chosen) + seq![current@]);
                    assert(picked(views, chosen) + (seq![current@] + chain_above(
                        current@,
                        choices.remove(k as int),
                    )) =~= (picked(views, chosen) + seq![current@]) + chain_above(
                        current@,
                        choices.remove(k as int),
                    ));
                }
            },
        }
    }
    assert(picked(views, order@) =~= picked(views, order@) + Seq::<CertificateView>::empty());
    order
}

/// Rebuilds the chain of `leaf` from an unordered pool of intermediates.
///
/// The chain starts with the bytes of the leaf; each entry after it is
/// the intermediate whose key signed the entry before it, the first such
/// in the order of the pool among those not yet used. Where no
/// intermediate signed the last entry the chain ends there, complete or
/// not. A leaf or an intermediate that does not decode is an error.
pub fn rebuild_chain(leaf: &[u8], intermediates: &Vec<Vec<u8>>) -> (res: Result<
    Vec<Vec<u8>>,
    ChainError,
>)
    ensures
        match res {
            Ok(chain) => spec_rebuild_chain(leaf@, byte_views(intermediates@)) == Ok::<
                Seq<Seq<u8>>,
                ChainError,
            >(byte_views(chain@)),
            Err(error) => spec_rebuild_chain(leaf@, byte_views(intermediates@)) == Err::<
                Seq<Seq<u8>>,
                ChainError,
            >(error),
        },
        res matches Ok(chain) ==> 1 <= chain.len() <= 1 + intermediates.len() && chain[0]@
            == leaf@,
{
    let ghost ders = byte_views(intermediates@);
    let leaf_certificate = match Certificate::from_der(leaf) {
        Some(certificate) => certificate,
        None => {
            return Err(ChainError::InvalidLeaf);
        },
    };
    let mut pool: Vec<Certificate> = Vec::new();
    let mut i: usize = 0;
    while i < intermediates.len()
        invariant
            i <= intermediates.len(),
            pool.len() == i,
            ders == byte_views(intermediates@),
            spec_certificate(leaf@) == Some(leaf_certificate@),
            forall|k: int| 0 <= k < i ==> spec_certificate(#[trigger] ders[k]) == Some(pool[k]@),
        decreases intermediates.len() - i,
    {
        match Certificate::from_der(intermediates[i].as_slice()) {
            Some(certificate) => {
                pool.push(certificate);
            },
            None => {
                proof {
                    assert(ders[i as int] == intermediates[i as int]@);
                    assert(is_first_undecodable(ders, i as int));
                    let first = choose|j: int| is_first_undecodable(ders, j);
                    if first < i {
                        assert(spec_certificate(ders[first]) is Some);
                    } else if i < first {
                        assert(spec_certificate(ders[i as int]) is Some);
                    }
                }
                return Err(ChainError::InvalidIntermediate(i));
            },
        }
        i += 1;
    }
    let ghost views = certificate_views(pool@);
    assert(views =~= decoded_pool(ders));
    assert(all_decodable(ders));

    let order = parent_order(&leaf_certificate, &pool);
    let mut chain: Vec<Vec<u8>> = Vec::new();
    chain.push(slice_to_vec(leaf));
    let mut k: usize = 0;
    while k < order.len()
        invariant
            k <= order.len(),
            chain.len() == k + 1,
            chain[0]@ == leaf@,
            ders == byte_views(intermediates@),
            pool.len() == intermediates.len(),
            forall|m: int| 0 <= m < order.len() ==> (#[trigger] order[m]) < pool.len(),
            forall|m: int| 0 <= m < k ==> (#[trigger] chain[m + 1])@ == ders[order[m] as int],
        decreases order.len() - k,
    {
        chain.push(slice_to_vec(intermediates[order[k]].as_slice()));
        k += 1;
    }
    proof {
        let above = chain_above(leaf_certificate@, views);
        assert(above == picked(views, order@));
        assert forall|m: int| 0 <= m < order.len() implies ders_of(above)[m] == ders[order[m] as int] by {
            assert(above[m] == views[order[m] as int]);
            assert(spec_certificate(ders[order[m] as int]) == Some(pool[order[m] as int]@));
        }
        let expected = seq![leaf@] + ders_of(above);
        assert(byte_views(chain@).len() == expected.len());
        assert forall|n: int| 0 <= n < expected.len() implies byte_views(chain@)[n]
            == expected[n] by {
            if n > 0 {
                assert(chain[(n - 1) + 1]@ == ders[order[n - 1] as int]);
                assert(expected[n] == ders_of(above)[n - 1]);
            }
        }
        assert(byte_views(chain@) =~= expected);
    }
    Ok(chain)
}

} // verus!
