//! The root certificates that an encrypted connection to the backend is checked against.

use vstd::prelude::*;

verus! {

/// Declares the set of root certificates of `rustls`.
#[verifier::external_type_specification]
#[verifier::external_body]
pub struct ExRootCertStore(rustls::RootCertStore);

/// Declares the error of `rustls`.
#[verifier::external_type_specification]
#[verifier::external_body]
pub struct ExError(rustls::Error);

/// The trust anchors that a store holds, in order: of each the subject, the public key and the
/// name constraints, in DER.
pub uninterp spec fn trust_anchors(store: rustls::RootCertStore) -> Seq<
    (Seq<u8>, Seq<u8>, Option<Seq<u8>>),
>;

/// What an error of `rustls` is displayed as.
pub uninterp spec fn error_words(e: rustls::Error) -> Seq<char>;

/// A name for what a certificate in DER yields: a trust anchor, or the words for why it cannot be
/// read as one.
pub uninterp spec fn anchor_in(der: Seq<u8>) -> Result<
    (Seq<u8>, Seq<u8>, Option<Seq<u8>>),
    Seq<char>,
>;

/// `rustls::RootCertStore::empty`: a store without trust anchors.
#[verifier::external_body]
fn empty_store() -> (r: rustls::RootCertStore)
    ensures
        trust_anchors(r) == Seq::<(Seq<u8>, Seq<u8>, Option<Seq<u8>>)>::empty(),
{
    rustls::RootCertStore::empty()
}

/// `rustls::RootCertStore::add`: appends the trust anchor of a certificate, or reports why the
/// certificate cannot be read and leaves the store as it was. Which of the two, which anchor and
/// which words depends on the certificate alone.
#[verifier::external_body]
fn add_root(store: &mut rustls::RootCertStore, der: Vec<u8>) -> (r: Result<(), rustls::Error>)
    ensures
        match r {
            Ok(_) => anchor_in(der@) is Ok && trust_anchors(*final(store)) == trust_anchors(
                *old(store),
            ).push(anchor_in(der@)->Ok_0),
            Err(e) => anchor_in(der@) == Err::<(Seq<u8>, Seq<u8>, Option<Seq<u8>>), Seq<char>>(
                error_words(e),
            ) && trust_anchors(*final(store)) == trust_anchors(*old(store)),
        },
{
    store.add(rustls::pki_types::CertificateDer::from(der))
}

/// `rustls::Error::to_string`: what an error is displayed as.
#[verifier::external_body]
fn error_text(e: &rustls::Error) -> (r: String)
    ensures
        r@ == error_words(*e),
{
    e.to_string()
}

/// The views of a sequence of certificates.
pub open spec fn certificates(v: Seq<Vec<u8>>) -> Seq<Seq<u8>> {
    v.map_values(|c: Vec<u8>| c@)
}

/// The trust anchors of those certificates that yield one, in order.
pub open spec fn anchors_of(certs: Seq<Seq<u8>>) -> Seq<(Seq<u8>, Seq<u8>, Option<Seq<u8>>)>
    decreases certs.len(),
{
    if certs.len() == 0 {
        Seq::empty()
    } else {
        let before = anchors_of(certs.drop_last());
        match anchor_in(certs.last()) {
            Ok(anchor) => before.push(anchor),
            Err(_) => before,
        }
    }
}

/// The positions of those certificates that yield no trust anchor, in order, each with why.
pub open spec fn unreadable(certs: Seq<Seq<u8>>) -> Seq<(int, Seq<char>)>
    decreases certs.len(),
{
    if certs.len() == 0 {
        Seq::empty()
    } else {
        let before = unreadable(certs.drop_last());
        match anchor_in(certs.last()) {
            Ok(_) => before,
            Err(words) => before.push((certs.len() - 1, words)),
        }
    }
}

/// The root certificates that could be used, and those that could not: their positions, and why.
pub struct RootCertificates {
    pub store: rustls::RootCertStore,
    pub rejected: Vec<(usize, String)>,
}

/// The positions of rejected certificates, and why they were.
pub open spec fn rejections(rejected: Seq<(usize, String)>) -> Seq<(int, Seq<char>)> {
    rejected.map_values(|e: (usize, String)| (e.0 as int, e.1@))
}

/// Keeps why the certificate at `position` was rejected, if it was.
pub fn note_rejection(
    rejected: &mut Vec<(usize, String)>,
    position: usize,
    outcome: Result<(), String>,
)
    ensures
        rejections(final(rejected)@) == (match outcome {
            Ok(_) => rejections(old(rejected)@),
            Err(words) => rejections(old(rejected)@).push((position as int, words@)),
        }),
{
    let ghost before = rejected@;
    match outcome {
        Ok(_) => {},
        Err(words) => {
            rejected.push((position, words));
            assert(rejections(rejected@) =~= rejections(before).push((position as int, words@)));
        },
    }
}

/// Collects the root certificates of the platform. A certificate that cannot be read is passed
/// over.
pub fn collect_roots(certs: Vec<Vec<u8>>) -> (r: RootCertificates)
    ensures
        trust_anchors(r.store) == anchors_of(certificates(certs@)),
        rejections(r.rejected@) == unreadable(certificates(certs@)),
{
    let ghost all = certificates(certs@);
    let mut store: rustls::RootCertStore = empty_store();
    let mut rejected: Vec<(usize, String)> = Vec::new();
    let mut i: usize = 0;
    proof {
        assert(all.take(0) =~= Seq::<Seq<u8>>::empty());
        assert(rejections(rejected@) =~= Seq::<(int, Seq<char>)>::empty());
    }
    while i < certs.len()
        invariant
            all == certificates(certs@),
            i <= certs@.len(),
            trust_anchors(store) == anchors_of(all.take(i as int)),
            rejections(rejected@) == unreadable(all.take(i as int)),
        decreases certs@.len() - i,
    {
        proof {
            assert(all.take(i + 1).drop_last() =~= all.take(i as int));
            assert(all.take(i + 1).last() == certs@[i as int]@);
        }
        let outcome: Result<(), String> = match add_root(&mut store, certs[i].clone()) {
            Ok(_) => Ok(()),
            Err(e) => Err(error_text(&e)),
        };
        note_rejection(&mut rejected, i, outcome);
        i = i + 1;
    }
    assert(all.take(certs@.len() as int) =~= all);
    RootCertificates { store, rejected }
}

/// Every certificate is either used or rejected.
pub proof fn every_certificate_is_accounted_for(certs: Seq<Seq<u8>>)
    ensures
        anchors_of(certs).len() + unreadable(certs).len() == certs.len(),
    decreases certs.len(),
{
    if certs.len() > 0 {
        every_certificate_is_accounted_for(certs.drop_last());
    }
}

/// The certificates of two rows, one behind the other, yield the trust anchors of the first and then
/// those of the second; and a single one yields its own, if it has one.
pub proof fn anchors_come_one_by_one(a: Seq<Seq<u8>>, b: Seq<Seq<u8>>, der: Seq<u8>)
    ensures
        anchors_of(a + b) == anchors_of(a) + anchors_of(b),
        anchors_of(seq![der]) == (match anchor_in(der) {
            Ok(anchor) => seq![anchor],
            Err(_) => Seq::empty(),
        }),
    decreases b.len(),
{
    reveal_with_fuel(anchors_of, 2);
    assert(seq![der].drop_last() =~= Seq::<Seq<u8>>::empty());
    assert(seq![der].last() == der);
    assert(anchors_of(seq![der]) =~= (match anchor_in(der) {
        Ok(anchor) => seq![anchor],
        Err(_) => Seq::empty(),
    }));
    if b.len() == 0 {
        assert(a + b =~= a);
        assert(anchors_of(a) + anchors_of(b) =~= anchors_of(a));
    } else {
        assert((a + b).drop_last() =~= a + b.drop_last());
        anchors_come_one_by_one(a, b.drop_last(), der);
        assert(anchors_of(a + b) =~= anchors_of(a) + anchors_of(b));
    }
}

/// Exactly the certificates that yield no trust anchor are rejected, each once, by its very position
/// and with the words for why, in order.
pub proof fn rejections_are_true(certs: Seq<Seq<u8>>)
    ensures
        ({
            let rejected = unreadable(certs);
            &&& forall|j: int|
                0 <= j < rejected.len() ==> 0 <= (#[trigger] rejected[j]).0 < certs.len()
                    && anchor_in(certs[rejected[j].0]) == Err::<
                    (Seq<u8>, Seq<u8>, Option<Seq<u8>>),
                    Seq<char>,
                >(rejected[j].1)
            &&& forall|j: int, k: int|
                0 <= j < k < rejected.len() ==> (#[trigger] rejected[j]).0 < (
                #[trigger] rejected[k]).0
            &&& forall|i: int|
                0 <= i < certs.len() && anchor_in(#[trigger] certs[i]) is Err ==> exists|j: int|
                    0 <= j < rejected.len() && (#[trigger] rejected[j]).0 == i
        }),
    decreases certs.len(),
{
    if certs.len() > 0 {
        let front = certs.drop_last();
        let (before, rejected) = (unreadable(front), unreadable(certs));
        rejections_are_true(front);
        assert forall|i: int|
            0 <= i < certs.len() && anchor_in(#[trigger] certs[i]) is Err implies exists|j: int|
            0 <= j < rejected.len() && (#[trigger] rejected[j]).0 == i by {
            if i < front.len() {
                assert(front[i] == certs[i]);
                let j = choose|j: int| 0 <= j < before.len() && (#[trigger] before[j]).0 == i;
                assert(rejected[j].0 == i);
            } else {
                assert(rejected[rejected.len() - 1].0 == i);
            }
        }
    }
}

/// Certificates and rejections are seen whole, each in its place.
pub proof fn certificates_are_seen_whole(v: Seq<Vec<u8>>, r: Seq<(usize, String)>)
    ensures
        certificates(v).len() == v.len(),
        forall|i: int| 0 <= i < v.len() ==> (#[trigger] certificates(v)[i]) == v[i]@,
        rejections(r).len() == r.len(),
        forall|i: int| 0 <= i < r.len() ==> (#[trigger] rejections(r)[i]) == (r[i].0 as int, r[i].1@),
{
}

} // verus!
