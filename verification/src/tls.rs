//! What a TLS connection trusts, and which names it can be made to.
use vstd::prelude::*;

use crate::error::{ConnectError, ConnectErrorOf};

verus! {

/// The container of root certificates of `rustls`.
#[verifier::external_type_specification]
#[verifier::external_body]
pub struct ExRootCertStore(tokio_rustls::rustls::RootCertStore);

/// The subject, the public key and the name constraints that a root certificate stands for.
pub type Anchor = (Seq<u8>, Seq<u8>, Option<Seq<u8>>);

/// What `rustls` reads out of a root certificate in DER; nothing where it cannot read it.
pub uninterp spec fn trust_anchor(der: Seq<u8>) -> Option<(Seq<u8>, Seq<u8>, Option<Seq<u8>>)>;

/// What a container of root certificates holds, in the order in which it was added.
pub uninterp spec fn store_anchors(
    store: tokio_rustls::rustls::RootCertStore,
) -> Seq<(Seq<u8>, Seq<u8>, Option<Seq<u8>>)>;

/// Calls `rustls::RootCertStore::empty`: the container holds nothing.
#[verifier::external_body]
fn empty_store() -> (store: tokio_rustls::rustls::RootCertStore)
    ensures
        store_anchors(store) == Seq::<Anchor>::empty(),
{
    tokio_rustls::rustls::RootCertStore::empty()
}

/// Calls `rustls::RootCertStore::add`. What a certificate stands for is a function of its
/// bytes alone. One that `rustls` can read is added at the end; for any other the container
/// stays as it is, and the error is always the same.
#[verifier::external_body]
fn add_root(store: &mut tokio_rustls::rustls::RootCertStore, der: Vec<u8>) -> (added: Result<
    (),
    String,
>)
    ensures
        match added {
            Ok(_) => trust_anchor(der@) is Some && store_anchors(*final(store)) == store_anchors(
                *old(store),
            ).push(trust_anchor(der@)->0),
            Err(error) => trust_anchor(der@) is None && store_anchors(*final(store))
                == store_anchors(*old(store)) && error@ == "InvalidCertificate(BadEncoding)"@,
        },
{
    let certificate = tokio_rustls::rustls::Certificate(der);
    store.add(&certificate).map_err(|error| format!("{:?}", error))
}

/// Whether every certificate can be read.
pub open spec fn all_readable(certs: Seq<Seq<u8>>) -> bool {
    forall|i: int| 0 <= i < certs.len() ==> trust_anchor(#[trigger] certs[i]) is Some
}

/// What the certificates stand for, in their order.
pub open spec fn anchors_of(certs: Seq<Seq<u8>>) -> Seq<Anchor> {
    Seq::new(certs.len(), |i: int| trust_anchor(certs[i])->0)
}

/// The failure for a root certificate that cannot be read.
pub open spec fn unreadable_root() -> ConnectErrorOf<Seq<char>> {
    ConnectErrorOf::InvalidRoot("InvalidCertificate(BadEncoding)"@)
}

/// Makes a container out of root certificates in DER. One that cannot be read fails all.
pub fn root_store(certs: Vec<Vec<u8>>) -> (made: Result<
    tokio_rustls::rustls::RootCertStore,
    ConnectError,
>)
    ensures
        match made {
            Ok(store) => all_readable(certs.deep_view()) && store_anchors(store) == anchors_of(
                certs.deep_view(),
            ),
            Err(error) => !all_readable(certs.deep_view()) && error@ == unreadable_root(),
        },
{
    let mut store = empty_store();
    let ghost all = certs.deep_view();
    let mut i: usize = 0;
    while i < certs.len()
        invariant
            i <= certs@.len(),
            all == certs.deep_view(),
            forall|j: int| 0 <= j < i ==> trust_anchor(#[trigger] all[j]) is Some,
            store_anchors(store) == anchors_of(all).take(i as int),
        decreases certs@.len() - i,
    {
        let der: Vec<u8> = certs[i].clone();
        assert(der@ == all[i as int]);
        match add_root(&mut store, der) {
            Ok(_) => {
                assert(anchors_of(all).take(i + 1) == anchors_of(all).take(i as int).push(
                    anchors_of(all)[i as int],
                ));
            },
            Err(error) => {
                return Err(ConnectErrorOf::InvalidRoot(error));
            },
        }
        i = i + 1;
    }
    assert(anchors_of(all).take(all.len() as int) == anchors_of(all));
    Ok(store)
}

/// Whether `rustls` takes a host as the name of a server.
pub uninterp spec fn server_name_valid(host: Seq<char>) -> bool;

/// Calls `rustls::ServerName::try_from` and says whether it took the host. That is a
/// function of the host alone.
#[verifier::external_body]
pub(crate) fn is_server_name(host: &str) -> (valid: bool)
    ensures
        valid == server_name_valid(host@),
{
    tokio_rustls::rustls::ServerName::try_from(host).is_ok()
}

/// Which certificates of a server a TLS connection accepts.
#[derive(Debug)]
pub enum Trust {
    /// Any certificate: nothing is verified.
    AcceptAny,
    /// Certificates that lead to one of these roots.
    Roots(tokio_rustls::rustls::RootCertStore),
}

/// Which certificates are accepted, in contracts.
#[verifier::ext_equal]
pub enum TrustView {
    AcceptAny,
    Roots(Seq<Anchor>),
}

impl View for Trust {
    type V = TrustView;

    open spec fn view(&self) -> TrustView {
        match *self {
            Trust::AcceptAny => TrustView::AcceptAny,
            Trust::Roots(store) => TrustView::Roots(store_anchors(store)),
        }
    }
}

/// The roots to trust once the certificates of the system were loaded. Where they could not
/// be loaded nothing is trusted; one that cannot be read fails the connection.
pub open spec fn trusted_roots(loaded: Option<Seq<Seq<u8>>>) -> Result<
    TrustView,
    ConnectErrorOf<Seq<char>>,
> {
    match loaded {
        None => Ok(TrustView::Roots(Seq::empty())),
        Some(certs) => if all_readable(certs) {
            Ok(TrustView::Roots(anchors_of(certs)))
        } else {
            Err(unreadable_root())
        },
    }
}

/// The roots to trust once the certificates of the system were loaded, or not.
pub fn trust_roots(loaded: Option<Vec<Vec<u8>>>) -> (trust: Result<Trust, ConnectError>)
    ensures
        match trust {
            Ok(t) => trusted_roots(loaded.deep_view()) == Ok::<
                TrustView,
                ConnectErrorOf<Seq<char>>,
            >(t@),
            Err(e) => trusted_roots(loaded.deep_view()) == Err::<
                TrustView,
                ConnectErrorOf<Seq<char>>,
            >(e@),
        },
{
    match loaded {
        None => Ok(Trust::Roots(empty_store())),
        Some(certs) => match root_store(certs) {
            Ok(store) => Ok(Trust::Roots(store)),
            Err(error) => Err(error),
        },
    }
}

/// Roots are never traded for blind trust: whatever was loaded, the connection verifies
/// certificates or fails.
pub proof fn loaded_roots_always_verify(loaded: Option<Seq<Seq<u8>>>)
    ensures
        trusted_roots(loaded) != Ok::<TrustView, ConnectErrorOf<Seq<char>>>(TrustView::AcceptAny),
{
}

/// Every root that was loaded is trusted, however many there are: where all of them can be
/// read, there is an anchor for each certificate, in their order. One that cannot be read
/// fails them all, and where none could be loaded nothing is trusted.
pub proof fn every_loaded_root_is_trusted(certs: Seq<Seq<u8>>)
    ensures
        trusted_roots(None) == Ok::<TrustView, ConnectErrorOf<Seq<char>>>(
            TrustView::Roots(Seq::empty()),
        ),
        (forall|i: int| 0 <= i < certs.len() ==> trust_anchor(#[trigger] certs[i]) is Some) ==> (
        trusted_roots(Some(certs)) matches Ok(TrustView::Roots(anchors)) && anchors.len()
            == certs.len() && forall|i: int|
            0 <= i < certs.len() ==> Some(#[trigger] anchors[i]) == trust_anchor(certs[i])),
        (exists|i: int| 0 <= i < certs.len() && trust_anchor(#[trigger] certs[i]) is None)
            ==> trusted_roots(Some(certs)) == Err::<TrustView, ConnectErrorOf<Seq<char>>>(
            ConnectErrorOf::InvalidRoot("InvalidCertificate(BadEncoding)"@),
        ),
{
}

} // verus!
