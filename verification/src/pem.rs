//! Reading the certificate chain and the private key of the TLS setup out
//! of the contents of PEM files. The sections themselves are found and
//! decoded by `rustls_pemfile`; which of them are kept is decided here.
use rustls_pemfile::{read_one_from_slice, Item};
use vstd::prelude::*;

verus! {

/// One section of a PEM file, with the DER bytes it holds.
#[derive(Debug)]
pub enum PemItem {
    /// A "CERTIFICATE" section.
    Certificate(Vec<u8>),
    /// An "RSA PRIVATE KEY" section (PKCS #1).
    Pkcs1Key(Vec<u8>),
    /// A "PRIVATE KEY" section (PKCS #8).
    Pkcs8Key(Vec<u8>),
    /// An "EC PRIVATE KEY" section (SEC1).
    Sec1Key(Vec<u8>),
    /// Any other recognised section (public key, CRL, CSR).
    Other,
}

pub enum PemItemView {
    Certificate(Seq<u8>),
    Pkcs1Key(Seq<u8>),
    Pkcs8Key(Seq<u8>),
    Sec1Key(Seq<u8>),
    Other,
}

impl View for PemItem {
    type V = PemItemView;

    open spec fn view(&self) -> PemItemView {
        match self {
            PemItem::Certificate(d) => PemItemView::Certificate(d@),
            PemItem::Pkcs1Key(d) => PemItemView::Pkcs1Key(d@),
            PemItem::Pkcs8Key(d) => PemItemView::Pkcs8Key(d@),
            PemItem::Sec1Key(d) => PemItemView::Sec1Key(d@),
            PemItem::Other => PemItemView::Other,
        }
    }
}

/// The PEM input is malformed: a section lacks its end line, a section
/// start line is ill-formed, or a section's base64 does not decode.
#[derive(Debug)]
pub struct PemError;

/// The outcome of reading the next section of some PEM input.
pub enum PemNext {
    /// The next recognised section, and the input that follows it.
    Section(PemItemView, Seq<u8>),
    /// The input holds no further recognised section.
    End,
    /// The input is malformed before the next recognised section ends.
    Invalid,
}

/// What `rustls_pemfile::read_one_from_slice` finds at the start of `input`.
pub uninterp spec fn pem_read_one(input: Seq<u8>) -> PemNext;

pub open spec fn pem_next_of(r: Result<Option<(PemItem, &[u8])>, PemError>) -> PemNext {
    match r {
        Ok(Some((item, rest))) => PemNext::Section(item@, rest@),
        Ok(None) => PemNext::End,
        Err(_) => PemNext::Invalid,
    }
}

/// Reads the next recognised section of `input` with
/// `rustls_pemfile::read_one_from_slice`. The outcome is the one named by
/// [`pem_read_one`]; when a section is found, what follows it is a strictly
/// shorter suffix of `input` (the crate's reader only moves forward, and a
/// section takes at least its start line).
#[verifier::external_body]
fn read_one_section<'a>(input: &'a [u8]) -> (r: Result<Option<(PemItem, &'a [u8])>, PemError>)
    ensures
        pem_next_of(r) == pem_read_one(input@),
        r matches Ok(Some((_, rest))) ==> rest@.len() < input@.len() && rest@ == input@.subrange(
            input@.len() - rest@.len(),
            input@.len() as int,
        ),
{
    let (item, rest) = match read_one_from_slice(input) {
        Ok(Some(found)) => found,
        Ok(None) => return Ok(None),
        Err(_) => return Err(PemError),
    };
    let item = match item {
        Item::X509Certificate(d) => PemItem::Certificate(d.to_vec()),
        Item::Pkcs1Key(d) => PemItem::Pkcs1Key(d.secret_pkcs1_der().to_vec()),
        Item::Pkcs8Key(d) => PemItem::Pkcs8Key(d.secret_pkcs8_der().to_vec()),
        Item::Sec1Key(d) => PemItem::Sec1Key(d.secret_sec1_der().to_vec()),
        _ => PemItem::Other,
    };
    Ok(Some((item, rest)))
}

/// The certificates of some PEM input, in order, or `None` when the input
/// is malformed before its last section.
pub open spec fn pem_certificates(input: Seq<u8>) -> Option<Seq<Seq<u8>>>
    decreases input.len(),
{
    match pem_read_one(input) {
        PemNext::End => Some(Seq::empty()),
        PemNext::Invalid => None,
        PemNext::Section(item, rest) => if rest.len() < input.len() {
            match pem_certificates(rest) {
                Some(tail) => match item {
                    PemItemView::Certificate(der) => Some(seq![der] + tail),
                    _ => Some(tail),
                },
                None => None,
            }
        } else {
            None
        },
    }
}

pub open spec fn prepend_all(found: Seq<Seq<u8>>, later: Option<Seq<Seq<u8>>>) -> Option<
    Seq<Seq<u8>>,
> {
    match later {
        Some(tail) => Some(found + tail),
        None => None,
    }
}

/// The certificates found so far, after one more section has been read:
/// a certificate's DER bytes are appended, any other section is passed over.
pub open spec fn certificates_after(found: Seq<Seq<u8>>, item: PemItemView) -> Seq<Seq<u8>> {
    match item {
        PemItemView::Certificate(der) => found.push(der),
        _ => found,
    }
}

/// Adds the section `item` to the certificates collected so far (see
/// [`certificates_after`]).
pub fn keep_certificate(certs: &mut Vec<Vec<u8>>, item: PemItem)
    ensures
        final(certs)@.map_values(|c: Vec<u8>| c@) == certificates_after(
            old(certs)@.map_values(|c: Vec<u8>| c@),
            item@,
        ),
{
    match item {
        PemItem::Certificate(der) => {
            certs.push(der);
            assert(final(certs)@.map_values(|c: Vec<u8>| c@) =~= old(certs)@.map_values(
                |c: Vec<u8>| c@,
            ).push(der@));
        },
        _ => {},
    }
}

/// Collects the DER bytes of every certificate of the PEM input `pem`, in
/// order, or reports that the input is malformed.
fn collect_certificates(pem: &[u8]) -> (r: Result<Vec<Vec<u8>>, PemError>)
    ensures
        match r {
            Ok(certs) => pem_certificates(pem@) == Some(certs@.map_values(|c: Vec<u8>| c@)),
            Err(_) => pem_certificates(pem@) is None,
        },
{
    let mut certs: Vec<Vec<u8>> = Vec::new();
    let mut rest: &[u8] = pem;
    assert(certs@.map_values(|c: Vec<u8>| c@) + Seq::<Seq<u8>>::empty() =~= Seq::<
        Seq<u8>,
    >::empty());
    loop
        invariant
            pem_certificates(pem@) == prepend_all(
                certs@.map_values(|c: Vec<u8>| c@),
                pem_certificates(rest@),
            ),
        decreases rest@.len(),
    {
        let ghost before = certs@.map_values(|c: Vec<u8>| c@);
        match read_one_section(rest) {
            Ok(None) => {
                assert(before + Seq::<Seq<u8>>::empty() =~= before);
                return Ok(certs);
            },
            Err(e) => {
                return Err(e);
            },
            Ok(Some((item, next))) => {
                let ghost it = item@;
                keep_certificate(&mut certs, item);
                proof {
                    match it {
                        PemItemView::Certificate(d) => {
                            match pem_certificates(next@) {
                                Some(tail) => {
                                    assert(before + (seq![d] + tail) =~= before.push(d) + tail);
                                },
                                None => {},
                            }
                        },
                        _ => {},
                    }
                }
                rest = next;
            },
        }
    }
}

/// Collects the DER bytes of every certificate of the PEM input `pem`, in
/// order. The input must be well formed throughout.
pub fn load_certs(pem: &[u8]) -> (certs: Vec<Vec<u8>>)
    requires
        pem_certificates(pem@) is Some,
    ensures
        pem_certificates(pem@) == Some(certs@.map_values(|c: Vec<u8>| c@)),
{
    match collect_certificates(pem) {
        Ok(certs) => certs,
        Err(_) => Vec::new(),
    }
}

/// Collects the certificates of the PEM input `pem` when it is well formed
/// (see [`load_certs`]), and reports that it is malformed otherwise.
pub fn read_certificates(pem: &[u8]) -> (r: Result<Vec<Vec<u8>>, PemError>)
    ensures
        match r {
            Ok(certs) => pem_certificates(pem@) == Some(certs@.map_values(|c: Vec<u8>| c@)),
            Err(_) => pem_certificates(pem@) is None,
        },
{
    match collect_certificates(pem) {
        Ok(_) => Ok(load_certs(pem)),
        Err(e) => Err(e),
    }
}

/// The outcome of looking for a private key in some PEM input.
pub enum KeySearch {
    /// The first key section (PKCS #1, PKCS #8 or SEC1).
    Found(PemItemView),
    /// The input holds no key section.
    Missing,
    /// The input is malformed before a key section is found.
    Invalid,
}

pub open spec fn is_key(item: PemItemView) -> bool {
    match item {
        PemItemView::Pkcs1Key(_) | PemItemView::Pkcs8Key(_) | PemItemView::Sec1Key(_) => true,
        _ => false,
    }
}

/// The first private key of some PEM input: sections before it that are not
/// keys are passed over.
pub open spec fn pem_first_key(input: Seq<u8>) -> KeySearch
    decreases input.len(),
{
    match pem_read_one(input) {
        PemNext::End => KeySearch::Missing,
        PemNext::Invalid => KeySearch::Invalid,
        PemNext::Section(item, rest) => if is_key(item) {
            KeySearch::Found(item)
        } else if rest.len() < input.len() {
            pem_first_key(rest)
        } else {
            KeySearch::Invalid
        },
    }
}

/// Why no private key could be taken from some PEM input.
#[derive(Debug)]
pub enum KeyError {
    /// The input is malformed before a key section is found.
    Invalid(PemError),
    /// The input holds no key section.
    Missing,
}

/// The private key that the section `item` holds, if it is a key section.
pub fn key_in(item: PemItem) -> (r: Option<PemItem>)
    ensures
        r is Some <==> is_key(item@),
        r matches Some(key) ==> key@ == item@,
{
    match item {
        PemItem::Pkcs1Key(_) | PemItem::Pkcs8Key(_) | PemItem::Sec1Key(_) => Some(item),
        _ => None,
    }
}

/// Looks for the first private key (PKCS #1, PKCS #8 or SEC1) of the PEM
/// input `pem`.
fn search_key(pem: &[u8]) -> (r: Result<PemItem, KeyError>)
    ensures
        match r {
            Ok(key) => pem_first_key(pem@) == KeySearch::Found(key@),
            Err(KeyError::Missing) => pem_first_key(pem@) == KeySearch::Missing,
            Err(KeyError::Invalid(_)) => pem_first_key(pem@) == KeySearch::Invalid,
        },
{
    let mut rest: &[u8] = pem;
    loop
        invariant
            pem_first_key(pem@) == pem_first_key(rest@),
        decreases rest@.len(),
    {
        match read_one_section(rest) {
            Ok(None) => {
                return Err(KeyError::Missing);
            },
            Err(e) => {
                return Err(KeyError::Invalid(e));
            },
            Ok(Some((item, next))) => {
                match key_in(item) {
                    Some(key) => {
                        return Ok(key);
                    },
                    None => {},
                }
                rest = next;
            },
        }
    }
}

/// Takes the first private key (PKCS #1, PKCS #8 or SEC1) of the PEM input
/// `pem`, which must hold one, well formed up to it.
pub fn load_keys(pem: &[u8]) -> (key: PemItem)
    requires
        pem_first_key(pem@) is Found,
    ensures
        pem_first_key(pem@) == KeySearch::Found(key@),
{
    match search_key(pem) {
        Ok(key) => key,
        Err(_) => PemItem::Other,
    }
}

/// Takes the first private key of the PEM input `pem` when there is one
/// (see [`load_keys`]), and says why not otherwise.
pub fn find_private_key(pem: &[u8]) -> (r: Result<PemItem, KeyError>)
    ensures
        match r {
            Ok(key) => pem_first_key(pem@) == KeySearch::Found(key@),
            Err(KeyError::Missing) => pem_first_key(pem@) == KeySearch::Missing,
            Err(KeyError::Invalid(_)) => pem_first_key(pem@) == KeySearch::Invalid,
        },
{
    match search_key(pem) {
        Ok(_) => Ok(load_keys(pem)),
        Err(e) => Err(e),
    }
}

} // verus!
