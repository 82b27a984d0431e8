//! The certificate authority: per-host leaf certificates signed by the
//! private root.
//!
//! The root signing material is loaded once; every interception handshake
//! gets a leaf certificate whose subject alternative names are computed
//! here — the exact target host, plus the port-qualified form when the
//! CONNECT authority carried one — and the chain presented is always leaf
//! then root. Key generation and signing are `rcgen`'s work; which names a
//! leaf carries, and the chain order, are this module's contract.

use vstd::prelude::*;
use rcgen::{
    BasicConstraints, Certificate, CertificateParams, DistinguishedName, DnType, IsCa, KeyPair,
};
use crate::strutil::{lemma_spec_split_len, seq_views, spec_split, split_char};

verus! {

/// Why certificate issuance failed.
#[derive(Clone, Copy, Debug, PartialEq, Eq, Structural)]
pub enum CertAuthorityError {
    /// The root key or certificate could not be parsed into signing
    /// material.
    InvalidRootMaterial,
    /// Signing or serializing a leaf certificate failed.
    SigningFailed,
}

/// rcgen's certificate type, held opaquely as the root signing handle.
#[verifier::external_type_specification]
#[verifier::external_body]
pub struct ExRcgenCertificate(Certificate);

/// Whether PEM text parses into usable root signing material: a private
/// key rcgen can read, of the default signature algorithm. A function of
/// the key text alone.
pub uninterp spec fn spec_root_material_ok(key_pem: Seq<char>) -> bool;

/// Whether PEM text holds at least one X.509 certificate block. A
/// function of the certificate text alone.
pub uninterp spec fn spec_root_cert_ok(cert_pem: Seq<char>) -> bool;

/// Relies on rustls_pemfile::certs: reads the PEM blocks of the text and
/// collects the certificate blocks; it errs only on malformed PEM framing
/// and never panics. The root certificate text must hold at least one.
#[verifier::external_body]
fn parse_root_cert(cert_pem: &str) -> (r: bool)
    ensures
        r == spec_root_cert_ok(cert_pem@),
{
    match rustls_pemfile::certs(&mut cert_pem.as_bytes()) {
        Ok(certs) => !certs.is_empty(),
        Err(_) => false,
    }
}

/// Relies on rcgen (KeyPair::from_pem, CertificateParams,
/// Certificate::from_params): builds the root signing authority from its
/// PEM private key, as a CA with the given common name. Whether the key
/// parses and fits the default algorithm is decided by the key text alone;
/// the common name never fails.
#[verifier::external_body]
fn build_root(key_pem: &str, common_name: &str) -> (r: Result<Certificate, CertAuthorityError>)
    ensures
        r is Ok <==> spec_root_material_ok(key_pem@),
{
    let keypair = match KeyPair::from_pem(key_pem) {
        Ok(kp) => kp,
        Err(_) => {
            return Err(CertAuthorityError::InvalidRootMaterial);
        },
    };
    let mut params = CertificateParams::new(Vec::<String>::new());
    params.is_ca = IsCa::Ca(BasicConstraints::Unconstrained);
    params.distinguished_name = DistinguishedName::new();
    params.distinguished_name.push(DnType::CommonName, common_name);
    params.key_pair = Some(keypair);
    Certificate::from_params(params).map_err(|_| CertAuthorityError::InvalidRootMaterial)
}

/// Relies on rcgen (CertificateParams::new, Certificate::from_params,
/// serialize_pem_with_signer, serialize_private_key_pem): the leaf
/// certificate carries exactly the given strings as its subject
/// alternative names, is signed by the given authority, and is returned as
/// (certificate PEM, private key PEM) for a freshly generated key. The
/// names must be ASCII: rcgen serializes a name that is not an IP address
/// as an ASN.1 IA5String, which admits ASCII alone and panics otherwise.
#[verifier::external_body]
fn sign_leaf(ca: &Certificate, names: &Vec<String>) -> (r: Result<
    (String, String),
    CertAuthorityError,
>)
    requires
        forall|i: int|
            0 <= i < names@.len() ==> vstd::utf8::is_ascii_chars(#[trigger] names@[i]@),
{
    let mut params = CertificateParams::new(names.clone());
    params.distinguished_name = DistinguishedName::new();
    let cert = match Certificate::from_params(params) {
        Ok(c) => c,
        Err(_) => {
            return Err(CertAuthorityError::SigningFailed);
        },
    };
    let cert_pem = match cert.serialize_pem_with_signer(ca) {
        Ok(p) => p,
        Err(_) => {
            return Err(CertAuthorityError::SigningFailed);
        },
    };
    Ok((cert_pem, cert.serialize_private_key_pem()))
}

/// The subject alternative names a leaf for `host` carries: the bare host,
/// and the full authority too when it carries a port suffix, for clients
/// that probe the name with the port included.
pub open spec fn spec_san_names(host: Seq<char>) -> Seq<Seq<char>> {
    let parts = spec_split(host, ':');
    if parts.len() > 1 {
        seq![parts[0], host]
    } else {
        seq![host]
    }
}

/// The requested host is always among the subject alternative names.
pub proof fn lemma_san_contains_host(host: Seq<char>)
    ensures
        spec_san_names(host).contains(host),
{
    let names = spec_san_names(host);
    assert(names[names.len() - 1] == host);
}

/// Computes the subject alternative names for a target host.
pub fn san_names(host: &str) -> (r: Vec<String>)
    ensures
        seq_views(r@) == spec_san_names(host@),
{
    let parts = split_char(host, ':');
    proof {
        lemma_spec_split_len(host@, ':');
        assert(seq_views(parts@)[0] == parts@[0]@);
    }
    let mut out: Vec<String> = Vec::new();
    if parts.len() > 1 {
        out.push(parts[0].clone());
        out.push(host.to_owned());
        proof {
            assert(seq_views(out@) =~= spec_san_names(host@));
        }
    } else {
        out.push(host.to_owned());
        proof {
            assert(seq_views(out@) =~= spec_san_names(host@));
        }
    }
    out
}

/// A leaf certificate issued for one host: the PEM chain presented to the
/// client (leaf, then root), the leaf's PEM private key, and the subject
/// alternative names the leaf was issued with.
pub struct IssuedCertificate {
    pub chain_pem: Vec<String>,
    pub key_pem: String,
    pub san_names: Vec<String>,
}

/// The root signing authority, loaded once at startup.
pub struct CertificateAuthority {
    root: Certificate,
    root_cert_pem: String,
}

impl CertificateAuthority {
    /// The root certificate in PEM form, presented as the second chain
    /// element of every issued certificate.
    pub closed spec fn spec_root_pem(self) -> Seq<char> {
        self.root_cert_pem@
    }

    /// The root certificate in PEM form.
    pub fn root_pem(&self) -> (r: &String)
        ensures
            r@ == self.spec_root_pem(),
    {
        &self.root_cert_pem
    }

    /// Loads the authority from the root certificate and private key in
    /// PEM form; it succeeds exactly when the certificate text parses and
    /// the key text is usable signing material. Failure here is fatal to
    /// startup, never retried: the proxy must not run without signing
    /// capability.
    pub fn load(root_cert_pem: String, root_key_pem: &str, common_name: &str) -> (r: Result<
        Self,
        CertAuthorityError,
    >)
        ensures
            r is Ok <==> spec_root_cert_ok(root_cert_pem@) && spec_root_material_ok(
                root_key_pem@,
            ),
            match r {
                Ok(ca) => ca.spec_root_pem() == root_cert_pem@,
                Err(e) => e == CertAuthorityError::InvalidRootMaterial,
            },
    {
        if !parse_root_cert(root_cert_pem.as_str()) {
            return Err(CertAuthorityError::InvalidRootMaterial);
        }
        match build_root(root_key_pem, common_name) {
            Ok(root) => Ok(CertificateAuthority { root, root_cert_pem }),
            Err(_) => Err(CertAuthorityError::InvalidRootMaterial),
        }
    }

    /// Issues a leaf certificate for a host: its subject alternative names
    /// are exactly `spec_san_names` of the host, and the chain is leaf
    /// then root. The host must be ASCII, as every name in a certificate
    /// is; CONNECT authorities are ASCII by the URI grammar, and the
    /// server checks before asking.
    pub fn issue(&self, host: &str) -> (r: Result<IssuedCertificate, CertAuthorityError>)
        requires
            vstd::string::is_ascii(host),
        ensures
            match r {
                Ok(c) => {
                    &&& seq_views(c.san_names@) == spec_san_names(host@)
                    &&& c.chain_pem@.len() == 2
                    &&& c.chain_pem@[1]@ == self.spec_root_pem()
                },
                Err(e) => e == CertAuthorityError::SigningFailed,
            },
    {
        let names = san_names(host);
        proof {
            crate::strutil::lemma_split_ascii(host@, ':');
            crate::strutil::lemma_spec_split_len(host@, ':');
            assert forall|i: int|
                0 <= i < names@.len() implies vstd::utf8::is_ascii_chars(
                #[trigger] names@[i]@,
            ) by {
                assert(seq_views(names@)[i] == names@[i]@);
                let parts = spec_split(host@, ':');
                if parts.len() > 1 {
                    assert(spec_san_names(host@) =~= seq![parts[0], host@]);
                } else {
                    assert(spec_san_names(host@) =~= seq![host@]);
                }
            }
        }
        match sign_leaf(&self.root, &names) {
            Ok((leaf_pem, key_pem)) => {
                let mut chain_pem: Vec<String> = Vec::new();
                chain_pem.push(leaf_pem);
                chain_pem.push(self.root_cert_pem.clone());
                Ok(IssuedCertificate { chain_pem, key_pem, san_names: names })
            },
            Err(_) => Err(CertAuthorityError::SigningFailed),
        }
    }
}

/// Issuing twice for one host yields certificates with the same subject
/// alternative names: the names are a function of the host alone.
pub proof fn lemma_issue_idempotent_sans(
    names1: Seq<Seq<char>>,
    names2: Seq<Seq<char>>,
    host: Seq<char>,
)
    requires
        names1 == spec_san_names(host),
        names2 == spec_san_names(host),
    ensures
        names1 == names2,
{
}

} // verus!
