//! What a certificate says of its holder.

use x509_parser::extensions::GeneralName;

use vstd::prelude::*;

verus! {

/// A subject alternative name.
pub enum AltName {
    /// A URI.
    Uri(String),
    /// Any other kind of name.
    Other,
}

/// The subject alternative names of a certificate.
pub enum AltNames {
    /// The extension is malformed, or there is more than one.
    Invalid,
    /// There is no such extension.
    Absent,
    /// The names, in order.
    Listed(Vec<AltName>),
}

/// What matters here of an X.509 certificate.
pub struct Certificate {
    /// Whether it is a CA certificate.
    pub is_ca: bool,
    /// Its subject alternative names.
    pub alt_names: AltNames,
}

/// `AltNames` as values: a name is its URI, if it is one.
pub enum AltNamesView {
    /// The extension is malformed, or there is more than one.
    Invalid,
    /// There is no such extension.
    Absent,
    /// The names, in order.
    Listed(Seq<Option<Seq<char>>>),
}

/// `Certificate` as values.
pub struct CertificateView {
    /// Whether it is a CA certificate.
    pub is_ca: bool,
    /// Its subject alternative names.
    pub alt_names: AltNamesView,
}

impl View for AltName {
    type V = Option<Seq<char>>;

    open spec fn view(&self) -> Option<Seq<char>> {
        match self {
            AltName::Uri(uri) => Some(uri@),
            AltName::Other => None,
        }
    }
}

impl View for AltNames {
    type V = AltNamesView;

    open spec fn view(&self) -> AltNamesView {
        match self {
            AltNames::Invalid => AltNamesView::Invalid,
            AltNames::Absent => AltNamesView::Absent,
            AltNames::Listed(names) => AltNamesView::Listed(
                names@.map_values(|name: AltName| name@),
            ),
        }
    }
}

impl View for Certificate {
    type V = CertificateView;

    open spec fn view(&self) -> CertificateView {
        CertificateView { is_ca: self.is_ca, alt_names: self.alt_names@ }
    }
}

/// The contents of the first PEM block in a text, or why there is none.
pub uninterp spec fn pem_contents(text: Seq<char>) -> Result<Seq<u8>, Seq<char>>;

/// The certificate that starts a DER encoding, or why there is none.
pub uninterp spec fn der_certificate(der: Seq<u8>) -> Result<CertificateView, Seq<char>>;

/// Calls `pem::parse`, and `Display` of its error. Both results are functions of the text.
#[verifier::external_body]
pub(crate) fn parse_pem(text: &str) -> (contents: Result<Vec<u8>, String>)
    ensures
        match contents {
            Ok(bytes) => pem_contents(text@) == Ok::<Seq<u8>, Seq<char>>(bytes@),
            Err(reason) => pem_contents(text@) == Err::<Seq<u8>, Seq<char>>(reason@),
        },
{
    match pem::parse(text.as_bytes()) {
        Ok(block) => Ok(block.into_contents()),
        Err(error) => Err(error.to_string()),
    }
}

/// Calls `x509_parser::parse_x509_certificate`, reads `is_ca` and `subject_alternative_name` off the
/// certificate, and calls `Display` of the error. What comes back is a function of the bytes.
#[verifier::external_body]
pub(crate) fn parse_certificate(der: &[u8]) -> (certificate: Result<Certificate, String>)
    ensures
        match certificate {
            Ok(cert) => der_certificate(der@) == Ok::<CertificateView, Seq<char>>(cert@),
            Err(reason) => der_certificate(der@) == Err::<CertificateView, Seq<char>>(reason@),
        },
{
    let (_, certificate) = x509_parser::parse_x509_certificate(der).map_err(|e| e.to_string())?;
    let alt_names = match certificate.subject_alternative_name() {
        Err(_) => AltNames::Invalid,
        Ok(None) => AltNames::Absent,
        Ok(Some(names)) => AltNames::Listed(
            names.value.general_names.iter().map(|name| match name {
                GeneralName::URI(uri) => AltName::Uri(uri.to_string()),
                _ => AltName::Other,
            }).collect(),
        ),
    };
    Ok(Certificate { is_ca: certificate.is_ca(), alt_names })
}

} // verus!
