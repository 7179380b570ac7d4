//! The server identity: from a credential bundle and its secret to an
//! acceptor for secure connections.
//!
//! Parsing the bundle and setting up the acceptor is the work of
//! `native_tls`, reached through `tokio_native_tls`, which also gives the
//! acceptor its asynchronous form. This module decides when that work may
//! be asked for, and what its outcome means for start-up.

use vstd::prelude::*;
use vstd::string::StringSliceAdditionalSpecFns;
use tokio_native_tls::native_tls::{Identity, TlsAcceptor, TlsAcceptorBuilder};
use crate::supervisor::Signal;

verus! {

/// `native_tls::Identity`: a certificate chain with its private key.
#[verifier::external_type_specification]
#[verifier::external_body]
pub struct ExIdentity(tokio_native_tls::native_tls::Identity);

/// `native_tls::TlsAcceptorBuilder`: the settings of an acceptor that is
/// not built yet.
#[verifier::external_type_specification]
#[verifier::external_body]
pub struct ExTlsAcceptorBuilder(tokio_native_tls::native_tls::TlsAcceptorBuilder);

/// `native_tls::TlsAcceptor`: the server side of the secure handshake.
#[verifier::external_type_specification]
#[verifier::external_body]
pub struct ExTlsAcceptor(tokio_native_tls::native_tls::TlsAcceptor);

/// `tokio_native_tls::TlsAcceptor`: the same acceptor, for streams that
/// are read and written asynchronously.
#[verifier::external_type_specification]
#[verifier::external_body]
pub struct ExAsyncTlsAcceptor(tokio_native_tls::TlsAcceptor);

/// `native_tls::Error`: why the library refused.
#[verifier::external_type_specification]
#[verifier::external_body]
pub struct ExTlsError(tokio_native_tls::native_tls::Error);

/// `Identity::from_pkcs12` parses a DER-encoded PKCS #12 archive and
/// decrypts its key with the password. Nothing is claimed of its result.
/// The password must hold no zero byte: the function turns it into a C
/// string once the archive has parsed, and panics on one that does.
pub assume_specification[ tokio_native_tls::native_tls::Identity::from_pkcs12 ](
    der: &[u8],
    password: &str,
) -> (r: Result<Identity, tokio_native_tls::native_tls::Error>)
    requires
        !password.spec_bytes().contains(0u8),
;

/// `TlsAcceptor::builder` starts an acceptor that will present `identity`.
/// Nothing is claimed of its result.
pub assume_specification[ tokio_native_tls::native_tls::TlsAcceptor::builder ](
    identity: Identity,
) -> (b: TlsAcceptorBuilder)
;

/// `TlsAcceptorBuilder::build` makes the acceptor, or says why it cannot.
/// Nothing is claimed of its result.
pub assume_specification[ tokio_native_tls::native_tls::TlsAcceptorBuilder::build ](
    builder: &TlsAcceptorBuilder,
) -> (r: Result<TlsAcceptor, tokio_native_tls::native_tls::Error>)
;

/// `tokio_native_tls::TlsAcceptor::from` wraps a built acceptor for use
/// on asynchronous streams. Nothing is claimed of its result.
#[verifier::external_body]
fn asynchronous(acceptor: TlsAcceptor) -> (a: tokio_native_tls::TlsAcceptor) {
    tokio_native_tls::TlsAcceptor::from(acceptor)
}

/// Why no acceptor could be made.
#[derive(Debug)]
pub enum StartupError {
    /// The secret holds a zero byte, which no secret of a bundle can.
    SecretHasNul,
    /// The bundle could not be parsed, or the secret does not unlock it.
    IdentityRejected(tokio_native_tls::native_tls::Error),
    /// The identity was read, but no acceptor could be set up with it.
    AcceptorRejected(tokio_native_tls::native_tls::Error),
}

/// Whether the secret holds a zero byte.
pub fn has_nul(secret: &str) -> (r: bool)
    ensures
        r == secret.spec_bytes().contains(0u8),
{
    let bytes = secret.as_bytes();
    let mut i: usize = 0;
    while i < bytes.len()
        invariant
            i <= bytes.len(),
            bytes@ == secret.spec_bytes(),
            forall|j: int| 0 <= j < i ==> bytes@[j] != 0u8,
        decreases bytes.len() - i,
    {
        if bytes[i] == 0u8 {
            return true;
        }
        i = i + 1;
    }
    false
}

/// What a parsed bundle means for start-up: the identity if there is
/// one, else a rejection that keeps the cause.
pub fn admit_identity(parsed: Result<Identity, tokio_native_tls::native_tls::Error>) -> (r: Result<
    Identity,
    StartupError,
>)
    ensures
        parsed is Ok ==> r == Ok::<Identity, StartupError>(parsed->Ok_0),
        parsed is Err ==> r == Err::<Identity, StartupError>(
            StartupError::IdentityRejected(parsed->Err_0),
        ),
{
    match parsed {
        Ok(identity) => Ok(identity),
        Err(cause) => Err(StartupError::IdentityRejected(cause)),
    }
}

/// What a built acceptor means for start-up: the acceptor if there is
/// one, else a rejection that keeps the cause.
pub fn admit_acceptor(built: Result<TlsAcceptor, tokio_native_tls::native_tls::Error>) -> (r: Result<
    TlsAcceptor,
    StartupError,
>)
    ensures
        built is Ok ==> r == Ok::<TlsAcceptor, StartupError>(built->Ok_0),
        built is Err ==> r == Err::<TlsAcceptor, StartupError>(
            StartupError::AcceptorRejected(built->Err_0),
        ),
{
    match built {
        Ok(acceptor) => Ok(acceptor),
        Err(cause) => Err(StartupError::AcceptorRejected(cause)),
    }
}

/// Makes the acceptor of the endpoint from a PKCS #12 credential bundle
/// and the secret that unlocks it.
///
/// A secret with a zero byte is refused before anything is parsed, and
/// only such a secret is refused for that reason. Any other secret is
/// handed to the parser with the bundle; whether an acceptor comes back
/// is then decided there.
pub fn server_acceptor(bundle: &[u8], secret: &str) -> (r: Result<
    tokio_native_tls::TlsAcceptor,
    StartupError,
>)
    ensures
        secret.spec_bytes().contains(0u8) <==> r matches Err(StartupError::SecretHasNul),
{
    if has_nul(secret) {
        return Err(StartupError::SecretHasNul);
    }
    let identity = match admit_identity(Identity::from_pkcs12(bundle, secret)) {
        Ok(identity) => identity,
        Err(refusal) => {
            return Err(refusal);
        },
    };
    match admit_acceptor(TlsAcceptor::builder(identity).build()) {
        Ok(acceptor) => Ok(asynchronous(acceptor)),
        Err(refusal) => Err(refusal),
    }
}

/// What the supervisor is told once the acceptor was asked for: that the
/// identity is ready if there is an acceptor, that it was rejected if
/// there is none, whatever the reason.
pub fn startup_signal(outcome: &Result<tokio_native_tls::TlsAcceptor, StartupError>) -> (s: Signal)
    ensures
        outcome is Ok ==> s == Signal::IdentityReady,
        outcome is Err ==> s == Signal::IdentityRejected,
{
    match outcome {
        Ok(_) => Signal::IdentityReady,
        Err(_) => Signal::IdentityRejected,
    }
}

} // verus!
