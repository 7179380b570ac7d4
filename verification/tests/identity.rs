use echo_relay::identity::{
    admit_acceptor, admit_identity, has_nul, server_acceptor, startup_signal, StartupError,
};
use echo_relay::supervisor::{Command, Phase, Signal, StopReason};
use tokio_native_tls::native_tls::{Identity, TlsAcceptor};

/// The secret of the bundle below.
fn secret() -> &'static str {
    "open-sesame"
}

/// A PKCS #12 bundle with a self-signed certificate for `localhost` and its
/// key, locked with `secret()`.
fn bundle() -> Vec<u8> {
    vec![
        0x30, 0x82, 0x04, 0x0c, 0x02, 0x01, 0x03, 0x30, 0x82, 0x03, 0xc2, 0x06, 0x09, 0x2a, 0x86, 0x48,
        0x86, 0xf7, 0x0d, 0x01, 0x07, 0x01, 0xa0, 0x82, 0x03, 0xb3, 0x04, 0x82, 0x03, 0xaf, 0x30, 0x82,
        0x03, 0xab, 0x30, 0x82, 0x02, 0x62, 0x06, 0x09, 0x2a, 0x86, 0x48, 0x86, 0xf7, 0x0d, 0x01, 0x07,
        0x06, 0xa0, 0x82, 0x02, 0x53, 0x30, 0x82, 0x02, 0x4f, 0x02, 0x01, 0x00, 0x30, 0x82, 0x02, 0x48,
        0x06, 0x09, 0x2a, 0x86, 0x48, 0x86, 0xf7, 0x0d, 0x01, 0x07, 0x01, 0x30, 0x57, 0x06, 0x09, 0x2a,
        0x86, 0x48, 0x86, 0xf7, 0x0d, 0x01, 0x05, 0x0d, 0x30, 0x4a, 0x30, 0x29, 0x06, 0x09, 0x2a, 0x86,
        0x48, 0x86, 0xf7, 0x0d, 0x01, 0x05, 0x0c, 0x30, 0x1c, 0x04, 0x08, 0x65, 0xf3, 0x33, 0x37, 0x35,
        0x3b, 0x2b, 0x75, 0x02, 0x02, 0x08, 0x00, 0x30, 0x0c, 0x06, 0x08, 0x2a, 0x86, 0x48, 0x86, 0xf7,
        0x0d, 0x02, 0x09, 0x05, 0x00, 0x30, 0x1d, 0x06, 0x09, 0x60, 0x86, 0x48, 0x01, 0x65, 0x03, 0x04,
        0x01, 0x2a, 0x04, 0x10, 0x1a, 0x7e, 0xeb, 0x60, 0x5f, 0x0f, 0x34, 0x06, 0x04, 0xda, 0x13, 0x0d,
        0x89, 0x48, 0xf6, 0x7b, 0x80, 0x82, 0x01, 0xe0, 0x09, 0x2f, 0x04, 0xef, 0x95, 0xa7, 0xbc, 0x4c,
        0xaa, 0x4c, 0xfe, 0xe5, 0x79, 0x96, 0x75, 0x2c, 0x5a, 0xd5, 0xd9, 0x44, 0xd7, 0xed, 0xcb, 0x1c,
        0x59, 0xd2, 0x1e, 0x7b, 0x89, 0x37, 0xf7, 0xc0, 0xb1, 0xa6, 0x60, 0xd5, 0xf9, 0x41, 0xa6, 0xba,
        0x3c, 0x22, 0x85, 0x01, 0xee, 0x97, 0x79, 0x4c, 0x3c, 0x31, 0xd9, 0xb3, 0x35, 0x78, 0xd9, 0xca,
        0xa7, 0xb8, 0xf9, 0x80, 0x0b, 0x17, 0x1f, 0x79, 0x77, 0xb9, 0xba, 0x4a, 0x39, 0xc0, 0xd7, 0xad,
        0xdd, 0x2f, 0x47, 0xc9, 0x37, 0x8b, 0xb3, 0x7c, 0x70, 0x55, 0x09, 0x03, 0xd2, 0xd5, 0xf3, 0x1a,
        0xc4, 0xb2, 0xbe, 0x0d, 0x61, 0x3f, 0xd0, 0x6c, 0xa9, 0x80, 0xf4, 0x51, 0x5f, 0xc8, 0x2d, 0x6b,
        0xbe, 0xa6, 0xe8, 0xd6, 0xf8, 0xeb, 0x31, 0xc0, 0x93, 0xed, 0x04, 0x27, 0xbd, 0xb5, 0x5f, 0x44,
        0x37, 0x3d, 0x79, 0x3d, 0x3c, 0x49, 0xe7, 0x6d, 0xc9, 0xe0, 0xe9, 0xcd, 0xc4, 0xe6, 0x0f, 0x66,
        0x97, 0x57, 0xb2, 0x0c, 0x84, 0x84, 0x84, 0x77, 0xa5, 0x35, 0xfd, 0x22, 0xa6, 0xf3, 0x8f, 0xd5,
        0x61, 0x99, 0x95, 0x13, 0x40, 0x92, 0xb0, 0xfd, 0xd3, 0x08, 0xea, 0xf0, 0xb6, 0x86, 0xe4, 0x31,
        0x36, 0x23, 0xa9, 0x02, 0x41, 0x00, 0x7b, 0xaa, 0x0e, 0x4a, 0x69, 0x97, 0xe7, 0xf1, 0xf0, 0x1c,
        0x0c, 0x2f, 0x9f, 0xc5, 0xd5, 0x4a, 0xc3, 0xb7, 0x27, 0xdb, 0x59, 0x71, 0xee, 0x60, 0xde, 0x7a,
        0x2b, 0xe1, 0xf8, 0x57, 0x66, 0x8b, 0x3c, 0x3e, 0x0f, 0xcc, 0x38, 0x4f, 0x90, 0x0f, 0xec, 0xf1,
        0xab, 0x10, 0x5b, 0x37, 0x1f, 0xdc, 0xd2, 0x1b, 0x3f, 0x33, 0x45, 0x69, 0x3f, 0x01, 0x3f, 0x1c,
        0x62, 0x1f, 0x10, 0xad, 0x6a, 0x72, 0x0f, 0x67, 0x87, 0x91, 0x8e, 0xf5, 0x9c, 0xf8, 0x4a, 0xd1,
        0xc3, 0x9b, 0xc8, 0x28, 0x81, 0xf1, 0x99, 0xf2, 0xc3, 0xe3, 0x3c, 0x5b, 0x43, 0x96, 0x00, 0x81,
        0x2d, 0x3b, 0x77, 0x2c, 0xa0, 0xe1, 0xe0, 0xb3, 0xae, 0xdc, 0x8b, 0x8b, 0x8e, 0x2c, 0xe1, 0x47,
        0x19, 0x2d, 0x9e, 0x1b, 0xba, 0x63, 0xb9, 0x92, 0x18, 0x77, 0xf1, 0x11, 0x18, 0x04, 0x51, 0xe8,
        0x42, 0x0c, 0x0c, 0x8e, 0xf7, 0x05, 0x60, 0x4c, 0x85, 0x9a, 0xe8, 0x5c, 0x9f, 0x68, 0xdf, 0x65,
        0x7c, 0xe6, 0x9b, 0x38, 0xaf, 0xc2, 0x28, 0xcb, 0x1a, 0x61, 0x85, 0xf1, 0x9a, 0x6d, 0x9d, 0x3d,
        0x1c, 0x8c, 0xe9, 0x7b, 0x07, 0x62, 0x21, 0x2f, 0x6b, 0x4b, 0xf3, 0xa9, 0xd6, 0x4c, 0x14, 0xde,
        0xeb, 0xe3, 0x36, 0xc3, 0x9e, 0xb7, 0xd7, 0xee, 0x6d, 0xb8, 0x56, 0x44, 0x6c, 0xa3, 0x84, 0x38,
        0x5d, 0xb0, 0xb0, 0xa9, 0x60, 0x57, 0x53, 0xf8, 0x22, 0xa9, 0xe2, 0x5b, 0x8f, 0x1b, 0xe7, 0x7e,
        0x79, 0xcd, 0x27, 0x43, 0x4b, 0x8a, 0x80, 0xe9, 0x04, 0xbc, 0xfd, 0xc5, 0x71, 0x20, 0x3e, 0x86,
        0xf0, 0x74, 0x1d, 0xec, 0xac, 0xc5, 0x2e, 0xc5, 0xd5, 0xcb, 0x44, 0xf2, 0x74, 0x5e, 0xc2, 0x32,
        0xf4, 0xc8, 0x78, 0xbd, 0x39, 0xf4, 0x0a, 0x75, 0xf7, 0x4c, 0x07, 0x45, 0x7d, 0x88, 0xe7, 0x7f,
        0xbb, 0x54, 0xca, 0xce, 0x0d, 0x10, 0x60, 0x85, 0xa1, 0xc4, 0xef, 0x85, 0x30, 0xc6, 0x67, 0xbe,
        0xda, 0x43, 0xeb, 0x4d, 0xae, 0x8d, 0xe3, 0xaa, 0x57, 0x12, 0xda, 0x0d, 0xd1, 0x22, 0x84, 0xf5,
        0x29, 0xf3, 0xb6, 0x71, 0x5e, 0x6a, 0x14, 0x45, 0x07, 0x89, 0xad, 0x84, 0x9c, 0x9a, 0xc8, 0x79,
        0x7f, 0xf5, 0x33, 0xb8, 0xd6, 0x49, 0x9e, 0x8a, 0x30, 0x82, 0x01, 0x41, 0x06, 0x09, 0x2a, 0x86,
        0x48, 0x86, 0xf7, 0x0d, 0x01, 0x07, 0x01, 0xa0, 0x82, 0x01, 0x32, 0x04, 0x82, 0x01, 0x2e, 0x30,
        0x82, 0x01, 0x2a, 0x30, 0x82, 0x01, 0x26, 0x06, 0x0b, 0x2a, 0x86, 0x48, 0x86, 0xf7, 0x0d, 0x01,
        0x0c, 0x0a, 0x01, 0x02, 0xa0, 0x81, 0xef, 0x30, 0x81, 0xec, 0x30, 0x57, 0x06, 0x09, 0x2a, 0x86,
        0x48, 0x86, 0xf7, 0x0d, 0x01, 0x05, 0x0d, 0x30, 0x4a, 0x30, 0x29, 0x06, 0x09, 0x2a, 0x86, 0x48,
        0x86, 0xf7, 0x0d, 0x01, 0x05, 0x0c, 0x30, 0x1c, 0x04, 0x08, 0xd5, 0x10, 0x05, 0x64, 0x6a, 0x16,
        0xee, 0x5c, 0x02, 0x02, 0x08, 0x00, 0x30, 0x0c, 0x06, 0x08, 0x2a, 0x86, 0x48, 0x86, 0xf7, 0x0d,
        0x02, 0x09, 0x05, 0x00, 0x30, 0x1d, 0x06, 0x09, 0x60, 0x86, 0x48, 0x01, 0x65, 0x03, 0x04, 0x01,
        0x2a, 0x04, 0x10, 0x3d, 0x18, 0xe2, 0x83, 0x9d, 0xa6, 0xaf, 0xb7, 0xec, 0x4f, 0xc0, 0xd2, 0x04,
        0xf1, 0xfa, 0x95, 0x04, 0x81, 0x90, 0xbc, 0xef, 0x95, 0xc3, 0x18, 0xf4, 0x73, 0x81, 0x8f, 0x5b,
        0x60, 0x04, 0xec, 0x62, 0xa6, 0x33, 0xbc, 0xde, 0x6e, 0x11, 0xf5, 0x66, 0xe1, 0xdb, 0x5a, 0xda,
        0xf5, 0x4c, 0x6c, 0x40, 0x58, 0x5e, 0x8e, 0x41, 0xb1, 0xd9, 0x83, 0xae, 0x58, 0x36, 0xcd, 0x70,
        0x6b, 0x4b, 0x57, 0x8c, 0x06, 0x87, 0x5b, 0xc5, 0x2b, 0xe3, 0x78, 0x1d, 0x51, 0x26, 0xb6, 0xc9,
        0xb7, 0x72, 0x94, 0x96, 0x23, 0x21, 0xbc, 0x07, 0x85, 0xf7, 0x40, 0xf3, 0x60, 0x4a, 0x0d, 0xb8,
        0x27, 0xcb, 0xf1, 0x1b, 0x8a, 0x74, 0x07, 0xca, 0xb9, 0xe4, 0xa1, 0x2b, 0x43, 0x88, 0x4d, 0xdd,
        0x78, 0x26, 0xbe, 0x7a, 0x2c, 0x4b, 0x75, 0xe4, 0x30, 0xa8, 0x0b, 0x89, 0xc7, 0xdc, 0x7d, 0x1a,
        0x6c, 0x7d, 0xa9, 0x7c, 0x62, 0x54, 0x67, 0xa7, 0xf8, 0xa5, 0x82, 0x36, 0x76, 0x86, 0x4b, 0xce,
        0xc3, 0xc6, 0x88, 0x3c, 0x5a, 0x2b, 0x79, 0x9a, 0x1e, 0x88, 0x1b, 0x6a, 0x13, 0xf6, 0x35, 0x57,
        0x7a, 0xce, 0xff, 0xc6, 0x8c, 0x8d, 0x31, 0x25, 0x30, 0x23, 0x06, 0x09, 0x2a, 0x86, 0x48, 0x86,
        0xf7, 0x0d, 0x01, 0x09, 0x15, 0x31, 0x16, 0x04, 0x14, 0x02, 0x08, 0x03, 0x7c, 0x40, 0x89, 0x4e,
        0xda, 0xfa, 0xc3, 0x67, 0x4f, 0x07, 0x52, 0x0c, 0xfa, 0x22, 0x52, 0x52, 0x6d, 0x30, 0x41, 0x30,
        0x31, 0x30, 0x0d, 0x06, 0x09, 0x60, 0x86, 0x48, 0x01, 0x65, 0x03, 0x04, 0x02, 0x01, 0x05, 0x00,
        0x04, 0x20, 0x19, 0x02, 0x42, 0xd2, 0x27, 0x6e, 0x9a, 0xbf, 0xe9, 0x78, 0x4e, 0x04, 0x21, 0x29,
        0x07, 0xa1, 0x33, 0x39, 0x08, 0x63, 0x61, 0x9d, 0xcf, 0x0a, 0xc0, 0xef, 0xda, 0x3a, 0x3f, 0x59,
        0x39, 0xef, 0x04, 0x08, 0x07, 0xa3, 0x6c, 0x65, 0x56, 0x56, 0x64, 0xbf, 0x02, 0x02, 0x08, 0x00,
    ]
}

#[test]
fn zero_bytes_are_found_wherever_they_stand() {
    assert!(!has_nul(""));
    assert!(!has_nul("open-sesame"));
    assert!(!has_nul("p\u{00e4}ssw\u{00f6}rd \u{4e2d}\u{6587} 0"));
    assert!(has_nul("\0"));
    assert!(has_nul("\0abc"));
    assert!(has_nul("abc\0"));
    assert!(has_nul("ab\0cd"));
    assert!(has_nul("\u{00e4}\0\u{00f6}"));
}

#[test]
fn secret_with_a_zero_byte_is_refused_before_parsing() {
    let outcome = server_acceptor(&bundle(), "open\0sesame");
    assert!(matches!(outcome, Err(StartupError::SecretHasNul)));
    let outcome = server_acceptor(b"not a bundle", "\0");
    assert!(matches!(outcome, Err(StartupError::SecretHasNul)));
    let outcome = server_acceptor(&[], "tail\0");
    assert!(matches!(outcome, Err(StartupError::SecretHasNul)));
}

#[test]
fn bundle_with_its_secret_gives_an_acceptor() {
    let outcome = server_acceptor(&bundle(), secret());
    assert!(outcome.is_ok());
    assert_eq!(startup_signal(&outcome), Signal::IdentityReady);
}

#[test]
fn wrong_secret_is_rejected_and_no_socket_is_opened() {
    let outcome = server_acceptor(&bundle(), "open-barley");
    assert!(matches!(outcome, Err(StartupError::IdentityRejected(_))));
    let signal = startup_signal(&outcome);
    assert_eq!(signal, Signal::IdentityRejected);

    assert_eq!(Phase::start().pending(), Command::LoadIdentity);
    let (phase, command) = Phase::start().step(signal);
    assert_eq!(phase, Phase::Stopped(StopReason::IdentityRejected));
    assert_eq!(command, Command::Exit);
    let (phase, command) = phase.step(Signal::Bound);
    assert_eq!(phase, Phase::Stopped(StopReason::IdentityRejected));
    assert_eq!(command, Command::Exit);
}

#[test]
fn empty_secret_does_not_unlock_the_bundle() {
    let outcome = server_acceptor(&bundle(), "");
    assert!(matches!(outcome, Err(StartupError::IdentityRejected(_))));
}

#[test]
fn bytes_that_are_no_bundle_are_rejected() {
    let outcome = server_acceptor(b"certainly not DER", secret());
    assert!(matches!(outcome, Err(StartupError::IdentityRejected(_))));
    assert_eq!(startup_signal(&outcome), Signal::IdentityRejected);

    let outcome = server_acceptor(&[], secret());
    assert!(matches!(outcome, Err(StartupError::IdentityRejected(_))));

    let mut cut = bundle();
    cut.truncate(100);
    let outcome = server_acceptor(&cut, secret());
    assert!(matches!(outcome, Err(StartupError::IdentityRejected(_))));
}

#[test]
fn parsed_identity_is_admitted_as_it_is() {
    let parsed = Identity::from_pkcs12(&bundle(), secret());
    assert!(parsed.is_ok());
    assert!(admit_identity(parsed).is_ok());
}

#[test]
fn parse_error_becomes_a_rejected_identity() {
    let parsed = Identity::from_pkcs12(b"junk", secret());
    assert!(parsed.is_err());
    assert!(matches!(admit_identity(parsed), Err(StartupError::IdentityRejected(_))));
}

#[test]
fn built_acceptor_is_admitted_as_it_is() {
    let identity = Identity::from_pkcs12(&bundle(), secret()).unwrap();
    let built = TlsAcceptor::builder(identity).build();
    assert!(built.is_ok());
    assert!(admit_acceptor(built).is_ok());
}

#[test]
fn build_error_becomes_a_rejected_acceptor() {
    let cause = match Identity::from_pkcs12(b"junk", secret()) {
        Err(cause) => cause,
        Ok(_) => panic!("junk parsed as a bundle"),
    };
    assert!(matches!(admit_acceptor(Err(cause)), Err(StartupError::AcceptorRejected(_))));
}

#[test]
fn startup_signal_tells_ready_from_rejected() {
    assert_eq!(startup_signal(&Err(StartupError::SecretHasNul)), Signal::IdentityRejected);
    let ok = server_acceptor(&bundle(), secret());
    assert_eq!(startup_signal(&ok), Signal::IdentityReady);
}
