use db_server::network::tls::{load_certs, load_key, NativeRoots, ALPN_DB_SERVER};
use db_server::{KvError, TlsClientConnector, TlsServerAcceptor};
use tokio_rustls::rustls::RootCertStore;

const NOT_BASE64_CERT: &str = "-----BEGIN CERTIFICATE-----\n!!!!\n-----END CERTIFICATE-----\n";
const EMPTY_CERT: &str = "-----BEGIN CERTIFICATE-----\nAQID\n-----END CERTIFICATE-----\n";

fn base64_digit(six: u8) -> char {
    match six {
        0..=25 => char::from(b'A' + six),
        26..=51 => char::from(b'a' + (six - 26)),
        52..=61 => char::from(b'0' + (six - 52)),
        62 => '+',
        _ => '/',
    }
}

fn base64(bytes: &[u8]) -> String {
    let mut text = String::new();
    for chunk in bytes.chunks(3) {
        let b = [chunk[0], *chunk.get(1).unwrap_or(&0), *chunk.get(2).unwrap_or(&0)];
        let word = (u32::from(b[0]) << 16) | (u32::from(b[1]) << 8) | u32::from(b[2]);
        for i in 0..4usize {
            if i <= chunk.len() {
                text.push(base64_digit(((word >> (18 - 6 * i)) & 63) as u8));
            } else {
                text.push('=');
            }
        }
    }
    text
}

fn armored(label: &str, body: &str) -> String {
    format!("-----BEGIN {0}-----\n{1}\n-----END {0}-----\n", label, body)
}

fn key_label(prefix: &str) -> String {
    format!("{}{} {}", prefix, "PRIVATE", "KEY")
}

fn pkcs8_key(der: &[u8]) -> String {
    armored(&key_label(""), &base64(der))
}

fn rsa_key(der: &[u8]) -> String {
    armored(&key_label("RSA "), &base64(der))
}

fn private_key_error() -> KvError {
    KvError::CertificateParseError("private", "key")
}

fn empty_roots() -> NativeRoots {
    NativeRoots::Complete(RootCertStore::empty())
}

#[test]
fn protocol_name_is_fixed() {
    assert_eq!(ALPN_DB_SERVER, "db_server");
}

#[test]
fn certificates_are_read_in_order() {
    assert_eq!(load_certs(""), Ok(vec![]));
    assert_eq!(load_certs(EMPTY_CERT), Ok(vec![vec![1, 2, 3]]));
    let two = format!("{}{}", EMPTY_CERT, "-----BEGIN CERTIFICATE-----\nBAUG\n-----END CERTIFICATE-----\n");
    assert_eq!(load_certs(&two), Ok(vec![vec![1, 2, 3], vec![4, 5, 6]]));
    assert_eq!(load_certs(NOT_BASE64_CERT), Err(KvError::CertificateParseError("server", "cert")));
}

#[test]
fn private_key_is_pkcs8_first_then_rsa() {
    assert_eq!(load_key(&pkcs8_key(&[4, 5, 6])), Ok(vec![4, 5, 6]));
    assert_eq!(load_key(&rsa_key(&[1, 2, 3])), Ok(vec![1, 2, 3]));
    assert_eq!(load_key(&format!("{}{}", rsa_key(&[1, 2, 3]), pkcs8_key(&[4, 5, 6]))), Ok(vec![4, 5, 6]));
    assert_eq!(load_key(""), Err(private_key_error()));
    assert_eq!(load_key("no key here"), Err(private_key_error()));
    assert_eq!(load_key(EMPTY_CERT), Err(private_key_error()));
    assert_eq!(
        load_key(&armored(&key_label(""), "!!!!")),
        Err(private_key_error())
    );
}

#[test]
fn server_material_is_checked_in_order() {
    let bad = |r: Result<TlsServerAcceptor, KvError>| r.err().unwrap();
    assert_eq!(
        bad(TlsServerAcceptor::new(NOT_BASE64_CERT, "", Some(NOT_BASE64_CERT))),
        KvError::CertificateParseError("server", "cert")
    );
    assert_eq!(bad(TlsServerAcceptor::new(EMPTY_CERT, "", Some(NOT_BASE64_CERT))), private_key_error());
    assert_eq!(
        bad(TlsServerAcceptor::new(EMPTY_CERT, &pkcs8_key(&[4, 5, 6]), Some(NOT_BASE64_CERT))),
        KvError::CertificateParseError("CA", "cert")
    );
    // the key is read, and then refused as no key at all
    assert_eq!(
        bad(TlsServerAcceptor::new(EMPTY_CERT, &pkcs8_key(&[4, 5, 6]), None)),
        KvError::CertificateParseError("server", "cert")
    );
    assert_eq!(
        bad(TlsServerAcceptor::new(EMPTY_CERT, &pkcs8_key(&[4, 5, 6]), Some(EMPTY_CERT))),
        KvError::CertificateParseError("server", "cert")
    );
}

#[test]
fn client_without_identity_keeps_the_domain() {
    let connector = TlsClientConnector::with_roots("dbserver.acme.inc", None, None, empty_roots()).ok().unwrap();
    assert_eq!(connector.domain.as_str(), "dbserver.acme.inc");
    assert_eq!(connector.check_domain(), Ok(()));
    assert!(connector.config.root_store.is_empty());

    let connector = TlsClientConnector::with_roots("not a domain!", None, Some(""), empty_roots()).ok().unwrap();
    assert_eq!(connector.check_domain(), Err(KvError::Internal("Invalid DNS name".into())));
}

#[test]
fn client_material_is_checked_in_order() {
    let bad = |r: Result<TlsClientConnector, KvError>| r.err().unwrap();
    let failed = || NativeRoots::Failed(std::io::Error::new(std::io::ErrorKind::Other, "no roots"));
    let identity = || Some((vec![vec![1u8, 2, 3]], vec![4u8, 5, 6]));
    assert_eq!(
        bad(TlsClientConnector::with_roots("d", identity(), Some(NOT_BASE64_CERT), failed())),
        KvError::CertificateParseError("client", "cert")
    );
    assert_eq!(
        bad(TlsClientConnector::with_roots("d", None, Some(NOT_BASE64_CERT), failed())),
        KvError::IoError("no roots".into())
    );
    assert_eq!(
        bad(TlsClientConnector::with_roots("d", None, Some(NOT_BASE64_CERT), empty_roots())),
        KvError::CertificateParseError("CA", "cert")
    );
    assert_eq!(
        bad(TlsClientConnector::with_roots(
            "d",
            None,
            Some(NOT_BASE64_CERT),
            NativeRoots::Partial(RootCertStore::empty())
        )),
        KvError::CertificateParseError("CA", "cert")
    );
    assert!(TlsClientConnector::with_roots("d", None, None, NativeRoots::Partial(RootCertStore::empty())).is_ok());
}

#[test]
fn client_identity_is_read_before_the_roots() {
    let bad = |r: Result<TlsClientConnector, KvError>| r.err().unwrap();
    assert_eq!(
        bad(TlsClientConnector::new("d", Some((NOT_BASE64_CERT, pkcs8_key(&[4, 5, 6]).as_str())), None)),
        KvError::CertificateParseError("server", "cert")
    );
    assert_eq!(bad(TlsClientConnector::new("d", Some((EMPTY_CERT, "")), None)), private_key_error());
    assert_eq!(
        bad(TlsClientConnector::new("d", Some((EMPTY_CERT, pkcs8_key(&[4, 5, 6]).as_str())), None)),
        KvError::CertificateParseError("client", "cert")
    );
}

fn ed25519_der() -> Vec<u8> {
    let mut der = vec![0x30, 0x2e, 0x02, 0x01, 0x00, 0x30, 0x05, 0x06, 0x03, 0x2b, 0x65, 0x70, 0x04, 0x22, 0x04, 0x20];
    der.extend(1u8..=32);
    der
}

#[test]
fn a_key_that_the_server_takes_is_read_whole() {
    assert_eq!(load_key(&pkcs8_key(&ed25519_der())), Ok(ed25519_der()));
}

#[test]
fn server_without_client_ca_asks_no_certificate_and_advertises_the_protocol() {
    let acceptor = TlsServerAcceptor::new(EMPTY_CERT, &pkcs8_key(&ed25519_der()), None).ok().unwrap();
    assert!(!acceptor.requires_client_cert());
    let config = acceptor.config();
    assert_eq!(config.alpn_protocols, vec![b"db_server".to_vec()]);
    assert!(!config.get_verifier().offer_client_auth());
}

#[test]
fn server_with_client_ca_asks_for_a_certificate() {
    let acceptor = TlsServerAcceptor::new(EMPTY_CERT, &pkcs8_key(&ed25519_der()), Some(EMPTY_CERT)).ok().unwrap();
    assert!(acceptor.requires_client_cert());
    let config = acceptor.config();
    assert_eq!(config.alpn_protocols, vec![b"db_server".to_vec()]);
    assert!(config.get_verifier().offer_client_auth());
    assert_eq!(config.get_verifier().client_auth_mandatory(None), Some(true));
}

#[test]
fn client_identity_is_set_exactly_when_one_is_given() {
    let identity = Some((vec![vec![1u8, 2, 3]], ed25519_der()));
    let with = TlsClientConnector::with_roots("d", identity, None, empty_roots()).ok().unwrap();
    assert!(with.config.client_auth_cert_resolver.has_certs());
    let without = TlsClientConnector::with_roots("d", None, None, empty_roots()).ok().unwrap();
    assert!(!without.config.client_auth_cert_resolver.has_certs());
}

#[test]
fn client_roots_are_those_it_was_given() {
    let connector = TlsClientConnector::with_roots("d", None, Some(EMPTY_CERT), empty_roots()).ok().unwrap();
    // the one certificate of the bundle is none that an anchor can be made of
    assert_eq!(connector.config.root_store.len(), 0);
    assert!(connector.config.alpn_protocols.is_empty());
}
