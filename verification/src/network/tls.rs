//! TLS configuration for the server and the client: which material is parsed, in which order,
//! and which error each failure gives. The handshake itself is the caller's business.

use vstd::prelude::*;
use vstd::utf8::encode_utf8;
use std::sync::Arc;
use tokio_rustls::rustls::internal::pemfile;
use tokio_rustls::rustls::{
    AllowAnyAuthenticatedClient, Certificate, ClientConfig, NoClientAuth, PrivateKey, RootCertStore, ServerConfig,
};
use tokio_rustls::webpki::DNSNameRef;
use crate::error::KvError;

verus! {

/// The protocol name that the server advertises to its clients.
pub const ALPN_DB_SERVER: &'static str = "db_server";

#[verifier::external_type_specification]
#[verifier::external_body]
pub struct ExServerConfig(ServerConfig);

#[verifier::external_type_specification]
#[verifier::external_body]
pub struct ExClientConfig(ClientConfig);

#[verifier::external_type_specification]
#[verifier::external_body]
pub struct ExRootCertStore(RootCertStore);

/// The certificates of a PEM text, each in DER form and in the order of the text; nothing
/// where the text cannot be read as PEM.
pub uninterp spec fn pem_certs(pem: Seq<char>) -> Option<Seq<Seq<u8>>>;

/// The PKCS#8 private keys of a PEM text, each in DER form and in the order of the text;
/// nothing where the text cannot be read as PEM.
pub uninterp spec fn pem_pkcs8_keys(pem: Seq<char>) -> Option<Seq<Seq<u8>>>;

/// The RSA private keys of a PEM text, each in DER form and in the order of the text; nothing
/// where the text cannot be read as PEM.
pub uninterp spec fn pem_rsa_keys(pem: Seq<char>) -> Option<Seq<Seq<u8>>>;

/// Whether a server configuration takes the key as the private key of the chain.
pub uninterp spec fn server_key_accepted(chain: Seq<Seq<u8>>, key: Seq<u8>) -> bool;

/// Whether a client configuration takes the key as the private key of the chain.
pub uninterp spec fn client_key_accepted(chain: Seq<Seq<u8>>, key: Seq<u8>) -> bool;

/// Whether a text is a syntactically valid DNS name.
pub uninterp spec fn dns_name_accepted(name: Seq<char>) -> bool;

/// The trust anchors that a store holds, in the order in which they were added; each stands
/// here as the bytes of its subject, its key and its name constraints.
pub uninterp spec fn store_anchors(store: RootCertStore) -> Seq<Seq<u8>>;

/// The trust anchors that can be made of the certificates of a PEM text, in the order of the
/// text; a certificate of which none can be made gives none.
pub uninterp spec fn pem_anchors(pem: Seq<char>) -> Seq<Seq<u8>>;

/// The protocol names that a server configuration advertises, most preferred first.
pub uninterp spec fn server_alpn(config: ServerConfig) -> Seq<Seq<u8>>;

/// Whether a server configuration takes only clients that present a certificate.
pub uninterp spec fn server_asks_client_cert(config: ServerConfig) -> bool;

/// The trust anchors to which a client's certificate must chain for a server configuration to
/// take it; none where it asks for no certificate.
pub uninterp spec fn server_client_anchors(config: ServerConfig) -> Seq<Seq<u8>>;

/// The certificate chain that a server configuration presents, if it has one.
pub uninterp spec fn server_chain(config: ServerConfig) -> Option<Seq<Seq<u8>>>;

/// The trust anchors of a client configuration.
pub uninterp spec fn client_anchors(config: ClientConfig) -> Seq<Seq<u8>>;

/// The certificate chain that a client configuration presents to a server that asks for one,
/// if it has one.
pub uninterp spec fn client_chain(config: ClientConfig) -> Option<Seq<Seq<u8>>>;

/// `pemfile::certs` of rustls: the DER contents of the certificates in `pem`.
#[verifier::external_body]
fn parse_certs(pem: &str) -> (r: Result<Vec<Vec<u8>>, ()>)
    ensures
        match r {
            Ok(certs) => pem_certs(pem@) == Some(certs.deep_view()),
            Err(_) => pem_certs(pem@) is None,
        },
{
    pemfile::certs(&mut pem.as_bytes()).map(|certs| certs.into_iter().map(|c| c.0).collect())
}

/// `pemfile::pkcs8_private_keys` of rustls: the DER contents of the PKCS#8 keys in `pem`.
#[verifier::external_body]
fn parse_pkcs8_keys(pem: &str) -> (r: Result<Vec<Vec<u8>>, ()>)
    ensures
        match r {
            Ok(keys) => pem_pkcs8_keys(pem@) == Some(keys.deep_view()),
            Err(_) => pem_pkcs8_keys(pem@) is None,
        },
{
    pemfile::pkcs8_private_keys(&mut pem.as_bytes()).map(|keys| keys.into_iter().map(|k| k.0).collect())
}

/// `pemfile::rsa_private_keys` of rustls: the DER contents of the RSA keys in `pem`.
#[verifier::external_body]
fn parse_rsa_keys(pem: &str) -> (r: Result<Vec<Vec<u8>>, ()>)
    ensures
        match r {
            Ok(keys) => pem_rsa_keys(pem@) == Some(keys.deep_view()),
            Err(_) => pem_rsa_keys(pem@) is None,
        },
{
    pemfile::rsa_private_keys(&mut pem.as_bytes()).map(|keys| keys.into_iter().map(|k| k.0).collect())
}

/// `RootCertStore::empty` of rustls: a store without trust anchors.
#[verifier::external_body]
fn root_store_empty() -> (store: RootCertStore)
    ensures
        store_anchors(store) == Seq::<Seq<u8>>::empty(),
{
    RootCertStore::empty()
}

/// `RootCertStore::add_pem_file` of rustls: says whether the text could be read as PEM, which
/// it reads as `pemfile::certs` does. Where it could, the trust anchors that can be made of
/// its certificates stand behind those that the store held; where it could not, the store is
/// as it was.
#[verifier::external_body]
fn root_store_add_pem(store: &mut RootCertStore, pem: &str) -> (read: bool)
    ensures
        read == pem_certs(pem@) is Some,
        read ==> store_anchors(*final(store)) == store_anchors(*old(store)) + pem_anchors(pem@),
        !read ==> store_anchors(*final(store)) == store_anchors(*old(store)),
{
    store.add_pem_file(&mut pem.as_bytes()).is_ok()
}

/// `ServerConfig::new` of rustls with `NoClientAuth`: a configuration that asks no client for
/// a certificate, advertises no protocol and presents no certificate chain.
#[verifier::external_body]
fn server_config_anonymous() -> (config: ServerConfig)
    ensures
        !server_asks_client_cert(config),
        server_client_anchors(config) == Seq::<Seq<u8>>::empty(),
        server_alpn(config) == Seq::<Seq<u8>>::empty(),
        server_chain(config) is None,
{
    ServerConfig::new(NoClientAuth::new())
}

/// `ServerConfig::new` of rustls with `AllowAnyAuthenticatedClient`: a configuration that
/// takes only clients whose certificate chains to one of the trust anchors of `roots`,
/// advertises no protocol and presents no certificate chain.
#[verifier::external_body]
fn server_config_client_auth(roots: RootCertStore) -> (config: ServerConfig)
    ensures
        server_asks_client_cert(config),
        server_client_anchors(config) == store_anchors(roots),
        server_alpn(config) == Seq::<Seq<u8>>::empty(),
        server_chain(config) is None,
{
    ServerConfig::new(AllowAnyAuthenticatedClient::new(roots))
}

/// `ServerConfig::set_single_cert` of rustls: says whether the key was taken. Where it was,
/// the configuration presents the chain; where it was not, it presents what it did before.
/// Everything else stays as it is.
#[verifier::external_body]
fn server_set_single_cert(config: &mut ServerConfig, chain: Vec<Vec<u8>>, key: Vec<u8>) -> (taken: bool)
    ensures
        taken == server_key_accepted(chain.deep_view(), key@),
        taken ==> server_chain(*final(config)) == Some(chain.deep_view()),
        !taken ==> server_chain(*final(config)) == server_chain(*old(config)),
        server_asks_client_cert(*final(config)) == server_asks_client_cert(*old(config)),
        server_client_anchors(*final(config)) == server_client_anchors(*old(config)),
        server_alpn(*final(config)) == server_alpn(*old(config)),
{
    config.set_single_cert(chain.into_iter().map(Certificate).collect(), PrivateKey(key)).is_ok()
}

/// `ServerConfig::set_protocols` of rustls: the configuration advertises the one protocol
/// whose name is the UTF-8 form of `name`. Everything else stays as it is.
#[verifier::external_body]
fn server_set_protocol(config: &mut ServerConfig, name: &str)
    ensures
        server_alpn(*final(config)) == seq![encode_utf8(name@)],
        server_asks_client_cert(*final(config)) == server_asks_client_cert(*old(config)),
        server_client_anchors(*final(config)) == server_client_anchors(*old(config)),
        server_chain(*final(config)) == server_chain(*old(config)),
{
    config.set_protocols(&[Vec::from(name)])
}

/// `ClientConfig::new` of rustls: a configuration without trust anchors and without a
/// certificate chain to present.
#[verifier::external_body]
fn client_config_new() -> (config: ClientConfig)
    ensures
        client_anchors(config) == Seq::<Seq<u8>>::empty(),
        client_chain(config) is None,
{
    ClientConfig::new()
}

/// The field `root_store` of rustls' `ClientConfig`: the client trusts the anchors of `roots`
/// and no others. What it presents stays as it is.
#[verifier::external_body]
fn client_set_roots(config: &mut ClientConfig, roots: RootCertStore)
    ensures
        client_anchors(*final(config)) == store_anchors(roots),
        client_chain(*final(config)) == client_chain(*old(config)),
{
    config.root_store = roots;
}

/// `ClientConfig::set_single_client_cert` of rustls: says whether the key was taken. Where it
/// was, the configuration presents the chain; where it was not, it presents what it did
/// before. Its trust anchors stay as they are.
#[verifier::external_body]
fn client_set_single_cert(config: &mut ClientConfig, chain: Vec<Vec<u8>>, key: Vec<u8>) -> (taken: bool)
    ensures
        taken == client_key_accepted(chain.deep_view(), key@),
        taken ==> client_chain(*final(config)) == Some(chain.deep_view()),
        !taken ==> client_chain(*final(config)) == client_chain(*old(config)),
        client_anchors(*final(config)) == client_anchors(*old(config)),
{
    config.set_single_client_cert(chain.into_iter().map(Certificate).collect(), PrivateKey(key)).is_ok()
}

/// What loading the platform's trust roots gave.
pub enum NativeRoots {
    /// Every root was read.
    Complete(RootCertStore),
    /// Some roots were read, and then reading failed.
    Partial(RootCertStore),
    /// No root was read.
    Failed(std::io::Error),
}

/// `load_native_certs` of rustls-native-certs: the roots of the platform's trust store, as far
/// as they could be read. What it gives depends on the machine.
#[verifier::external_body]
fn load_native_roots() -> NativeRoots {
    match rustls_native_certs::load_native_certs() {
        Ok(store) => NativeRoots::Complete(store),
        Err((Some(store), _)) => NativeRoots::Partial(store),
        Err((None, error)) => NativeRoots::Failed(error),
    }
}

/// `DNSNameRef::try_from_ascii_str` of webpki: whether `name` is a syntactically valid DNS
/// name.
#[verifier::external_body]
fn dns_name_ok(name: &str) -> (ok: bool)
    ensures
        ok == dns_name_accepted(name@),
{
    DNSNameRef::try_from_ascii_str(name).is_ok()
}

/// The private key that a PEM text yields: its first PKCS#8 key, and where it has none, or
/// cannot be read for them, its first RSA key.
pub open spec fn first_key(pem: Seq<char>) -> Option<Seq<u8>> {
    if pem_pkcs8_keys(pem) is Some && pem_pkcs8_keys(pem)->0.len() > 0 {
        Some(pem_pkcs8_keys(pem)->0[0])
    } else if pem_rsa_keys(pem) is Some && pem_rsa_keys(pem)->0.len() > 0 {
        Some(pem_rsa_keys(pem)->0[0])
    } else {
        None
    }
}

/// What a text that may be missing stands for.
pub open spec fn text_view(text: Option<&str>) -> Option<Seq<char>> {
    match text {
        Some(t) => Some(t@),
        None => None,
    }
}

/// Reads the certificates of a PEM text. Fails with `CertificateParseError("server", "cert")`
/// where the text cannot be read as PEM.
pub fn load_certs(cert: &str) -> (r: Result<Vec<Vec<u8>>, KvError>)
    ensures
        match pem_certs(cert@) {
            Some(certs) => r matches Ok(found) && found.deep_view() == certs,
            None => r == Err::<Vec<Vec<u8>>, KvError>(KvError::CertificateParseError("server", "cert")),
        },
{
    match parse_certs(cert) {
        Ok(certs) => Ok(certs),
        Err(_) => Err(KvError::CertificateParseError("server", "cert")),
    }
}

/// Reads the private key of a PEM text: PKCS#8 first, then RSA. Fails with
/// `CertificateParseError("private", "key")` where neither yields a key.
pub fn load_key(key: &str) -> (r: Result<Vec<u8>, KvError>)
    ensures
        match first_key(key@) {
            Some(der) => r matches Ok(found) && found@ == der,
            None => r == Err::<Vec<u8>, KvError>(KvError::CertificateParseError("private", "key")),
        },
{
    if let Ok(mut keys) = parse_pkcs8_keys(key) {
        if keys.len() > 0 {
            let ghost all = keys.deep_view();
            let first = keys.remove(0);
            assert(first@ == all[0]);
            return Ok(first);
        }
    }
    if let Ok(mut keys) = parse_rsa_keys(key) {
        if keys.len() > 0 {
            let ghost all = keys.deep_view();
            let first = keys.remove(0);
            assert(first@ == all[0]);
            return Ok(first);
        }
    }
    Err(KvError::CertificateParseError("private", "key"))
}

/// Why a server's TLS material is refused, if it is: the certificate chain cannot be read;
/// else no private key is found; else the client CA bundle, where there is one, cannot be
/// read; else the key does not go with the chain.
pub open spec fn server_refusal(cert: Seq<char>, key: Seq<char>, client_ca: Option<Seq<char>>) -> Option<KvError> {
    if pem_certs(cert) is None {
        Some(KvError::CertificateParseError("server", "cert"))
    } else if first_key(key) is None {
        Some(KvError::CertificateParseError("private", "key"))
    } else if client_ca is Some && pem_certs(client_ca->0) is None {
        Some(KvError::CertificateParseError("CA", "cert"))
    } else if !server_key_accepted(pem_certs(cert)->0, first_key(key)->0) {
        Some(KvError::CertificateParseError("server", "cert"))
    } else {
        None
    }
}

/// The TLS configuration of a server.
#[derive(Clone)]
pub struct TlsServerAcceptor {
    inner: Arc<ServerConfig>,
    client_auth: bool,
}

impl TlsServerAcceptor {
    /// Whether clients must present a certificate.
    pub closed spec fn client_auth(&self) -> bool {
        self.client_auth
    }

    /// The configuration that the acceptor holds.
    pub closed spec fn server_config(&self) -> Arc<ServerConfig> {
        self.inner
    }

    /// Whether the acceptor is the one for the certificate chain of the PEM text `cert` and for
    /// the CA bundle `client_ca`: its configuration presents the chain and advertises the one
    /// protocol [`ALPN_DB_SERVER`]; with a bundle it takes only clients that present a
    /// certificate, which must chain to one of the bundle's trust anchors; without, it asks
    /// for none.
    pub open spec fn serves(&self, cert: Seq<char>, client_ca: Option<Seq<char>>) -> bool {
        &&& server_alpn(*self.server_config()) == seq![encode_utf8(ALPN_DB_SERVER@)]
        &&& server_chain(*self.server_config()) == pem_certs(cert)
        &&& server_asks_client_cert(*self.server_config()) == client_ca is Some
        &&& self.client_auth() == client_ca is Some
        &&& server_client_anchors(*self.server_config()) == match client_ca {
            Some(ca) => pem_anchors(ca),
            None => Seq::<Seq<u8>>::empty(),
        }
    }

    /// Builds the configuration from the server's certificate chain and private key, and from
    /// the CA bundle for client certificates where clients are to present one. With a bundle,
    /// only clients whose certificate chains to one of its trust anchors are taken; without,
    /// any client is. The server presents the chain and advertises the one protocol
    /// [`ALPN_DB_SERVER`].
    pub fn new(cert: &str, key: &str, client_ca: Option<&str>) -> (r: Result<Self, KvError>)
        ensures
            match server_refusal(cert@, key@, text_view(client_ca)) {
                Some(e) => r == Err::<Self, KvError>(e),
                None => r matches Ok(acceptor) && acceptor.serves(cert@, text_view(client_ca)),
            },
    {
        let certs = match load_certs(cert) {
            Ok(certs) => certs,
            Err(e) => {
                return Err(e);
            },
        };
        let key = match load_key(key) {
            Ok(key) => key,
            Err(e) => {
                return Err(e);
            },
        };
        let mut config = match client_ca {
            None => server_config_anonymous(),
            Some(ca) => {
                let mut roots = root_store_empty();
                if !root_store_add_pem(&mut roots, ca) {
                    return Err(KvError::CertificateParseError("CA", "cert"));
                }
                server_config_client_auth(roots)
            },
        };
        if !server_set_single_cert(&mut config, certs, key) {
            return Err(KvError::CertificateParseError("server", "cert"));
        }
        server_set_protocol(&mut config, ALPN_DB_SERVER);
        Ok(Self { inner: Arc::new(config), client_auth: client_ca.is_some() })
    }

    /// Whether clients must present a certificate.
    pub fn requires_client_cert(&self) -> (required: bool)
        ensures
            required == self.client_auth(),
    {
        self.client_auth
    }

    /// The configuration, to make a TLS acceptor of: the one that the acceptor was built
    /// with.
    pub fn config(&self) -> (config: &Arc<ServerConfig>)
        ensures
            *config == self.server_config(),
    {
        &self.inner
    }
}

/// What a client identity that may be missing stands for.
pub open spec fn identity_view(identity: Option<(&str, &str)>) -> Option<(Seq<char>, Seq<char>)> {
    match identity {
        Some((cert, key)) => Some((cert@, key@)),
        None => None,
    }
}

/// Why a client's identity is refused, if it is: its certificate chain cannot be read; else
/// no private key is found; else the key does not go with the chain.
pub open spec fn identity_refusal(identity: Option<(Seq<char>, Seq<char>)>) -> Option<KvError> {
    match identity {
        Some((cert, key)) => if pem_certs(cert) is None {
            Some(KvError::CertificateParseError("server", "cert"))
        } else if first_key(key) is None {
            Some(KvError::CertificateParseError("private", "key"))
        } else if !client_key_accepted(pem_certs(cert)->0, first_key(key)->0) {
            Some(KvError::CertificateParseError("client", "cert"))
        } else {
            None
        },
        None => None,
    }
}

/// The trust anchors that loading the platform's roots gave; none where no root was read.
pub open spec fn native_anchors(native: NativeRoots) -> Seq<Seq<u8>> {
    match native {
        NativeRoots::Complete(store) => store_anchors(store),
        NativeRoots::Partial(store) => store_anchors(store),
        NativeRoots::Failed(_) => Seq::empty(),
    }
}

/// The certificate chain of an identity that was read, if there is one.
pub open spec fn chain_view(identity: Option<(Vec<Vec<u8>>, Vec<u8>)>) -> Option<Seq<Seq<u8>>> {
    match identity {
        Some((chain, _)) => Some(chain.deep_view()),
        None => None,
    }
}

/// The TLS configuration of a client, and the name it expects the server to present.
#[derive(Clone)]
pub struct TlsClientConnector {
    pub config: Arc<ClientConfig>,
    pub domain: Arc<String>,
}

impl TlsClientConnector {
    /// Whether the connector's trust anchors are `native` and, behind them, those of the extra
    /// CA bundle where there is one: merged, not replaced.
    pub open spec fn trusts(&self, native: Seq<Seq<u8>>, server_ca: Option<Seq<char>>) -> bool {
        client_anchors(*self.config) == native + match server_ca {
            Some(ca) => pem_anchors(ca),
            None => Seq::<Seq<u8>>::empty(),
        }
    }

    /// Builds the configuration for a server named `domain`: with the client's certificate
    /// chain and private key where it has an identity, trusting the platform's roots and, where
    /// there is one, the extra CA bundle for the server.
    ///
    /// Fails first where the identity is refused; else with `IoError` where none of the
    /// platform's roots could be read; else with `CertificateParseError("CA", "cert")` where
    /// the extra CA bundle cannot be read.
    pub fn new(domain: &str, identity: Option<(&str, &str)>, server_ca: Option<&str>) -> (r: Result<Self, KvError>)
        ensures
            identity_refusal(identity_view(identity)) matches Some(e) ==> r == Err::<Self, KvError>(e),
            r matches Ok(connector) ==> connector.domain@ == domain@ && identity_refusal(identity_view(identity))
                is None && !(text_view(server_ca) is Some && pem_certs(text_view(server_ca)->0) is None),
            r matches Ok(connector) ==> (exists|native: Seq<Seq<u8>>|
                #![trigger connector.trusts(native, text_view(server_ca))]
                connector.trusts(native, text_view(server_ca))) && client_chain(*connector.config) == match identity_view(
                identity,
            ) {
                Some((cert, _)) => pem_certs(cert),
                None => None,
            },
            r matches Err(e) ==> identity_refusal(identity_view(identity)) == Some(e) || e is IoError || (text_view(
                server_ca,
            ) is Some && pem_certs(text_view(server_ca)->0) is None && e == KvError::CertificateParseError(
                "CA",
                "cert",
            )),
    {
        let config = match Self::identity_config(identity) {
            Ok(config) => config,
            Err(e) => {
                return Err(e);
            },
        };
        let native = load_native_roots();
        let ghost anchors = native_anchors(native);
        let r = Self::with_roots(domain, config, server_ca, native);
        proof {
            if r is Ok {
                assert(r->Ok_0.trusts(anchors, text_view(server_ca)));
            }
        }
        r
    }

    /// Reads the client's identity, if it has one. The result, where there is one, is the
    /// identity's chain and key.
    fn identity_config(identity: Option<(&str, &str)>) -> (r: Result<Option<(Vec<Vec<u8>>, Vec<u8>)>, KvError>)
        ensures
            match identity_view(identity) {
                Some((cert, key)) => if pem_certs(cert) is None {
                    r == Err::<Option<(Vec<Vec<u8>>, Vec<u8>)>, KvError>(
                        KvError::CertificateParseError("server", "cert"),
                    )
                } else if first_key(key) is None {
                    r == Err::<Option<(Vec<Vec<u8>>, Vec<u8>)>, KvError>(
                        KvError::CertificateParseError("private", "key"),
                    )
                } else {
                    r matches Ok(Some(found)) && found.0.deep_view() == pem_certs(cert)->0 && found.1@ == first_key(
                        key,
                    )->0
                },
                None => r matches Ok(None),
            },
    {
        match identity {
            Some((cert, key)) => {
                let certs = match load_certs(cert) {
                    Ok(certs) => certs,
                    Err(e) => {
                        return Err(e);
                    },
                };
                let key = match load_key(key) {
                    Ok(key) => key,
                    Err(e) => {
                        return Err(e);
                    },
                };
                Ok(Some((certs, key)))
            },
            None => Ok(None),
        }
    }

    /// Builds the configuration from an identity that was read already and from what loading
    /// the platform's roots gave. Roots that were read in part are taken as they are.
    ///
    /// Fails with `CertificateParseError("client", "cert")` where the identity's key does not
    /// go with its chain; else with `IoError` where no root was read; else with
    /// `CertificateParseError("CA", "cert")` where the extra CA bundle cannot be read.
    pub fn with_roots(
        domain: &str,
        identity: Option<(Vec<Vec<u8>>, Vec<u8>)>,
        server_ca: Option<&str>,
        native: NativeRoots,
    ) -> (r: Result<Self, KvError>)
        ensures
            match identity {
                Some((chain, key)) if !client_key_accepted(chain.deep_view(), key@) => r == Err::<Self, KvError>(
                    KvError::CertificateParseError("client", "cert"),
                ),
                _ => match native {
                    NativeRoots::Failed(e) => r matches Err(KvError::IoError(_)),
                    _ => if text_view(server_ca) is Some && pem_certs(text_view(server_ca)->0) is None {
                        r == Err::<Self, KvError>(KvError::CertificateParseError("CA", "cert"))
                    } else {
                        r matches Ok(connector) && connector.domain@ == domain@ && connector.trusts(
                            native_anchors(native),
                            text_view(server_ca),
                        ) && client_chain(*connector.config) == chain_view(identity)
                    },
                },
            },
    {
        let mut config = client_config_new();
        if let Some((chain, key)) = identity {
            if !client_set_single_cert(&mut config, chain, key) {
                return Err(KvError::CertificateParseError("client", "cert"));
            }
        }
        let mut roots = match native {
            NativeRoots::Complete(store) => store,
            NativeRoots::Partial(store) => store,
            NativeRoots::Failed(e) => {
                return Err(KvError::io(e));
            },
        };
        if let Some(ca) = server_ca {
            if !root_store_add_pem(&mut roots, ca) {
                return Err(KvError::CertificateParseError("CA", "cert"));
            }
        }
        client_set_roots(&mut config, roots);
        Ok(Self { config: Arc::new(config), domain: Arc::new(String::from_str(domain)) })
    }

    /// Checks the name that the server is expected to present. Fails with
    /// `Internal("Invalid DNS name")` where it is no syntactically valid DNS name.
    pub fn check_domain(&self) -> (r: Result<(), KvError>)
        ensures
            dns_name_accepted(self.domain@) ==> r is Ok,
            !dns_name_accepted(self.domain@) ==> (r matches Err(KvError::Internal(desc)) && desc@
                == "Invalid DNS name"@),
    {
        if dns_name_ok(self.domain.as_str()) {
            Ok(())
        } else {
            Err(KvError::Internal(String::from_str("Invalid DNS name")))
        }
    }
}

} // verus!
