//! Client configuration and its typestate builders.
//!
//! The builders make invalid configurations impossible to write: privacy
//! can only be set on a builder that has authentication.

use vstd::prelude::*;

use crate::message::SecurityLevel;
use crate::v3::auth::{localized_key_of, master_key_of, LocalizedKey};
use crate::v3::privacy::{priv_key_of, PrivKey};
use crate::v3::transform::UsmUser;
use crate::v3::{AuthProtocol, PrivProtocol};
use crate::version::Version;

verus! {

/// The default timeout of a request, in milliseconds.
pub const DEFAULT_TIMEOUT_MS: u64 = 5000;

/// The default number of retransmissions.
pub const DEFAULT_RETRIES: u32 = 3;

/// The default number of OIDs in one request.
pub const DEFAULT_MAX_OIDS: usize = 10;

/// The credentials of a v3 user.
#[derive(Debug, Clone, PartialEq, Eq)]
pub struct V3SecurityConfig {
    pub username: Vec<u8>,
    pub auth: Option<(AuthProtocol, Vec<u8>)>,
    pub privacy: Option<(PrivProtocol, Vec<u8>)>,
}

impl V3SecurityConfig {
    /// The credentials of a user without authentication or privacy.
    pub fn new(username: Vec<u8>) -> (r: V3SecurityConfig)
        ensures
            r.username == username,
            r.auth is None,
            r.privacy is None,
    {
        V3SecurityConfig { username, auth: None, privacy: None }
    }

    /// Sets the authentication protocol and password.
    pub fn auth(self, protocol: AuthProtocol, password: Vec<u8>) -> (r: V3SecurityConfig)
        ensures
            r.username == self.username,
            r.auth == Some((protocol, password)),
            r.privacy == self.privacy,
    {
        V3SecurityConfig { username: self.username, auth: Some((protocol, password)), privacy: self.privacy }
    }

    /// Sets the privacy protocol and password.
    pub fn privacy(self, protocol: PrivProtocol, password: Vec<u8>) -> (r: V3SecurityConfig)
        ensures
            r.username == self.username,
            r.auth == self.auth,
            r.privacy == Some((protocol, password)),
    {
        V3SecurityConfig { username: self.username, auth: self.auth, privacy: Some((protocol, password)) }
    }

    /// The user at one engine: the name, and the keys that the passwords
    /// give at the engine. Without authentication there is no key at all.
    pub fn localize(&self, engine_id: &[u8]) -> (r: UsmUser)
        ensures
            r.user_name@ == self.username@,
            match self.auth {
                None => r.auth_key is None && r.priv_key is None,
                Some(auth) => (r.auth_key matches Some(key) && key.protocol() == auth.0
                    && key.octets() == localized_key_of(
                    auth.0,
                    master_key_of(auth.0, auth.1@),
                    engine_id@,
                )) && (match self.privacy {
                    None => r.priv_key is None,
                    Some(privacy) => r.priv_key matches Some(key) && key.wf() && key.protocol()
                        == privacy.0 && key.octets() == priv_key_of(
                        auth.0,
                        privacy.0,
                        privacy.1@,
                        engine_id@,
                    ),
                }),
            },
    {
        let user_name = self.username.clone();
        match &self.auth {
            None => UsmUser { user_name, auth_key: None, priv_key: None },
            Some((protocol, password)) => {
                let auth_key = LocalizedKey::from_password(*protocol, password.as_slice(), engine_id);
                let priv_key = match &self.privacy {
                    None => None,
                    Some((cipher, secret)) => Some(
                        PrivKey::from_password(*protocol, *cipher, secret.as_slice(), engine_id),
                    ),
                };
                UsmUser { user_name, auth_key: Some(auth_key), priv_key }
            },
        }
    }

    /// The level at which the user sends: privacy counts only with
    /// authentication.
    pub fn security_level(&self) -> (r: SecurityLevel)
        ensures
            r == (if self.auth is None {
                SecurityLevel::NoAuthNoPriv
            } else if self.privacy is None {
                SecurityLevel::AuthNoPriv
            } else {
                SecurityLevel::AuthPriv
            }),
    {
        if self.auth.is_none() {
            SecurityLevel::NoAuthNoPriv
        } else if self.privacy.is_none() {
            SecurityLevel::AuthNoPriv
        } else {
            SecurityLevel::AuthPriv
        }
    }
}

/// The configuration of a client.
#[derive(Debug, Clone, PartialEq, Eq)]
pub struct ClientConfig {
    pub version: Version,
    pub community: Vec<u8>,
    /// The time to wait for a reply to one attempt, in milliseconds.
    pub timeout_ms: u64,
    /// The number of retransmissions on a datagram transport.
    pub retries: u32,
    pub max_oids_per_request: usize,
    pub v3_security: Option<V3SecurityConfig>,
}

impl Default for ClientConfig {
    fn default() -> (r: ClientConfig)
        ensures
            r.version == Version::V2c,
            r.community@ == seq![112u8, 117, 98, 108, 105, 99],
            r.timeout_ms == DEFAULT_TIMEOUT_MS,
            r.retries == DEFAULT_RETRIES,
            r.max_oids_per_request == DEFAULT_MAX_OIDS,
            r.v3_security is None,
    {
        ClientConfig {
            version: Version::V2c,
            community: public_community(),
            timeout_ms: DEFAULT_TIMEOUT_MS,
            retries: DEFAULT_RETRIES,
            max_oids_per_request: DEFAULT_MAX_OIDS,
            v3_security: None,
        }
    }
}

/// The community `public`.
pub fn public_community() -> (r: Vec<u8>)
    ensures
        r@ == seq![112u8, 117, 98, 108, 105, 99],
{
    let mut c: Vec<u8> = Vec::with_capacity(6);
    c.push(112);
    c.push(117);
    c.push(98);
    c.push(108);
    c.push(105);
    c.push(99);
    proof {
        assert(c@ =~= seq![112u8, 117, 98, 108, 105, 99]);
    }
    c
}

/// A client: a transport and a configuration.
#[derive(Debug)]
pub struct Client<T> {
    pub transport: T,
    pub config: ClientConfig,
}

impl<T> Client<T> {
    /// A client over a transport.
    pub fn new(transport: T, config: ClientConfig) -> (r: Client<T>)
        ensures
            r.transport == transport,
            r.config == config,
    {
        Client { transport, config }
    }
}

impl Client<()> {
    /// A builder for an SNMPv1 client with the community `public`.
    pub fn v1(target: &str) -> (r: V1ClientBuilder)
        ensures
            r.base() == BaseConfig::spec_new(target@),
            r.community_view() == seq![112u8, 117, 98, 108, 105, 99],
    {
        V1ClientBuilder::new(target)
    }

    /// A builder for an SNMPv2c client with the community `public`.
    pub fn v2c(target: &str) -> (r: V2cClientBuilder)
        ensures
            r.base() == BaseConfig::spec_new(target@),
            r.community_view() == seq![112u8, 117, 98, 108, 105, 99],
    {
        V2cClientBuilder::new(target)
    }

    /// A builder for an SNMPv3 client without authentication or privacy.
    pub fn v3(target: &str, username: &[u8]) -> (r: V3ClientBuilder)
        ensures
            r.base() == BaseConfig::spec_new(target@),
            r.username_view() == username@,
    {
        V3ClientBuilder::new(target, username)
    }
}

/// Common configuration shared by all builder types.
pub struct BaseConfig {
    target: String,
    timeout_ms: u64,
    retries: u32,
    max_oids_per_request: usize,
}

/// What a base configuration is.
pub struct BaseView {
    pub target: Seq<char>,
    pub timeout_ms: u64,
    pub retries: u32,
    pub max_oids_per_request: usize,
}

impl BaseConfig {
    /// The base configuration for a target, with the default settings.
    pub open spec fn spec_new(target: Seq<char>) -> BaseView {
        BaseView {
            target,
            timeout_ms: DEFAULT_TIMEOUT_MS,
            retries: DEFAULT_RETRIES,
            max_oids_per_request: DEFAULT_MAX_OIDS,
        }
    }

    /// What the configuration is.
    pub closed spec fn view(self) -> BaseView {
        BaseView {
            target: self.target@,
            timeout_ms: self.timeout_ms,
            retries: self.retries,
            max_oids_per_request: self.max_oids_per_request,
        }
    }

    /// The base configuration for a target.
    pub fn new(target: &str) -> (r: BaseConfig)
        ensures
            r.view() == BaseConfig::spec_new(target@),
    {
        BaseConfig {
            target: String::from_str(target),
            timeout_ms: DEFAULT_TIMEOUT_MS,
            retries: DEFAULT_RETRIES,
            max_oids_per_request: DEFAULT_MAX_OIDS,
        }
    }

    /// The target, as it was given.
    pub fn target(&self) -> (r: &str)
        ensures
            r@ == self.view().target,
    {
        self.target.as_str()
    }

    fn with_timeout(self, timeout_ms: u64) -> (r: BaseConfig)
        ensures
            r.view() == (BaseView { timeout_ms, ..self.view() }),
    {
        BaseConfig { timeout_ms, ..self }
    }

    fn with_retries(self, retries: u32) -> (r: BaseConfig)
        ensures
            r.view() == (BaseView { retries, ..self.view() }),
    {
        BaseConfig { retries, ..self }
    }

    fn with_max_oids(self, max: usize) -> (r: BaseConfig)
        ensures
            r.view() == (BaseView { max_oids_per_request: max, ..self.view() }),
    {
        BaseConfig { max_oids_per_request: max, ..self }
    }

    /// The configuration of a client with these settings.
    fn config(&self, version: Version, community: Vec<u8>, security: Option<V3SecurityConfig>) -> (r:
        ClientConfig)
        ensures
            r == (ClientConfig {
                version,
                community,
                timeout_ms: self.view().timeout_ms,
                retries: self.view().retries,
                max_oids_per_request: self.view().max_oids_per_request,
                v3_security: security,
            }),
    {
        ClientConfig {
            version,
            community,
            timeout_ms: self.timeout_ms,
            retries: self.retries,
            max_oids_per_request: self.max_oids_per_request,
            v3_security: security,
        }
    }
}

/// Builder for SNMPv1 clients.
pub struct V1ClientBuilder {
    base: BaseConfig,
    community: Vec<u8>,
}

impl V1ClientBuilder {
    /// The common settings.
    pub closed spec fn base(self) -> BaseView {
        self.base.view()
    }

    /// The community.
    pub closed spec fn community_view(self) -> Seq<u8> {
        self.community@
    }

    /// A builder for a target, with the community `public`.
    pub fn new(target: &str) -> (r: V1ClientBuilder)
        ensures
            r.base() == BaseConfig::spec_new(target@),
            r.community_view() == seq![112u8, 117, 98, 108, 105, 99],
    {
        V1ClientBuilder { base: BaseConfig::new(target), community: public_community() }
    }

    /// Set the community string.
    pub fn community(self, community: &[u8]) -> (r: V1ClientBuilder)
        ensures
            r.base() == self.base(),
            r.community_view() == community@,
    {
        V1ClientBuilder { base: self.base, community: vstd::slice::slice_to_vec(community) }
    }

    /// Set the request timeout, in milliseconds.
    pub fn timeout(self, timeout_ms: u64) -> (r: V1ClientBuilder)
        ensures
            r.base() == (BaseView { timeout_ms, ..self.base() }),
            r.community_view() == self.community_view(),
    {
        V1ClientBuilder { base: self.base.with_timeout(timeout_ms), community: self.community }
    }

    /// Set the number of retries (for UDP transport).
    pub fn retries(self, retries: u32) -> (r: V1ClientBuilder)
        ensures
            r.base() == (BaseView { retries, ..self.base() }),
            r.community_view() == self.community_view(),
    {
        V1ClientBuilder { base: self.base.with_retries(retries), community: self.community }
    }

    /// Set the maximum OIDs per request.
    pub fn max_oids_per_request(self, max: usize) -> (r: V1ClientBuilder)
        ensures
            r.base() == (BaseView { max_oids_per_request: max, ..self.base() }),
            r.community_view() == self.community_view(),
    {
        V1ClientBuilder { base: self.base.with_max_oids(max), community: self.community }
    }

    /// The target, as it was given.
    pub fn target(&self) -> (r: &str)
        ensures
            r@ == self.base().target,
    {
        self.base.target()
    }

    /// Build client with a pre-supplied transport.
    pub fn build<T>(self, transport: T) -> (r: Client<T>)
        ensures
            r.transport == transport,
            r.config.version == Version::V1,
            r.config.community@ == self.community_view(),
            r.config.timeout_ms == self.base().timeout_ms,
            r.config.retries == self.base().retries,
            r.config.max_oids_per_request == self.base().max_oids_per_request,
            r.config.v3_security is None,
    {
        let config = self.base.config(Version::V1, self.community, None);
        Client::new(transport, config)
    }
}

/// Builder for SNMPv2c clients.
pub struct V2cClientBuilder {
    base: BaseConfig,
    community: Vec<u8>,
}

impl V2cClientBuilder {
    /// The common settings.
    pub closed spec fn base(self) -> BaseView {
        self.base.view()
    }

    /// The community.
    pub closed spec fn community_view(self) -> Seq<u8> {
        self.community@
    }

    /// A builder for a target, with the community `public`.
    pub fn new(target: &str) -> (r: V2cClientBuilder)
        ensures
            r.base() == BaseConfig::spec_new(target@),
            r.community_view() == seq![112u8, 117, 98, 108, 105, 99],
    {
        V2cClientBuilder { base: BaseConfig::new(target), community: public_community() }
    }

    /// Set the community string.
    pub fn community(self, community: &[u8]) -> (r: V2cClientBuilder)
        ensures
            r.base() == self.base(),
            r.community_view() == community@,
    {
        V2cClientBuilder { base: self.base, community: vstd::slice::slice_to_vec(community) }
    }

    /// Set the request timeout, in milliseconds.
    pub fn timeout(self, timeout_ms: u64) -> (r: V2cClientBuilder)
        ensures
            r.base() == (BaseView { timeout_ms, ..self.base() }),
            r.community_view() == self.community_view(),
    {
        V2cClientBuilder { base: self.base.with_timeout(timeout_ms), community: self.community }
    }

    /// Set the number of retries (for UDP transport).
    pub fn retries(self, retries: u32) -> (r: V2cClientBuilder)
        ensures
            r.base() == (BaseView { retries, ..self.base() }),
            r.community_view() == self.community_view(),
    {
        V2cClientBuilder { base: self.base.with_retries(retries), community: self.community }
    }

    /// Set the maximum OIDs per request.
    pub fn max_oids_per_request(self, max: usize) -> (r: V2cClientBuilder)
        ensures
            r.base() == (BaseView { max_oids_per_request: max, ..self.base() }),
            r.community_view() == self.community_view(),
    {
        V2cClientBuilder { base: self.base.with_max_oids(max), community: self.community }
    }

    /// The target, as it was given.
    pub fn target(&self) -> (r: &str)
        ensures
            r@ == self.base().target,
    {
        self.base.target()
    }

    /// Build client with a pre-supplied transport.
    pub fn build<T>(self, transport: T) -> (r: Client<T>)
        ensures
            r.transport == transport,
            r.config.version == Version::V2c,
            r.config.community@ == self.community_view(),
            r.config.timeout_ms == self.base().timeout_ms,
            r.config.retries == self.base().retries,
            r.config.max_oids_per_request == self.base().max_oids_per_request,
            r.config.v3_security is None,
    {
        let config = self.base.config(Version::V2c, self.community, None);
        Client::new(transport, config)
    }
}

/// Builder for SNMPv3 clients without authentication.
pub struct V3ClientBuilder {
    base: BaseConfig,
    username: Vec<u8>,
}

impl V3ClientBuilder {
    /// The common settings.
    pub closed spec fn base(self) -> BaseView {
        self.base.view()
    }

    /// The name of the user.
    pub closed spec fn username_view(self) -> Seq<u8> {
        self.username@
    }

    /// A builder for a target and a user.
    pub fn new(target: &str, username: &[u8]) -> (r: V3ClientBuilder)
        ensures
            r.base() == BaseConfig::spec_new(target@),
            r.username_view() == username@,
    {
        V3ClientBuilder { base: BaseConfig::new(target), username: vstd::slice::slice_to_vec(username) }
    }

    /// Set the authentication protocol and password.
    pub fn auth(self, protocol: AuthProtocol, password: Vec<u8>) -> (r: V3AuthClientBuilder)
        ensures
            r.base() == self.base(),
            r.username_view() == self.username_view(),
            r.auth_view() == (protocol, password@),
    {
        V3AuthClientBuilder {
            base: self.base,
            username: self.username,
            auth_protocol: protocol,
            auth_password: password,
        }
    }

    /// Set the request timeout, in milliseconds.
    pub fn timeout(self, timeout_ms: u64) -> (r: V3ClientBuilder)
        ensures
            r.base() == (BaseView { timeout_ms, ..self.base() }),
            r.username_view() == self.username_view(),
    {
        V3ClientBuilder { base: self.base.with_timeout(timeout_ms), username: self.username }
    }

    /// Set the number of retries (for UDP transport).
    pub fn retries(self, retries: u32) -> (r: V3ClientBuilder)
        ensures
            r.base() == (BaseView { retries, ..self.base() }),
            r.username_view() == self.username_view(),
    {
        V3ClientBuilder { base: self.base.with_retries(retries), username: self.username }
    }

    /// Set the maximum OIDs per request.
    pub fn max_oids_per_request(self, max: usize) -> (r: V3ClientBuilder)
        ensures
            r.base() == (BaseView { max_oids_per_request: max, ..self.base() }),
            r.username_view() == self.username_view(),
    {
        V3ClientBuilder { base: self.base.with_max_oids(max), username: self.username }
    }

    /// The target, as it was given.
    pub fn target(&self) -> (r: &str)
        ensures
            r@ == self.base().target,
    {
        self.base.target()
    }

    /// Build client with a pre-supplied transport.
    pub fn build<T>(self, transport: T) -> (r: Client<T>)
        ensures
            r.transport == transport,
            r.config.version == Version::V3,
            r.config.community@.len() == 0,
            r.config.timeout_ms == self.base().timeout_ms,
            r.config.retries == self.base().retries,
            r.config.max_oids_per_request == self.base().max_oids_per_request,
            r.config.v3_security matches Some(s) && s.username@ == self.username_view() && s.auth is None
                && s.privacy is None,
    {
        let security = V3SecurityConfig::new(self.username);
        let config = self.base.config(Version::V3, Vec::new(), Some(security));
        Client::new(transport, config)
    }
}

/// Builder for SNMPv3 clients with authentication.
pub struct V3AuthClientBuilder {
    base: BaseConfig,
    username: Vec<u8>,
    auth_protocol: AuthProtocol,
    auth_password: Vec<u8>,
}

impl V3AuthClientBuilder {
    /// The common settings.
    pub closed spec fn base(self) -> BaseView {
        self.base.view()
    }

    /// The name of the user.
    pub closed spec fn username_view(self) -> Seq<u8> {
        self.username@
    }

    /// The authentication protocol and password.
    pub closed spec fn auth_view(self) -> (AuthProtocol, Seq<u8>) {
        (self.auth_protocol, self.auth_password@)
    }

    /// Set the privacy protocol and password.
    pub fn privacy(self, protocol: PrivProtocol, password: Vec<u8>) -> (r: V3AuthPrivClientBuilder)
        ensures
            r.base() == self.base(),
            r.username_view() == self.username_view(),
            r.auth_view() == self.auth_view(),
            r.priv_view() == (protocol, password@),
    {
        V3AuthPrivClientBuilder {
            base: self.base,
            username: self.username,
            auth_protocol: self.auth_protocol,
            auth_password: self.auth_password,
            priv_protocol: protocol,
            priv_password: password,
        }
    }

    /// Set the request timeout, in milliseconds.
    pub fn timeout(self, timeout_ms: u64) -> (r: V3AuthClientBuilder)
        ensures
            r.base() == (BaseView { timeout_ms, ..self.base() }),
            r.username_view() == self.username_view(),
            r.auth_view() == self.auth_view(),
    {
        V3AuthClientBuilder { base: self.base.with_timeout(timeout_ms), ..self }
    }

    /// Set the number of retries (for UDP transport).
    pub fn retries(self, retries: u32) -> (r: V3AuthClientBuilder)
        ensures
            r.base() == (BaseView { retries, ..self.base() }),
            r.username_view() == self.username_view(),
            r.auth_view() == self.auth_view(),
    {
        V3AuthClientBuilder { base: self.base.with_retries(retries), ..self }
    }

    /// Set the maximum OIDs per request.
    pub fn max_oids_per_request(self, max: usize) -> (r: V3AuthClientBuilder)
        ensures
            r.base() == (BaseView { max_oids_per_request: max, ..self.base() }),
            r.username_view() == self.username_view(),
            r.auth_view() == self.auth_view(),
    {
        V3AuthClientBuilder { base: self.base.with_max_oids(max), ..self }
    }

    /// The target, as it was given.
    pub fn target(&self) -> (r: &str)
        ensures
            r@ == self.base().target,
    {
        self.base.target()
    }

    /// Build client with a pre-supplied transport.
    pub fn build<T>(self, transport: T) -> (r: Client<T>)
        ensures
            r.transport == transport,
            r.config.version == Version::V3,
            r.config.community@.len() == 0,
            r.config.timeout_ms == self.base().timeout_ms,
            r.config.retries == self.base().retries,
            r.config.max_oids_per_request == self.base().max_oids_per_request,
            r.config.v3_security matches Some(s) && s.username@ == self.username_view() && (
            s.auth matches Some(a) && a.0 == self.auth_view().0 && a.1@ == self.auth_view().1)
                && s.privacy is None,
    {
        let security = V3SecurityConfig::new(self.username).auth(
            self.auth_protocol,
            self.auth_password,
        );
        let config = self.base.config(Version::V3, Vec::new(), Some(security));
        Client::new(transport, config)
    }
}

/// Builder for SNMPv3 clients with authentication and privacy.
pub struct V3AuthPrivClientBuilder {
    base: BaseConfig,
    username: Vec<u8>,
    auth_protocol: AuthProtocol,
    auth_password: Vec<u8>,
    priv_protocol: PrivProtocol,
    priv_password: Vec<u8>,
}

impl V3AuthPrivClientBuilder {
    /// The common settings.
    pub closed spec fn base(self) -> BaseView {
        self.base.view()
    }

    /// The name of the user.
    pub closed spec fn username_view(self) -> Seq<u8> {
        self.username@
    }

    /// The authentication protocol and password.
    pub closed spec fn auth_view(self) -> (AuthProtocol, Seq<u8>) {
        (self.auth_protocol, self.auth_password@)
    }

    /// The privacy protocol and password.
    pub closed spec fn priv_view(self) -> (PrivProtocol, Seq<u8>) {
        (self.priv_protocol, self.priv_password@)
    }

    /// Set the request timeout, in milliseconds.
    pub fn timeout(self, timeout_ms: u64) -> (r: V3AuthPrivClientBuilder)
        ensures
            r.base() == (BaseView { timeout_ms, ..self.base() }),
            r.username_view() == self.username_view(),
            r.auth_view() == self.auth_view(),
            r.priv_view() == self.priv_view(),
    {
        V3AuthPrivClientBuilder { base: self.base.with_timeout(timeout_ms), ..self }
    }

    /// Set the number of retries (for UDP transport).
    pub fn retries(self, retries: u32) -> (r: V3AuthPrivClientBuilder)
        ensures
            r.base() == (BaseView { retries, ..self.base() }),
            r.username_view() == self.username_view(),
            r.auth_view() == self.auth_view(),
            r.priv_view() == self.priv_view(),
    {
        V3AuthPrivClientBuilder { base: self.base.with_retries(retries), ..self }
    }

    /// Set the maximum OIDs per request.
    pub fn max_oids_per_request(self, max: usize) -> (r: V3AuthPrivClientBuilder)
        ensures
            r.base() == (BaseView { max_oids_per_request: max, ..self.base() }),
            r.username_view() == self.username_view(),
            r.auth_view() == self.auth_view(),
            r.priv_view() == self.priv_view(),
    {
        V3AuthPrivClientBuilder { base: self.base.with_max_oids(max), ..self }
    }

    /// The target, as it was given.
    pub fn target(&self) -> (r: &str)
        ensures
            r@ == self.base().target,
    {
        self.base.target()
    }

    /// Build client with a pre-supplied transport.
    pub fn build<T>(self, transport: T) -> (r: Client<T>)
        ensures
            r.transport == transport,
            r.config.version == Version::V3,
            r.config.community@.len() == 0,
            r.config.timeout_ms == self.base().timeout_ms,
            r.config.retries == self.base().retries,
            r.config.max_oids_per_request == self.base().max_oids_per_request,
            r.config.v3_security matches Some(s) && s.username@ == self.username_view() && (
            s.auth matches Some(a) && a.0 == self.auth_view().0 && a.1@ == self.auth_view().1) && (
            s.privacy matches Some(p) && p.0 == self.priv_view().0 && p.1@ == self.priv_view().1),
    {
        let security = V3SecurityConfig::new(self.username).auth(
            self.auth_protocol,
            self.auth_password,
        ).privacy(self.priv_protocol, self.priv_password);
        let config = self.base.config(Version::V3, Vec::new(), Some(security));
        Client::new(transport, config)
    }
}

} // verus!
