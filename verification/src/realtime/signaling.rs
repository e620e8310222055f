//! Signaling of the streaming service: errors, client and session
//! descriptions, token checking, the signaling channel's messages, and the
//! clock and id sources that sessions are stamped with.
use vstd::prelude::*;
use crate::text::{find_char, find_char_in, str_eq, owned, lemma_find_char};
use crate::realtime::config::{IceServerConfig, SupportedClients, browser_supported, mobile_supported};

verus! {

/// `std::time::Instant`, carried as an opaque value.
#[verifier::external_type_specification]
#[verifier::external_body]
pub struct ExInstant(std::time::Instant);

/// `Instant` is `Copy`: its `clone` returns the same point in time.
pub assume_specification[ <std::time::Instant as Clone>::clone ](i: &std::time::Instant) -> (r: std::time::Instant)
    ensures
        r == *i,
;

/// `Instant::now()`: the current time of the monotonic clock.
#[verifier::external_body]
pub(crate) fn instant_now() -> std::time::Instant {
    std::time::Instant::now()
}

/// `Instant::checked_add`: `at` plus `secs` seconds, none when the clock cannot represent it.
#[verifier::external_body]
fn instant_after_secs(at: std::time::Instant, secs: u64) -> Option<std::time::Instant> {
    at.checked_add(std::time::Duration::from_secs(secs))
}

/// `Instant::elapsed`: nanoseconds that passed on the monotonic clock since `epoch`.
#[verifier::external_body]
pub(crate) fn nanos_since(epoch: &std::time::Instant) -> u128 {
    epoch.elapsed().as_nanos()
}

/// `Uuid::new_v4` in its hyphenated text form (36 characters).
#[verifier::external_body]
pub(crate) fn new_session_id() -> (id: String)
    ensures
        id@.len() == 36,
{
    uuid::Uuid::new_v4().to_string()
}

// =============================================================================
// Errors
// =============================================================================

/// Why a signaling request was refused.
#[derive(Debug, Clone, PartialEq, Eq)]
pub enum SignalingError {
    Authentication { reason: String },
    ClientNotSupported { reason: String },
    ResourceLimitExceeded,
    SessionNotFound { session_id: String },
    Internal { message: String },
}

impl SignalingError {
    pub fn authentication(reason: &str) -> (e: Self)
        ensures
            e matches SignalingError::Authentication { reason: r } && r@ == reason@,
    {
        SignalingError::Authentication { reason: owned(reason) }
    }

    pub fn client_not_supported(reason: &str) -> (e: Self)
        ensures
            e matches SignalingError::ClientNotSupported { reason: r } && r@ == reason@,
    {
        SignalingError::ClientNotSupported { reason: owned(reason) }
    }

    pub fn internal(message: &str) -> (e: Self)
        ensures
            e matches SignalingError::Internal { message: m } && m@ == message@,
    {
        SignalingError::Internal { message: owned(message) }
    }
}

// =============================================================================
// Clients and sessions
// =============================================================================

/// Kind of client application.
#[derive(Debug, Clone, Copy, PartialEq, Eq, Structural)]
pub enum ClientType {
    Browser,
    Mobile,
}

/// Identification of a client: a browser or mobile system name and its version.
#[derive(Debug, Clone, PartialEq, Eq)]
pub struct ClientMetadata {
    pub client_type: ClientType,
    pub name: String,
    pub version: String,
}

impl ClientMetadata {
    pub fn browser(name: &str, version: &str) -> (c: Self)
        ensures
            c.client_type == ClientType::Browser,
            c.name@ == name@,
            c.version@ == version@,
    {
        ClientMetadata { client_type: ClientType::Browser, name: owned(name), version: owned(version) }
    }

    pub fn mobile(os: &str, version: &str) -> (c: Self)
        ensures
            c.client_type == ClientType::Mobile,
            c.name@ == os@,
            c.version@ == version@,
    {
        ClientMetadata { client_type: ClientType::Mobile, name: owned(os), version: owned(version) }
    }

    fn duplicate(&self) -> (c: Self)
        ensures
            c.client_type == self.client_type,
            c.name@ == self.name@,
            c.version@ == self.version@,
    {
        ClientMetadata {
            client_type: self.client_type,
            name: owned(self.name.as_str()),
            version: owned(self.version.as_str()),
        }
    }
}

/// Whether the service accepts a client: a browser or mobile system listed
/// with a minimum version its version meets.
pub open spec fn client_supported(clients: SupportedClients, client: ClientMetadata) -> bool {
    match client.client_type {
        ClientType::Browser => browser_supported(clients.browsers@, client.name@, client.version@),
        ClientType::Mobile => mobile_supported(clients.mobile@, client.name@, client.version@),
    }
}

impl SupportedClients {
    /// Whether a client may open a session.
    pub fn is_client_supported(&self, client: &ClientMetadata) -> (b: bool)
        ensures
            b == client_supported(*self, *client),
    {
        match client.client_type {
            ClientType::Browser => self.is_browser_supported(client.name.as_str(), client.version.as_str()),
            ClientType::Mobile => self.is_mobile_supported(client.name.as_str(), client.version.as_str()),
        }
    }
}

/// A request to open a session.
#[derive(Debug, Clone, PartialEq, Eq)]
pub struct SessionRequest {
    pub client: ClientMetadata,
    pub auth_token: String,
    pub retry: bool,
}

/// An ICE server as offered to clients.
#[derive(Debug, Clone, PartialEq, Eq)]
pub struct IceServer {
    pub urls: Vec<String>,
    pub username: Option<String>,
    pub credential: Option<String>,
}

/// A configured credential, absent when empty.
pub open spec fn nonempty_text(o: Option<String>) -> Option<Seq<char>> {
    match o {
        Some(s) => if s@.len() > 0 {
            Some(s@)
        } else {
            None
        },
        None => None,
    }
}

/// The view of an optional text.
pub open spec fn text_view(o: Option<String>) -> Option<Seq<char>> {
    match o {
        Some(s) => Some(s@),
        None => None,
    }
}

fn nonempty_copy(o: &Option<String>) -> (r: Option<String>)
    ensures
        text_view(r) == nonempty_text(*o),
{
    match o {
        Some(s) => if s.as_str().unicode_len() > 0 {
            Some(owned(s.as_str()))
        } else {
            None
        },
        None => None,
    }
}

impl IceServer {
    /// The offered form of a configured ICE server: same URLs, empty user name
    /// and credential dropped.
    pub fn from_config(value: &IceServerConfig) -> (s: Self)
        ensures
            s.urls@.len() == value.urls@.len(),
            forall|i: int| 0 <= i < s.urls@.len() ==> (#[trigger] s.urls@[i])@ == value.urls@[i]@,
            text_view(s.username) == nonempty_text(value.username),
            text_view(s.credential) == nonempty_text(value.credential),
    {
        let mut urls: Vec<String> = Vec::new();
        let mut i: usize = 0;
        while i < value.urls.len()
            invariant
                i <= value.urls@.len(),
                urls@.len() == i,
                forall|k: int| 0 <= k < i ==> (#[trigger] urls@[k])@ == value.urls@[k]@,
            decreases value.urls.len() - i,
        {
            urls.push(owned(value.urls[i].as_str()));
            i = i + 1;
        }
        IceServer {
            urls,
            username: nonempty_copy(&value.username),
            credential: nonempty_copy(&value.credential),
        }
    }

    pub(crate) fn duplicate(&self) -> (s: Self)
        ensures
            s.urls@.len() == self.urls@.len(),
            forall|i: int| 0 <= i < s.urls@.len() ==> (#[trigger] s.urls@[i])@ == self.urls@[i]@,
            text_view(s.username) == text_view(self.username),
            text_view(s.credential) == text_view(self.credential),
    {
        let mut urls: Vec<String> = Vec::new();
        let mut i: usize = 0;
        while i < self.urls.len()
            invariant
                i <= self.urls@.len(),
                urls@.len() == i,
                forall|k: int| 0 <= k < i ==> (#[trigger] urls@[k])@ == self.urls@[k]@,
            decreases self.urls.len() - i,
        {
            urls.push(owned(self.urls[i].as_str()));
            i = i + 1;
        }
        let username = match &self.username {
            Some(u) => Some(owned(u.as_str())),
            None => None,
        };
        let credential = match &self.credential {
            Some(c) => Some(owned(c.as_str())),
            None => None,
        };
        IceServer { urls, username, credential }
    }
}

/// The answer to an admitted session request.
#[derive(Debug, Clone, PartialEq, Eq)]
pub struct SessionResponse {
    pub session_id: String,
    pub ice_servers: Vec<IceServer>,
    pub max_bitrate_kbps: u32,
}

/// An admitted session: its id, client, owner and creation time.
#[derive(Debug, Clone)]
pub struct SessionHandle {
    pub id: String,
    pub client: ClientMetadata,
    pub owner: String,
    pub created_at: std::time::Instant,
}

impl SessionHandle {
    /// A handle created now.
    pub fn new(id: String, client: ClientMetadata, owner: String) -> (h: Self)
        ensures
            h.id == id,
            h.client == client,
            h.owner == owner,
    {
        SessionHandle { id, client, owner, created_at: instant_now() }
    }

    pub(crate) fn duplicate(&self) -> (h: Self)
        ensures
            h.id@ == self.id@,
            h.client.client_type == self.client.client_type,
            h.client.name@ == self.client.name@,
            h.client.version@ == self.client.version@,
            h.owner@ == self.owner@,
            h.created_at == self.created_at,
    {
        SessionHandle {
            id: owned(self.id.as_str()),
            client: self.client.duplicate(),
            owner: owned(self.owner.as_str()),
            created_at: self.created_at,
        }
    }
}

// =============================================================================
// Tokens
// =============================================================================

/// What a validated token says: who the subject is and for which audience.
#[derive(Debug, Clone, PartialEq, Eq)]
pub struct TokenClaims {
    pub subject: String,
    pub audience: String,
    pub expires_at: Option<std::time::Instant>,
}

/// The check of a token of the form `<audience>:<subject>` against the expected
/// audience: the audience and subject, or the reason for refusing it.
pub open spec fn token_check(token: Seq<char>, expected_audience: Seq<char>) -> Result<
    (Seq<char>, Seq<char>),
    Seq<char>,
> {
    let c = find_char(token, ':');
    if token.len() == 0 {
        Err("empty token"@)
    } else if c >= token.len() {
        Err("missing subject"@)
    } else if token.subrange(0, c as int) != expected_audience {
        Err("audience mismatch"@)
    } else {
        Ok((token.subrange(0, c as int), token.subrange(c as int + 1, token.len() as int)))
    }
}

/// A validator that trusts tokens of the form `<audience>:<subject>`.
#[derive(Debug, Clone, Default)]
pub struct NoopTokenValidator;

/// How long the claims of a validated token stay valid, in seconds.
pub const TOKEN_LIFETIME_SECS: u64 = 3600;

/// Checks a bearer token presented with a session request.
pub trait TokenValidator {
    /// The claims of `token` when it is valid for `expected_audience`.
    fn validate(&self, token: &str, expected_audience: &str) -> Result<TokenClaims, SignalingError>;
}

impl TokenValidator for NoopTokenValidator {
    /// Validates `token` for `expected_audience`; the claims expire an hour from now.
    fn validate(&self, token: &str, expected_audience: &str) -> (r: Result<
        TokenClaims,
        SignalingError,
    >)
        ensures
            r is Ok <==> token_check(token@, expected_audience@) is Ok,
            r matches Ok(claims) ==> token_check(token@, expected_audience@) == Ok::<
                (Seq<char>, Seq<char>),
                Seq<char>,
            >((claims.audience@, claims.subject@)),
            r matches Err(e) ==> e matches SignalingError::Authentication { reason }
                && token_check(token@, expected_audience@) == Err::<(Seq<char>, Seq<char>), Seq<char>>(
                reason@,
            ),
    {
        proof {
            reveal_strlit("empty token");
            reveal_strlit("missing subject");
            reveal_strlit("audience mismatch");
        }
        let n = token.unicode_len();
        if n == 0 {
            return Err(SignalingError::authentication("empty token"));
        }
        let c = find_char_in(token, ':', 0, n);
        proof {
            assert(token@.subrange(0, n as int) =~= token@);
        }
        if c >= n {
            return Err(SignalingError::authentication("missing subject"));
        }
        let audience = token.substring_char(0, c);
        let subject = token.substring_char(c + 1, n);
        if !str_eq(audience, expected_audience) {
            return Err(SignalingError::authentication("audience mismatch"));
        }
        Ok(
            TokenClaims {
                subject: owned(subject),
                audience: owned(audience),
                expires_at: instant_after_secs(instant_now(), TOKEN_LIFETIME_SECS),
            },
        )
    }
}

// =============================================================================
// Signaling messages
// =============================================================================

/// A message of the signaling channel.
#[derive(Debug, Clone, PartialEq, Eq)]
pub enum SignalingMessage {
    /// The client's SDP offer.
    Offer { session_id: String, sdp: String },
    /// The server's SDP answer.
    Answer { session_id: String, sdp: String },
    /// A trickled ICE candidate.
    IceCandidate { session_id: String, candidate: String },
    /// A failure reported to the peer.
    Error { message: String },
}

/// A token made of an audience without `:`, a `:` and any subject is valid for
/// that audience and yields exactly that audience and subject.
pub proof fn law_token_yields_its_parts(audience: Seq<char>, subject: Seq<char>)
    requires
        !audience.contains(':'),
    ensures
        token_check(audience + seq![':'] + subject, audience) == Ok::<(Seq<char>, Seq<char>), Seq<char>>(
            (audience, subject),
        ),
{
    let token = audience + seq![':'] + subject;
    assert forall|j: int| 0 <= j < audience.len() implies token[j] != ':' by {
        assert(token[j] == audience[j]);
        if audience[j] == ':' {
            assert(audience.contains(':'));
        }
    }
    lemma_find_char(token, ':', audience.len() as int);
    assert(token.subrange(0, audience.len() as int) =~= audience);
    assert(token.subrange(audience.len() as int + 1, token.len() as int) =~= subject);
}

} // verus!
