//! The decisions of the signaling service: which clients are admitted, how a
//! validated request becomes a session, and the ICE servers offered.
use vstd::prelude::*;
use crate::text::owned;
use crate::realtime::config::{IceServerConfig, SupportedClients, SignalingParameters};
use crate::realtime::signaling::{
    client_supported, new_session_id, text_view, nonempty_text, ClientMetadata, IceServer,
    SessionHandle, SessionRequest, SessionResponse, SignalingError, TokenClaims, TokenValidator,
};
use crate::realtime::resource::{allocate_step, heartbeat_step, keeps_handles, release_step, ResourceManager, ResourceState};

verus! {

/// The ICE servers `offered` are the configured `configs` as offered to clients.
pub open spec fn offers_ice_servers(offered: Seq<IceServer>, configs: Seq<IceServerConfig>) -> bool {
    &&& offered.len() == configs.len()
    &&& forall|i: int|
        0 <= i < offered.len() ==> {
            &&& (#[trigger] offered[i]).urls@.len() == configs[i].urls@.len()
            &&& forall|j: int|
                0 <= j < offered[i].urls@.len() ==> (#[trigger] offered[i].urls@[j])@
                    == configs[i].urls@[j]@
            &&& text_view(offered[i].username) == nonempty_text(configs[i].username)
            &&& text_view(offered[i].credential) == nonempty_text(configs[i].credential)
        }
}

/// `a` and `b` hold the same ICE servers.
pub open spec fn same_ice_servers(a: Seq<IceServer>, b: Seq<IceServer>) -> bool {
    &&& a.len() == b.len()
    &&& forall|i: int|
        0 <= i < a.len() ==> {
            &&& (#[trigger] a[i]).urls@.len() == b[i].urls@.len()
            &&& forall|j: int| 0 <= j < a[i].urls@.len() ==> (#[trigger] a[i].urls@[j])@ == b[i].urls@[j]@
            &&& text_view(a[i].username) == text_view(b[i].username)
            &&& text_view(a[i].credential) == text_view(b[i].credential)
        }
}

fn offer_ice_servers(configs: &Vec<IceServerConfig>) -> (offered: Vec<IceServer>)
    ensures
        offers_ice_servers(offered@, configs@),
{
    let mut offered: Vec<IceServer> = Vec::new();
    let mut i: usize = 0;
    while i < configs.len()
        invariant
            i <= configs@.len(),
            offers_ice_servers(offered@, configs@.take(i as int)),
        decreases configs.len() - i,
    {
        let s = IceServer::from_config(&configs[i]);
        offered.push(s);
        i = i + 1;
        proof {
            assert forall|k: int| 0 <= k < offered@.len() implies configs@.take(i as int)[k] == configs@[k] by {}
        }
    }
    assert(configs@.take(i as int) =~= configs@);
    offered
}

/// The signaling state: accepted clients, token audience, offered bitrate,
/// the session table and the ICE servers.
pub struct SignalingCore {
    clients: SupportedClients,
    audience: String,
    default_bitrate_kbps: u32,
    resources: ResourceManager,
    ice_servers: Vec<IceServer>,
}

impl SignalingCore {
    pub closed spec fn spec_clients(&self) -> SupportedClients {
        self.clients
    }

    pub closed spec fn spec_audience(&self) -> Seq<char> {
        self.audience@
    }

    pub closed spec fn spec_bitrate(&self) -> u32 {
        self.default_bitrate_kbps
    }

    pub closed spec fn spec_sessions(&self) -> ResourceState {
        self.resources@
    }

    pub closed spec fn spec_ice_servers(&self) -> Seq<IceServer> {
        self.ice_servers@
    }

    /// The session table's clock, in nanoseconds.
    pub closed spec fn spec_clock(&self) -> nat {
        self.resources.clock()
    }

    /// Every registered session's last heartbeat is at or before the clock.
    pub closed spec fn spec_heartbeats_before_clock(&self) -> bool {
        self.resources.heartbeats_before_clock()
    }

    /// The handle registered for session `id` (meaningful when `id` is registered).
    pub closed spec fn spec_handle_of(&self, id: Seq<char>) -> SessionHandle {
        self.resources.handle_of(id)
    }

    /// The sessions registered in `self`, other than `except`, have the
    /// handles they had in `before`.
    pub closed spec fn keeps_handles_of(&self, before: &SignalingCore, except: Option<Seq<char>>) -> bool {
        keeps_handles(&self.resources, &before.resources, except)
    }

    /// The session `id` is registered for `owner` and the client `client`.
    pub open spec fn registered_for(&self, id: Seq<char>, owner: Seq<char>, client: ClientMetadata) -> bool {
        &&& self.spec_handle_of(id).id@ == id
        &&& self.spec_handle_of(id).owner@ == owner
        &&& self.spec_handle_of(id).client.client_type == client.client_type
        &&& self.spec_handle_of(id).client.name@ == client.name@
        &&& self.spec_handle_of(id).client.version@ == client.version@
    }

    /// The state of a new service: an empty session table with the given
    /// limit and timeout, and the configured ICE servers on offer.
    pub fn new(
        clients: SupportedClients,
        audience: &str,
        signaling: &SignalingParameters,
        max_concurrent_sessions: u32,
        session_timeout_s: u64,
    ) -> (c: Self)
        ensures
            c.spec_clients() == clients,
            c.spec_audience() == audience@,
            c.spec_bitrate() == signaling.default_bitrate_kbps,
            c.spec_sessions().max_sessions == max_concurrent_sessions,
            c.spec_sessions().timeout_ns == session_timeout_s * 1_000_000_000,
            c.spec_sessions().sessions.len() == 0,
            offers_ice_servers(c.spec_ice_servers(), signaling.ice_servers@),
    {
        SignalingCore {
            clients,
            audience: owned(audience),
            default_bitrate_kbps: signaling.default_bitrate_kbps,
            resources: ResourceManager::new(max_concurrent_sessions, session_timeout_s),
            ice_servers: offer_ice_servers(&signaling.ice_servers),
        }
    }

    /// The audience tokens must be issued for.
    pub fn expected_audience(&self) -> (a: &str)
        ensures
            a@ == self.spec_audience(),
    {
        self.audience.as_str()
    }

    /// The client rule of a session request: unsupported clients are refused.
    pub fn check_client(&self, client: &ClientMetadata) -> (r: Result<(), SignalingError>)
        ensures
            r is Ok <==> client_supported(self.spec_clients(), *client),
            r matches Err(e) ==> e matches SignalingError::ClientNotSupported { reason }
                && reason@ == "unsupported client"@,
    {
        if !self.clients.is_client_supported(client) {
            return Err(SignalingError::client_not_supported("unsupported client"));
        }
        Ok(())
    }

    /// Admits a session for a validated request: a fresh session id is drawn,
    /// the session is registered for the token's subject, and the answer
    /// carries the id, the ICE servers and the default bitrate. When the table
    /// is full the request is refused and no session is registered.
    pub fn open_session(&mut self, client: &ClientMetadata, claims: &TokenClaims) -> (r: Result<
        SessionResponse,
        SignalingError,
    >)
        ensures
            exists|id: Seq<char>, now: nat|
                id.len() == 36 && final(self).spec_sessions() == allocate_step(
                    old(self).spec_sessions(),
                    id,
                    now,
                ).0 && (r is Ok == allocate_step(old(self).spec_sessions(), id, now).1) && (r matches Ok(
                    resp,
                ) ==> resp.session_id@ == id),
            r matches Ok(resp) ==> same_ice_servers(resp.ice_servers@, old(self).spec_ice_servers())
                && resp.max_bitrate_kbps == old(self).spec_bitrate(),
            r matches Err(e) ==> e == SignalingError::ResourceLimitExceeded,
            final(self).spec_clock() >= old(self).spec_clock(),
            final(self).spec_heartbeats_before_clock(),
            exists|id: Seq<char>|
                id.len() == 36 && final(self).spec_sessions() == allocate_step(
                    old(self).spec_sessions(),
                    id,
                    final(self).spec_clock(),
                ).0 && (r is Ok == allocate_step(old(self).spec_sessions(), id, final(self).spec_clock()).1)
                    && (r matches Ok(resp) ==> resp.session_id@ == id),
            r matches Ok(resp) ==> final(self).registered_for(resp.session_id@, claims.subject@, *client),
            r matches Ok(resp) ==> final(self).keeps_handles_of(&*old(self), Some(resp.session_id@)),
            r is Err ==> final(self).keeps_handles_of(&*old(self), None),
            final(self).spec_clients() == old(self).spec_clients(),
            final(self).spec_audience() == old(self).spec_audience(),
            final(self).spec_bitrate() == old(self).spec_bitrate(),
            final(self).spec_ice_servers() == old(self).spec_ice_servers(),
    {
        let session_id = new_session_id();
        let handle = SessionHandle::new(
            owned(session_id.as_str()),
            ClientMetadata {
                client_type: client.client_type,
                name: owned(client.name.as_str()),
                version: owned(client.version.as_str()),
            },
            owned(claims.subject.as_str()),
        );
        let now = self.resources.now_ns();
        let r = self.resources.try_allocate_at(handle, now);
        proof {
            assert(self.spec_clock() == now as nat);
            assert(final(self).spec_sessions() == allocate_step(old(self).spec_sessions(), session_id@, now as nat).0);
        }
        r?;
        let ice_servers = self.current_ice_servers();
        Ok(SessionResponse { session_id, ice_servers, max_bitrate_kbps: self.default_bitrate_kbps })
    }

    /// Ends a session.
    pub fn end_session(&mut self, session_id: &str) -> (r: Result<(), SignalingError>)
        ensures
            final(self).spec_sessions() == release_step(old(self).spec_sessions(), session_id@).0,
            r is Ok == release_step(old(self).spec_sessions(), session_id@).1,
            r matches Err(e) ==> e matches SignalingError::SessionNotFound { session_id: s } && s@
                == session_id@,
            final(self).keeps_handles_of(&*old(self), None),
            final(self).spec_clock() == old(self).spec_clock(),
            final(self).spec_heartbeats_before_clock(),
            final(self).spec_clients() == old(self).spec_clients(),
            final(self).spec_audience() == old(self).spec_audience(),
            final(self).spec_bitrate() == old(self).spec_bitrate(),
            final(self).spec_ice_servers() == old(self).spec_ice_servers(),
    {
        self.resources.release(session_id)
    }

    /// Keeps a session alive.
    pub fn heartbeat(&mut self, session_id: &str) -> (r: Result<(), SignalingError>)
        ensures
            exists|now: nat|
                final(self).spec_sessions() == heartbeat_step(old(self).spec_sessions(), session_id@, now).0
                    && r is Ok == heartbeat_step(old(self).spec_sessions(), session_id@, now).1,
            r matches Err(e) ==> e matches SignalingError::SessionNotFound { session_id: s } && s@
                == session_id@,
            final(self).spec_clock() >= old(self).spec_clock(),
            final(self).spec_heartbeats_before_clock(),
            final(self).spec_sessions() == heartbeat_step(
                old(self).spec_sessions(),
                session_id@,
                final(self).spec_clock(),
            ).0,
            r is Ok == heartbeat_step(old(self).spec_sessions(), session_id@, final(self).spec_clock()).1,
            final(self).spec_clients() == old(self).spec_clients(),
            final(self).spec_audience() == old(self).spec_audience(),
            final(self).spec_bitrate() == old(self).spec_bitrate(),
            final(self).spec_ice_servers() == old(self).spec_ice_servers(),
    {
        let now = self.resources.now_ns();
        let r = self.resources.heartbeat_at(session_id, now);
        proof {
            assert(self.spec_sessions() == heartbeat_step(old(self).spec_sessions(), session_id@, now as nat).0);
        }
        r
    }

    /// The number of open sessions.
    pub fn active_sessions(&self) -> (n: usize)
        ensures
            n == self.spec_sessions().sessions.len(),
            n <= self.spec_sessions().max_sessions,
    {
        self.resources.active_sessions()
    }

    /// Replaces the offered ICE servers by the given configuration.
    pub fn update_ice_servers(&mut self, configs: &Vec<IceServerConfig>)
        ensures
            offers_ice_servers(final(self).spec_ice_servers(), configs@),
            final(self).spec_sessions() == old(self).spec_sessions(),
            final(self).spec_clients() == old(self).spec_clients(),
            final(self).spec_audience() == old(self).spec_audience(),
            final(self).spec_bitrate() == old(self).spec_bitrate(),
    {
        self.ice_servers = offer_ice_servers(configs);
    }

    /// A copy of the ICE servers on offer.
    pub fn current_ice_servers(&self) -> (s: Vec<IceServer>)
        ensures
            same_ice_servers(s@, self.spec_ice_servers()),
    {
        let mut out: Vec<IceServer> = Vec::new();
        let mut i: usize = 0;
        while i < self.ice_servers.len()
            invariant
                i <= self.ice_servers@.len(),
                same_ice_servers(out@, self.ice_servers@.take(i as int)),
            decreases self.ice_servers.len() - i,
        {
            out.push(self.ice_servers[i].duplicate());
            i = i + 1;
            proof {
                assert forall|k: int| 0 <= k < out@.len() implies self.ice_servers@.take(i as int)[k] == self.ice_servers@[k] by {}
            }
        }
        assert(self.ice_servers@.take(i as int) =~= self.ice_servers@);
        out
    }

    /// A session request: the client is checked first, then the token (for
    /// the service's audience), then the session is admitted. A request that
    /// fails a check registers nothing; one refused for a full table leaves
    /// the table with its expired sessions dropped.
    pub fn start_session<V: TokenValidator>(&mut self, validator: &V, request: &SessionRequest) -> (r: Result<
        SessionResponse,
        SignalingError,
    >)
        ensures
            !client_supported(old(self).spec_clients(), request.client) ==> (r matches Err(
                SignalingError::ClientNotSupported { reason },
            ) && reason@ == "unsupported client"@),
            !client_supported(old(self).spec_clients(), request.client) ==> final(self).spec_sessions()
                == old(self).spec_sessions(),
            r matches Ok(resp) ==> client_supported(old(self).spec_clients(), request.client)
                && exists|now: nat|
                allocate_step(old(self).spec_sessions(), resp.session_id@, now).1
                    && final(self).spec_sessions() == allocate_step(
                    old(self).spec_sessions(),
                    resp.session_id@,
                    now,
                ).0,
            r matches Ok(resp) ==> resp.session_id@.len() == 36 && same_ice_servers(
                resp.ice_servers@,
                old(self).spec_ice_servers(),
            ) && resp.max_bitrate_kbps == old(self).spec_bitrate(),
            client_supported(old(self).spec_clients(), request.client) ==> exists|
                t: &str,
                a: &str,
                v: Result<TokenClaims, SignalingError>,
            |
                t@ == request.auth_token@ && a@ == old(self).spec_audience() && call_ensures(
                    V::validate,
                    (validator, t, a),
                    v,
                ) && match v {
                    Err(e) => r == Err::<SessionResponse, SignalingError>(e) && final(self).spec_sessions()
                        == old(self).spec_sessions(),
                    Ok(c) => (r matches Ok(resp) ==> final(self).registered_for(
                        resp.session_id@,
                        c.subject@,
                        request.client,
                    )) && (r matches Err(e) ==> e == SignalingError::ResourceLimitExceeded),
                },
            final(self).spec_sessions() == old(self).spec_sessions() || exists|id: Seq<char>, now: nat|
                final(self).spec_sessions() == allocate_step(old(self).spec_sessions(), id, now).0,
            final(self).spec_clock() >= old(self).spec_clock(),
            final(self).spec_sessions() == old(self).spec_sessions() || exists|id: Seq<char>|
                final(self).spec_sessions() == allocate_step(old(self).spec_sessions(), id, final(self).spec_clock()).0,
            r matches Ok(resp) ==> allocate_step(old(self).spec_sessions(), resp.session_id@, final(self).spec_clock()).1
                && final(self).spec_sessions() == allocate_step(
                old(self).spec_sessions(),
                resp.session_id@,
                final(self).spec_clock(),
            ).0,
            final(self).spec_clients() == old(self).spec_clients(),
            final(self).spec_audience() == old(self).spec_audience(),
            final(self).spec_bitrate() == old(self).spec_bitrate(),
            final(self).spec_ice_servers() == old(self).spec_ice_servers(),
    {
        self.check_client(&request.client)?;
        let token = request.auth_token.as_str();
        let audience = self.audience.as_str();
        let validated = validator.validate(token, audience);
        let ghost outcome = validated;
        match validated {
            Err(e) => {
                assert(call_ensures(V::validate, (validator, token, audience), outcome));
                Err(e)
            },
            Ok(claims) => {
                let r = self.open_session(&request.client, &claims);
                assert(call_ensures(V::validate, (validator, token, audience), outcome));
                r
            },
        }
    }
}

} // verus!