//! The state of one synchronisation session.

use vstd::prelude::*;

use crate::identity::{AuthenticatedIdentity, TenantId};
use crate::text_map::TextMap;

verus! {

/// What is known of the device behind a session.
pub struct DeviceMetadata {
    pub client_version: String,
    pub remote_addr: String,
    pub peer_id: u64,
}

/// What is known of a device.
pub struct DeviceView {
    pub client_version: Seq<char>,
    pub remote_addr: Seq<char>,
    pub peer_id: u64,
}

impl View for DeviceMetadata {
    type V = DeviceView;

    open spec fn view(&self) -> DeviceView {
        DeviceView {
            client_version: self.client_version@,
            remote_addr: self.remote_addr@,
            peer_id: self.peer_id,
        }
    }
}

/// A device of which only the version is known.
pub open spec fn device_of(client_version: Seq<char>) -> DeviceView {
    DeviceView { client_version, remote_addr: Seq::empty(), peer_id: 0 }
}

/// A collection whose changes a session follows.
pub struct TrackedCollection {
    pub database: u64,
    pub collection: String,
}

/// One connection of a replica.
pub struct SyncSession {
    pub session_id: String,
    pub tenant_id: Option<TenantId>,
    pub username: Option<String>,
    pub identity: Option<AuthenticatedIdentity>,
    pub authenticated: bool,
    pub client_clock: TextMap<TextMap<u64>>,
    pub server_clock: TextMap<u64>,
    pub subscribed_shapes: Vec<String>,
    pub last_seen_lsn: u64,
    pub producer_id: u64,
    pub accepted_epoch: u64,
    pub delta_signing_key: Option<[u8; 32]>,
    pub device_metadata: DeviceMetadata,
    pub tracked_collections: Vec<TrackedCollection>,
    pub announced_collections: Vec<String>,
    /// When the client was last heard of, in milliseconds.
    pub last_activity_ms: u64,
    pub mutations_processed: u64,
}

/// What a session knows of the client, from the handshake that it is bound to.
pub struct BindingView {
    pub tenant_id: Option<TenantId>,
    pub username: Option<Seq<char>>,
    pub identity: Option<AuthenticatedIdentity>,
    pub authenticated: bool,
    pub client_clock: Map<Seq<char>, TextMap<u64>>,
    pub server_clock: Map<Seq<char>, u64>,
    pub subscribed_shapes: Seq<String>,
    pub last_seen_lsn: u64,
    pub producer_id: u64,
    pub accepted_epoch: u64,
    pub delta_signing_key: Option<[u8; 32]>,
    pub device_metadata: DeviceView,
    pub tracked_collections: Seq<TrackedCollection>,
    pub announced_collections: Seq<String>,
}

/// The state of a session.
pub struct SessionView {
    pub session_id: Seq<char>,
    pub binding: BindingView,
    pub last_activity_ms: u64,
    pub mutations_processed: u64,
}

/// What a session knows that is bound to no handshake.
pub open spec fn unbound() -> BindingView {
    BindingView {
        tenant_id: None,
        username: None,
        identity: None,
        authenticated: false,
        client_clock: Map::empty(),
        server_clock: Map::empty(),
        subscribed_shapes: Seq::empty(),
        last_seen_lsn: 0,
        producer_id: 0,
        accepted_epoch: 0,
        delta_signing_key: None,
        device_metadata: device_of(Seq::empty()),
        tracked_collections: Seq::empty(),
        announced_collections: Seq::empty(),
    }
}

impl View for SyncSession {
    type V = SessionView;

    open spec fn view(&self) -> SessionView {
        SessionView {
            session_id: self.session_id@,
            binding: BindingView {
                tenant_id: self.tenant_id,
                username: match self.username {
                    Some(name) => Some(name@),
                    None => None,
                },
                identity: self.identity,
                authenticated: self.authenticated,
                client_clock: self.client_clock@,
                server_clock: self.server_clock@,
                subscribed_shapes: self.subscribed_shapes@,
                last_seen_lsn: self.last_seen_lsn,
                producer_id: self.producer_id,
                accepted_epoch: self.accepted_epoch,
                delta_signing_key: self.delta_signing_key,
                device_metadata: self.device_metadata@,
                tracked_collections: self.tracked_collections@,
                announced_collections: self.announced_collections@,
            },
            last_activity_ms: self.last_activity_ms,
            mutations_processed: self.mutations_processed,
        }
    }
}

impl SyncSession {
    /// A session that is bound to no handshake.
    pub fn new(session_id: String) -> (r: Self)
        ensures
            r@ == (SessionView {
                session_id: session_id@,
                binding: unbound(),
                last_activity_ms: 0,
                mutations_processed: 0,
            }),
    {
        SyncSession {
            session_id,
            tenant_id: None,
            username: None,
            identity: None,
            authenticated: false,
            client_clock: TextMap::new(),
            server_clock: TextMap::new(),
            subscribed_shapes: Vec::new(),
            last_seen_lsn: 0,
            producer_id: 0,
            accepted_epoch: 0,
            delta_signing_key: None,
            device_metadata: DeviceMetadata {
                client_version: String::new(),
                remote_addr: String::new(),
                peer_id: 0,
            },
            tracked_collections: Vec::new(),
            announced_collections: Vec::new(),
            last_activity_ms: 0,
            mutations_processed: 0,
        }
    }

    /// Forgets everything that a handshake bound the session to. What belongs to the connection
    /// stays: its name, when it was last active, and its counters.
    pub fn clear_handshake_binding(&mut self)
        ensures
            final(self)@ == (SessionView { binding: unbound(), ..old(self)@ }),
            final(self).session_id == old(self).session_id,
    {
        self.tenant_id = None;
        self.username = None;
        self.identity = None;
        self.authenticated = false;
        self.client_clock = TextMap::new();
        self.server_clock = TextMap::new();
        self.subscribed_shapes = Vec::new();
        self.last_seen_lsn = 0;
        self.producer_id = 0;
        self.accepted_epoch = 0;
        self.delta_signing_key = None;
        self.device_metadata = DeviceMetadata {
            client_version: String::new(),
            remote_addr: String::new(),
            peer_id: 0,
        };
        self.tracked_collections = Vec::new();
        self.announced_collections = Vec::new();
    }
}

} // verus!
