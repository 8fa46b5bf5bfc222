//! The messages of the handshake.

use vstd::prelude::*;

use crate::text_map::TextMap;

verus! {

/// What a client sends to open a session.
pub struct HandshakeMsg {
    /// A token, or nothing where the server is asked to trust the client.
    pub jwt_token: String,
    /// For each collection, the last position seen of each peer.
    pub vector_clock: TextMap<TextMap<u64>>,
    pub subscribed_shapes: Vec<String>,
    pub client_version: String,
    /// The identity of a Lite replica, empty for any other client.
    pub lite_id: String,
    /// How often the Lite replica has started over, zero for any other client.
    pub epoch: u64,
    /// Zero where the client does not say.
    pub wire_version: u16,
}

/// What the server answers.
pub struct HandshakeAckMsg {
    pub success: bool,
    pub session_id: String,
    pub server_clock: TextMap<u64>,
    pub error: Option<String>,
    pub fork_detected: bool,
    pub server_wire_version: u16,
    pub producer_id: u64,
    pub accepted_epoch: u64,
    pub delta_signing_key: [u8; 32],
}

/// What an answer says.
pub struct AckView {
    pub success: bool,
    pub session_id: Seq<char>,
    pub server_clock: Map<Seq<char>, u64>,
    pub error: Option<Seq<char>>,
    pub fork_detected: bool,
    pub server_wire_version: u16,
    pub producer_id: u64,
    pub accepted_epoch: u64,
    pub delta_signing_key: Seq<u8>,
}

impl View for HandshakeAckMsg {
    type V = AckView;

    open spec fn view(&self) -> AckView {
        AckView {
            success: self.success,
            session_id: self.session_id@,
            server_clock: self.server_clock@,
            error: match self.error {
                Some(e) => Some(e@),
                None => None,
            },
            fork_detected: self.fork_detected,
            server_wire_version: self.server_wire_version,
            producer_id: self.producer_id,
            accepted_epoch: self.accepted_epoch,
            delta_signing_key: self.delta_signing_key@,
        }
    }
}

/// The key of an answer that carries none.
pub open spec fn no_key() -> Seq<u8> {
    Seq::new(32, |i: int| 0u8)
}

/// The wire formats that a server speaks: its own, and the range that it takes from clients; and in
/// which words it turns others away.
#[derive(Debug, Clone, Copy)]
pub struct WireVersions {
    pub oldest: u16,
    pub newest: u16,
    pub current: u16,
    pub too_old: &'static str,
    pub too_new: &'static str,
}

impl WireVersions {
    /// Whether the server takes this version from a client. It never takes zero, the version of a
    /// client that names none.
    pub open spec fn takes(self, version: u16) -> bool {
        0 < version && self.oldest <= version <= self.newest
    }

    /// Why the server turns this version away.
    pub open spec fn refusal(self, version: u16) -> Seq<char> {
        if version == 0 || version < self.oldest {
            self.too_old@
        } else {
            self.too_new@
        }
    }

    /// Why a client of this version is turned away, if it is.
    pub fn check_wire_compatibility(&self, version: u16) -> (r: Result<(), &'static str>)
        ensures
            r is Ok <==> self.takes(version),
            r matches Err(reason) ==> reason@ == self.refusal(version),
    {
        if version == 0 || version < self.oldest {
            Err(self.too_old)
        } else if version > self.newest {
            Err(self.too_new)
        } else {
            Ok(())
        }
    }
}

} // verus!
