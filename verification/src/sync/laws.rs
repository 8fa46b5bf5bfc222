//! What every handshake promises, whatever the services answer.

use vstd::prelude::*;

use super::handshake;
use super::handshake::{
    Answers, Attempt, Candidate, HandshakeStep, ProducerRegistration, TokenAuth,
};
use super::session;
use super::session::{SessionView, SyncSession};
use super::wire::{HandshakeAckMsg, WireVersions};
use crate::identity::AuthenticatedIdentity;
use crate::text_map::TextMap;

verus! {

/// Who the client of a handshake is, if that can be told.
pub open spec fn client_of(attempt: Attempt, auth: TokenAuth, a: Answers) -> Option<
    AuthenticatedIdentity,
> {
    if attempt.msg.jwt_token@.len() == 0 {
        if attempt.services.available {
            a.trust_identity
        } else {
            None
        }
    } else {
        let validated = match auth {
            TokenAuth::Static => a.token,
            TokenAuth::Registry(verified) => verified,
        };
        match validated {
            Ok(identity) => Some(identity),
            Err(_) => None,
        }
    }
}

/// Whether the server speaks the wire version of the client: one that is named and in its range.
pub open spec fn version_is_spoken(attempt: Attempt) -> bool {
    let version = attempt.msg.wire_version;
    version > 0 && attempt.versions.oldest <= version && version <= attempt.versions.newest
}

/// Whether the client is a Lite replica, and the server keeps a record of those.
pub open spec fn has_record(attempt: Attempt) -> bool {
    attempt.msg.lite_id@.len() > 0 && attempt.msg.epoch > 0 && attempt.services.available
        && attempt.services.producer_registry
}

/// Whether the client has to be given a signing key.
pub open spec fn key_needed(attempt: Attempt) -> bool {
    attempt.msg.jwt_token@.len() > 0 && attempt.services.available
        && attempt.services.payloads_authenticated
}

/// Whether the record of Lite replicas lets the handshake pass.
pub open spec fn record_passes(attempt: Attempt, a: Answers) -> bool {
    has_record(attempt) ==> {
        &&& a.registration matches Ok(existing)
        &&& a.registration_proposed
        &&& attempt.msg.epoch >= existing.current_epoch
        &&& attempt.msg.epoch > existing.current_epoch ==> a.fenced
        &&& a.fence_proposed
    }
}

/// A client that is turned away leaves the session bound to nothing: neither to the client nor to
/// an earlier one.
pub proof fn law_refusals_leave_the_session_unbound(
    s: SessionView,
    attempt: Attempt,
    auth: TokenAuth,
    now_ms: u64,
    a: Answers,
)
    ensures
        ({
            let (after, ack) = handshake::handshake(s, attempt, auth, now_ms, a);
            !ack.success ==> after.binding == session::unbound() && ack.error is Some
                && ack.producer_id == 0 && ack.accepted_epoch == 0
        }),
{
}

/// A client is taken in exactly where its wire version is spoken, it is known who it is, the record
/// of Lite replicas lets it pass, and the signing key that it may need could be had.
pub proof fn law_when_clients_are_taken_in(
    s: SessionView,
    attempt: Attempt,
    auth: TokenAuth,
    now_ms: u64,
    a: Answers,
)
    ensures
        handshake::handshake(s, attempt, auth, now_ms, a).1.success <==> {
            &&& version_is_spoken(attempt)
            &&& client_of(attempt, auth, a) is Some
            &&& record_passes(attempt, a)
            &&& key_needed(attempt) ==> a.signing_key is Some
        },
{
}

/// A session that takes a client in is bound to it, and the reply tells the client the producer and
/// the epoch that the session holds. The tenant is that of the identity, never one that the message
/// names.
pub proof fn law_what_a_session_is_bound_to(
    s: SessionView,
    attempt: Attempt,
    auth: TokenAuth,
    now_ms: u64,
    a: Answers,
)
    ensures
        ({
            let (after, ack) = handshake::handshake(s, attempt, auth, now_ms, a);
            ack.success ==> {
                &&& after.binding.authenticated
                &&& after.binding.identity == client_of(attempt, auth, a)
                &&& after.binding.identity matches Some(identity)
                &&& after.binding.tenant_id == Some(identity.tenant_id)
                &&& after.binding.username == Some(identity.username@)
                &&& after.binding.producer_id == ack.producer_id
                &&& after.binding.accepted_epoch == ack.accepted_epoch
                &&& after.binding.server_clock == attempt.server_clock@
                &&& ack.server_clock == attempt.server_clock@
                &&& ack.error is None && !ack.fork_detected
                &&& after.binding.delta_signing_key == (if key_needed(attempt) {
                    a.signing_key
                } else {
                    None
                })
            }
        }),
{
}

/// A replica is told of a fork exactly where everything before the record went well and its record
/// belongs to another user or is ahead of its epoch. A failing service is never taken for a fork.
pub proof fn law_when_a_fork_is_reported(
    s: SessionView,
    attempt: Attempt,
    auth: TokenAuth,
    now_ms: u64,
    a: Answers,
)
    ensures
        handshake::handshake(s, attempt, auth, now_ms, a).1.fork_detected <==> {
            &&& version_is_spoken(attempt)
            &&& client_of(attempt, auth, a) is Some
            &&& has_record(attempt)
            &&& match a.registration {
                Ok(existing) => a.registration_proposed && attempt.msg.epoch
                    < existing.current_epoch,
                Err(e) => e.kind is BadRequest,
            }
        },
{
}

/// A Lite replica goes on under the producer of its record and under its own epoch. Any other client
/// goes on without a producer.
pub proof fn law_which_producer_is_granted(
    s: SessionView,
    attempt: Attempt,
    auth: TokenAuth,
    now_ms: u64,
    a: Answers,
)
    ensures
        ({
            let (after, ack) = handshake::handshake(s, attempt, auth, now_ms, a);
            ack.success ==> if has_record(attempt) {
                &&& a.registration matches Ok(existing)
                &&& ack.producer_id == existing.producer_id
                &&& ack.accepted_epoch == attempt.msg.epoch
            } else {
                ack.producer_id == 0 && ack.accepted_epoch == 0
            }
        }),
{
}

/// A client that names no wire version is turned away.
pub proof fn law_version_zero_is_turned_away(
    s: SessionView,
    attempt: Attempt,
    auth: TokenAuth,
    now_ms: u64,
    a: Answers,
)
    requires
        attempt.msg.wire_version == 0,
    ensures
        ({
            let (after, ack) = handshake::handshake(s, attempt, auth, now_ms, a);
            &&& !ack.success
            &&& !ack.fork_detected
            &&& ack.error == Some("incompatible wire version: "@ + attempt.versions.too_old@)
        }),
{
}

/// A handshake changes nothing of the connection but the time of its last activity.
pub proof fn law_the_connection_survives(
    s: SessionView,
    attempt: Attempt,
    auth: TokenAuth,
    now_ms: u64,
    a: Answers,
)
    ensures
        ({
            let (after, ack) = handshake::handshake(s, attempt, auth, now_ms, a);
            &&& after.session_id == s.session_id
            &&& ack.session_id == s.session_id
            &&& after.mutations_processed == s.mutations_processed
            &&& after.last_activity_ms == now_ms
            &&& ack.server_wire_version == attempt.versions.current
        }),
{
}

/// What an earlier handshake bound the session to has no bearing on a later one.
pub proof fn law_handshakes_do_not_add_up(
    s: SessionView,
    t: SessionView,
    attempt: Attempt,
    auth: TokenAuth,
    now_ms: u64,
    a: Answers,
)
    requires
        s.session_id == t.session_id,
        s.mutations_processed == t.mutations_processed,
    ensures
        handshake::handshake(s, attempt, auth, now_ms, a) == handshake::handshake(
            t,
            attempt,
            auth,
            now_ms,
            a,
        ),
{
}

/// A session that is bound to nothing knows nothing of any client: no tenant, user or identity, no
/// clocks, no shapes, no position, no producer, no key, no device and no collections.
pub proof fn law_unbound_sessions_know_nothing()
    ensures
        ({
            let b = session::unbound();
            &&& b.tenant_id is None && b.username is None && b.identity is None && !b.authenticated
            &&& b.client_clock == Map::<Seq<char>, TextMap<u64>>::empty()
            &&& b.server_clock == Map::<Seq<char>, u64>::empty()
            &&& b.subscribed_shapes.len() == 0 && b.last_seen_lsn == 0
            &&& b.producer_id == 0 && b.accepted_epoch == 0 && b.delta_signing_key is None
            &&& b.device_metadata.client_version.len() == 0
            &&& b.device_metadata.remote_addr.len() == 0 && b.device_metadata.peer_id == 0
            &&& b.tracked_collections.len() == 0 && b.announced_collections.len() == 0
        }),
{
}

/// What a session sees of itself is what its fields hold.
pub proof fn law_a_session_is_what_it_holds(s: SyncSession)
    ensures
        s@.session_id == s.session_id@,
        s@.last_activity_ms == s.last_activity_ms,
        s@.mutations_processed == s.mutations_processed,
        s@.binding.tenant_id == s.tenant_id,
        s@.binding.username is Some <==> s.username is Some,
        s.username is Some ==> s@.binding.username == Some(s.username->0@),
        s@.binding.identity == s.identity,
        s@.binding.authenticated == s.authenticated,
        s@.binding.client_clock == s.client_clock@,
        s@.binding.server_clock == s.server_clock@,
        s@.binding.subscribed_shapes == s.subscribed_shapes@,
        s@.binding.last_seen_lsn == s.last_seen_lsn,
        s@.binding.producer_id == s.producer_id,
        s@.binding.accepted_epoch == s.accepted_epoch,
        s@.binding.delta_signing_key == s.delta_signing_key,
        s@.binding.device_metadata.client_version == s.device_metadata.client_version@,
        s@.binding.device_metadata.remote_addr == s.device_metadata.remote_addr@,
        s@.binding.device_metadata.peer_id == s.device_metadata.peer_id,
        s@.binding.tracked_collections == s.tracked_collections@,
        s@.binding.announced_collections == s.announced_collections@,
{
}

/// What an answer says is what its fields hold.
pub proof fn law_an_answer_is_what_it_holds(ack: HandshakeAckMsg)
    ensures
        ack@.success == ack.success,
        ack@.session_id == ack.session_id@,
        ack@.server_clock == ack.server_clock@,
        ack@.error is Some <==> ack.error is Some,
        ack.error is Some ==> ack@.error == Some(ack.error->0@),
        ack@.fork_detected == ack.fork_detected,
        ack@.server_wire_version == ack.server_wire_version,
        ack@.producer_id == ack.producer_id,
        ack@.accepted_epoch == ack.accepted_epoch,
        ack@.delta_signing_key == ack.delta_signing_key@,
{
}

proof fn lemma_one_is_highest(clock: Map<Seq<char>, TextMap<u64>>, bound: u64) -> (lsn: u64)
    requires
        forall|c: Seq<char>, p: Seq<char>|
            clock.contains_key(c) && (#[trigger] clock[c])@.contains_key(p) ==> (
            #[trigger] clock[c]@[p]) <= bound,
    ensures
        handshake::is_highest_lsn(clock, lsn),
    decreases bound,
{
    if bound == 0 || exists|c: Seq<char>, p: Seq<char>|
        clock.contains_key(c) && (#[trigger] clock[c])@.contains_key(p) && (#[trigger] clock[c]@[p])
            == bound {
        bound
    } else {
        lemma_one_is_highest(clock, (bound - 1) as u64)
    }
}

/// A session that takes a client in starts from what the message says: its clock, its shapes, the
/// highest position in its clock and its version; it follows no collections yet. The reply carries the
/// signing key, or zeros where there is none.
pub proof fn law_what_a_session_starts_from(
    s: SessionView,
    attempt: Attempt,
    auth: TokenAuth,
    now_ms: u64,
    a: Answers,
    collection: Seq<char>,
    peer: Seq<char>,
)
    ensures
        ({
            let (after, ack) = handshake::handshake(s, attempt, auth, now_ms, a);
            let clock = attempt.msg.vector_clock@;
            ack.success ==> {
                &&& after.binding.client_clock == clock
                &&& after.binding.subscribed_shapes == attempt.msg.subscribed_shapes@
                &&& after.binding.device_metadata.client_version == attempt.msg.client_version@
                &&& after.binding.device_metadata.remote_addr.len() == 0
                &&& after.binding.device_metadata.peer_id == 0
                &&& after.binding.tracked_collections.len() == 0
                &&& after.binding.announced_collections.len() == 0
                &&& clock.contains_key(collection) && clock[collection]@.contains_key(peer)
                    ==> clock[collection]@[peer] <= after.binding.last_seen_lsn
                &&& after.binding.last_seen_lsn == 0 || exists|c: Seq<char>, p: Seq<char>|
                    clock.contains_key(c) && (#[trigger] clock[c])@.contains_key(p) && (
                    #[trigger] clock[c]@[p]) == after.binding.last_seen_lsn
                &&& ack.delta_signing_key.len() == 32
                &&& key_needed(attempt) ==> ack.delta_signing_key == a.signing_key->0@
                &&& !key_needed(attempt) ==> forall|i: int|
                    0 <= i < 32 ==> #[trigger] ack.delta_signing_key[i] == 0
            }
        }),
{
    let clock = attempt.msg.vector_clock@;
    let lsn = lemma_one_is_highest(clock, u64::MAX);
    assert(handshake::is_highest_lsn(clock, handshake::highest_lsn(clock)));
}

/// In which words a client is turned away: its wire version where the server does not speak it, its
/// token where that is refused, the trust identity where there is none, a fork, a service that fails,
/// or the signing key. The reply carries the server's clock, but for one whose token is refused, and
/// never a producer, an epoch or a key.
pub proof fn law_in_which_words_clients_are_turned_away(
    s: SessionView,
    attempt: Attempt,
    auth: TokenAuth,
    now_ms: u64,
    a: Answers,
)
    ensures
        ({
            let (after, ack) = handshake::handshake(s, attempt, auth, now_ms, a);
            let version = attempt.msg.wire_version;
            let token = attempt.msg.jwt_token@.len() > 0;
            let validated = match auth {
                TokenAuth::Static => a.token,
                TokenAuth::Registry(verified) => verified,
            };
            !ack.success ==> {
                &&& ack.error == Some(
                    if version == 0 || version < attempt.versions.oldest {
                        "incompatible wire version: "@ + attempt.versions.too_old@
                    } else if version > attempt.versions.newest {
                        "incompatible wire version: "@ + attempt.versions.too_new@
                    } else if token && validated is Err {
                        validated->Err_0@
                    } else if client_of(attempt, auth, a) is None {
                        "configured trust identity is unavailable"@
                    } else if ack.fork_detected {
                        "FORK_DETECTED: stale epoch — regenerate LiteId and reconnect"@
                    } else if !record_passes(attempt, a) {
                        "SYNC_UNAVAILABLE: transient server error — retry the handshake"@
                    } else {
                        "SYNC_UNAVAILABLE: signing key persistence failed"@
                    },
                )
                &&& ack.server_clock == (if version_is_spoken(attempt) && token && validated is Err {
                    Map::empty()
                } else {
                    attempt.server_clock@
                })
                &&& ack.producer_id == 0 && ack.accepted_epoch == 0
                &&& ack.delta_signing_key.len() == 32
                &&& forall|i: int| 0 <= i < 32 ==> #[trigger] ack.delta_signing_key[i] == 0
            }
        }),
{
}

/// What the answer that turns a client away holds.
pub proof fn law_what_a_refusal_holds(
    s: SessionView,
    versions: WireVersions,
    clock: Map<Seq<char>, u64>,
    message: Seq<char>,
    fork: bool,
)
    ensures
        ({
            let ack = handshake::refusal(s, versions, clock, message, fork);
            &&& !ack.success
            &&& ack.session_id == s.session_id
            &&& ack.server_clock == clock
            &&& ack.error == Some(message)
            &&& ack.fork_detected == fork
            &&& ack.server_wire_version == versions.current
            &&& ack.producer_id == 0 && ack.accepted_epoch == 0
            &&& ack.delta_signing_key.len() == 32
            &&& forall|i: int| 0 <= i < 32 ==> #[trigger] ack.delta_signing_key[i] == 0
        }),
{
}

/// Which wire versions are taken, and why others are turned away.
pub proof fn law_which_wire_versions_are_taken(versions: WireVersions, version: u16)
    ensures
        versions.takes(version) <==> version >= 1 && version >= versions.oldest && version
            <= versions.newest,
        version == 0 || version < versions.oldest ==> versions.refusal(version)
            == versions.too_old@,
        version > 0 && version >= versions.oldest ==> versions.refusal(version)
            == versions.too_new@,
{
}

/// Whatever a step of a handshake hands to a service is what came: the message and the server's clock,
/// the client, and its record.
pub proof fn law_steps_hand_on_what_came(
    step: HandshakeStep,
    attempt: Attempt,
    candidate: Candidate,
    record: ProducerRegistration,
)
    ensures
        handshake::is_about(step, attempt) ==> (match step {
            HandshakeStep::Reply(_) => true,
            HandshakeStep::ResolveTrustIdentity(x) => x == attempt,
            HandshakeStep::ValidateToken(x) => x == attempt,
            HandshakeStep::GetOrRegister(c) => c.attempt == attempt,
            HandshakeStep::ProposeRegister(c, _) => c.attempt == attempt,
            HandshakeStep::Fence(c, _) => c.attempt == attempt,
            HandshakeStep::ProposeFence(c, _) => c.attempt == attempt,
            HandshakeStep::LoadSigningKey(g) => g.candidate.attempt == attempt,
        }),
        handshake::is_for(step, candidate) ==> (match step {
            HandshakeStep::Reply(_) => true,
            HandshakeStep::GetOrRegister(c) => c == candidate,
            HandshakeStep::ProposeRegister(c, _) => c == candidate,
            HandshakeStep::Fence(c, _) => c == candidate,
            HandshakeStep::ProposeFence(c, _) => c == candidate,
            HandshakeStep::LoadSigningKey(g) => g.candidate == candidate,
            _ => false,
        }),
        handshake::carries(step, record) ==> (match step {
            HandshakeStep::ProposeRegister(_, e) => e == record,
            HandshakeStep::Fence(_, e) => e == record,
            HandshakeStep::ProposeFence(_, e) => e == record,
            _ => true,
        }),
{
}

/// The record of Lite replicas is asked for a Lite replica alone, and where there is one; an epoch is
/// raised only where that of the message is ahead of the record, and replicated only where it is not
/// behind; a signing key is loaded only for a client with a token whose deltas have to be signed.
pub proof fn law_services_are_asked_only_where_needed(step: HandshakeStep)
    requires
        handshake::reachable(step),
    ensures
        match step {
            HandshakeStep::GetOrRegister(c) => has_record(c.attempt),
            HandshakeStep::ProposeRegister(c, _) => has_record(c.attempt),
            HandshakeStep::Fence(c, e) => has_record(c.attempt) && c.attempt.msg.epoch
                > e.current_epoch,
            HandshakeStep::ProposeFence(c, e) => has_record(c.attempt) && c.attempt.msg.epoch
                >= e.current_epoch,
            HandshakeStep::LoadSigningKey(g) => g.candidate.by_token
                && g.candidate.attempt.services.available
                && g.candidate.attempt.services.payloads_authenticated,
            _ => true,
        },
{
}

} // verus!
