//! The sessions of a server, each with its parameters.

use vstd::prelude::*;

use crate::text;
use crate::text_map;
use crate::text_map::TextMap;

verus! {

/// The address and port of a client: those of an IPv4 socket, or of an IPv6 socket with its flow
/// information and scope.
#[derive(Debug, Clone, Copy, PartialEq, Eq, Structural)]
pub enum PeerAddr {
    V4 { ip: u32, port: u16 },
    V6 { ip6: u128, port: u16, flowinfo: u32, scope_id: u32 },
}

/// The parameters of a session, by name.
pub type Parameters = Map<Seq<char>, String>;

/// The parameters that a list of keys and values holds.
pub open spec fn pairs_of(list: Seq<(String, String)>) -> Parameters
    decreases list.len(),
{
    if list.len() == 0 {
        Map::empty()
    } else {
        pairs_of(list.drop_last()).insert(list.last().0@, list.last().1)
    }
}

/// Whether keys rise from each pair to the next.
pub open spec fn pairs_rise(list: Seq<(String, String)>) -> bool {
    forall|i: int, j: int|
        0 <= i < j < list.len() ==> text::text_before(
            (#[trigger] list[i]).0@,
            (#[trigger] list[j]).0@,
        )
}

/// The sessions after the parameter `key` of the session of `addr` was given the value `value`.
pub open spec fn with_parameter(
    sessions: Map<PeerAddr, Parameters>,
    addr: PeerAddr,
    key: Seq<char>,
    value: String,
) -> Map<PeerAddr, Parameters> {
    if sessions.contains_key(addr) {
        sessions.insert(addr, sessions[addr].insert(key, value))
    } else {
        sessions
    }
}

/// The value of the parameter `key` of the session of `addr`.
pub open spec fn parameter(
    sessions: Map<PeerAddr, Parameters>,
    addr: PeerAddr,
    key: Seq<char>,
) -> Option<String> {
    if sessions.contains_key(addr) && sessions[addr].contains_key(key) {
        Some(sessions[addr][key])
    } else {
        None
    }
}

struct Session {
    addr: PeerAddr,
    parameters: TextMap<String>,
}

/// The open sessions, each known by the address of its client.
pub struct SessionStore {
    sessions: Vec<Session>,
}

impl SessionStore {
    /// At most one session for each address.
    #[verifier::type_invariant]
    spec fn wf(self) -> bool {
        forall|i: int, j: int|
            0 <= i < j < self.sessions@.len() ==> (#[trigger] self.sessions@[i]).addr != (
            #[trigger] self.sessions@[j]).addr
    }
}

spec fn sessions_view(list: Seq<Session>) -> Map<PeerAddr, Parameters>
    decreases list.len(),
{
    if list.len() == 0 {
        Map::empty()
    } else {
        sessions_view(list.drop_last()).insert(
            list.last().addr,
            list.last().parameters@,
        )
    }
}

impl View for SessionStore {
    type V = Map<PeerAddr, Parameters>;

    closed spec fn view(&self) -> Map<PeerAddr, Parameters> {
        sessions_view(self.sessions@)
    }
}

proof fn lemma_sessions_view(list: Seq<Session>, addr: PeerAddr)
    requires
        forall|i: int, j: int|
            0 <= i < j < list.len() ==> (#[trigger] list[i]).addr != (#[trigger] list[j]).addr,
    ensures
        sessions_view(list).contains_key(addr) <==> exists|i: int|
            0 <= i < list.len() && (#[trigger] list[i]).addr == addr,
        forall|i: int|
            0 <= i < list.len() && (#[trigger] list[i]).addr == addr ==> sessions_view(list)[addr]
                == list[i].parameters@,
    decreases list.len(),
{
    if list.len() > 0 {
        let rest = list.drop_last();
        lemma_sessions_view(rest, addr);
        if exists|i: int| 0 <= i < list.len() && (#[trigger] list[i]).addr == addr {
            let i = choose|i: int| 0 <= i < list.len() && (#[trigger] list[i]).addr == addr;
            if i < rest.len() {
                assert(rest[i].addr == addr);
            }
        }
        if exists|i: int| 0 <= i < rest.len() && (#[trigger] rest[i]).addr == addr {
            let i = choose|i: int| 0 <= i < rest.len() && (#[trigger] rest[i]).addr == addr;
            assert(list[i].addr == addr);
        }
        assert(list[list.len() - 1] == list.last());
        assert forall|i: int|
            0 <= i < list.len() && (#[trigger] list[i]).addr == addr implies sessions_view(
            list,
        )[addr] == list[i].parameters@ by {
            if i < rest.len() {
                assert(rest[i].addr == addr);
                assert(list[i].addr != list[list.len() - 1].addr);
            }
        }
    }
}

impl SessionStore {
    /// A store without sessions.
    pub fn new() -> (r: Self)
        ensures
            r@ == Map::<PeerAddr, Parameters>::empty(),
    {
        SessionStore { sessions: Vec::new() }
    }

    /// The place of the session of `addr`.
    fn place(&self, addr: &PeerAddr) -> (r: Option<usize>)
        ensures
            match r {
                Some(i) => i < self.sessions@.len() && self.sessions@[i as int].addr == *addr,
                None => !self@.contains_key(*addr),
            },
            r matches Some(i) ==> self@.contains_key(*addr) && self@[*addr]
                == self.sessions@[i as int].parameters@,
    {
        proof {
            use_type_invariant(self);
        }
        let mut i: usize = 0;
        while i < self.sessions.len()
            invariant
                self.wf(),
                i <= self.sessions@.len(),
                forall|j: int| 0 <= j < i ==> (#[trigger] self.sessions@[j]).addr != *addr,
            decreases self.sessions@.len() - i,
        {
            if self.sessions[i].addr == *addr {
                proof {
                    lemma_sessions_view(self.sessions@, *addr);
                }
                return Some(i);
            }
            i += 1;
        }
        proof {
            lemma_sessions_view(self.sessions@, *addr);
        }
        None
    }

    /// Opens a session for `addr`, unless it has one.
    pub fn open_session(&mut self, addr: PeerAddr)
        ensures
            final(self)@ == (if old(self)@.contains_key(addr) {
                old(self)@
            } else {
                old(self)@.insert(addr, Map::empty())
            }),
    {
        proof {
            use_type_invariant(&*self);
        }
        match self.place(&addr) {
            Some(_) => {},
            None => {
                let ghost before = self.sessions@;
                proof {
                    lemma_sessions_view(before, addr);
                }
                let mut sessions: Vec<Session> = Vec::new();
                std::mem::swap(&mut self.sessions, &mut sessions);
                sessions.push(Session { addr, parameters: TextMap::new() });
                assert(sessions@.drop_last() =~= before);
                self.sessions = sessions;
            },
        }
    }

    /// Gives the parameter `key` of the session of `addr` the value `value`. Without such a session
    /// nothing changes.
    pub fn set_parameter(&mut self, addr: &PeerAddr, key: String, value: String)
        ensures
            final(self)@ == with_parameter(old(self)@, *addr, key@, value),
    {
        proof {
            use_type_invariant(&*self);
        }
        let ghost name = key@;
        let ghost given = value;
        match self.place(addr) {
            None => {},
            Some(i) => {
                let ghost before = self.sessions@;
                let ghost old_view = self@;
                let mut sessions: Vec<Session> = Vec::new();
                std::mem::swap(&mut self.sessions, &mut sessions);
                let mut session = sessions.remove(i);
                session.parameters.insert(key, value);
                sessions.push(session);
                proof {
                    let after = sessions@;
                    let last = after.len() - 1;
                    assert forall|j: int| 0 <= j < last implies (#[trigger] after[j]) == before[if j
                        < i {
                        j
                    } else {
                        j + 1
                    }] by {}
                    assert forall|a: int, b: int| 0 <= a < b < after.len() implies (
                    #[trigger] after[a]).addr != (#[trigger] after[b]).addr by {
                        let a0 = if a < i { a } else { a + 1 };
                        let b0 = if b < i { b } else { b + 1 };
                        if b < last {
                            assert(before[a0].addr != before[b0].addr);
                        } else if a0 < i {
                            assert(before[a0].addr != before[i as int].addr);
                        } else {
                            assert(before[i as int].addr != before[a0].addr);
                        }
                    }
                    let wanted = old_view.insert(*addr, old_view[*addr].insert(name, given));
                    assert forall|x: PeerAddr| #[trigger]
                        sessions_view(after).contains_key(x) <==> wanted.contains_key(x) by {
                        lemma_sessions_view(before, x);
                        lemma_sessions_view(after, x);
                        if sessions_view(after).contains_key(x) {
                            let a = choose|a: int|
                                0 <= a < after.len() && (#[trigger] after[a]).addr == x;
                            if a < last {
                                let a0 = if a < i { a } else { a + 1 };
                                assert(before[a0].addr == x);
                            }
                        }
                        if sessions_view(before).contains_key(x) {
                            let a = choose|a: int|
                                0 <= a < before.len() && (#[trigger] before[a]).addr == x;
                            if a == i {
                                assert(after[last].addr == x);
                            } else {
                                let a1 = if a < i { a } else { a - 1 };
                                assert(after[a1].addr == x);
                            }
                        }
                        if x == *addr {
                            assert(after[last].addr == x);
                        }
                    }
                    assert forall|x: PeerAddr| #[trigger]
                        sessions_view(after).contains_key(x) implies sessions_view(after)[x]
                        == wanted[x] by {
                        lemma_sessions_view(before, x);
                        lemma_sessions_view(after, x);
                        let a = choose|a: int|
                            0 <= a < after.len() && (#[trigger] after[a]).addr == x;
                        if a < last {
                            let a0 = if a < i { a } else { a + 1 };
                            assert(before[a0].addr == x);
                            assert(x != after[last].addr);
                        }
                    }
                    assert(sessions_view(after) =~= wanted);
                }
                self.sessions = sessions;
            },
        }
    }

    /// The value of the parameter `key` of the session of `addr`, where both exist.
    pub fn get_parameter(&self, addr: &PeerAddr, key: &str) -> (r: Option<String>)
        ensures
            r == parameter(self@, *addr, key@),
    {
        match self.place(addr) {
            None => None,
            Some(at) => match self.sessions[at].parameters.get(key) {
                Some(value) => Some(value.clone()),
                None => None,
            },
        }
    }

    /// The parameters of the session of `addr` in the order of their keys; none without a session.
    pub fn all_parameters(&self, addr: &PeerAddr) -> (r: Vec<(String, String)>)
        ensures
            pairs_rise(r@),
            pairs_of(r@) == (if self@.contains_key(*addr) {
                self@[*addr]
            } else {
                Map::empty()
            }),
    {
        let mut all: Vec<(String, String)> = Vec::new();
        match self.place(addr) {
            None => all,
            Some(at) => {
                let list = self.sessions[at].parameters.entries();
                let mut i: usize = 0;
                assert(list@.take(0) =~= Seq::empty());
                while i < list.len()
                    invariant
                        i <= list@.len(),
                        all@.len() == i,
                        forall|j: int|
                            0 <= j < i ==> (#[trigger] all@[j]).0@ == list@[j].key@,
                        pairs_of(all@) == text_map::map_of(list@.take(i as int)),
                    decreases list@.len() - i,
                {
                    let ghost before = all@;
                    all.push((list[i].key.clone(), list[i].value.clone()));
                    assert(all@.drop_last() =~= before);
                    assert(list@.take(i as int + 1).drop_last() =~= list@.take(i as int));
                    i += 1;
                }
                assert(list@.take(i as int) =~= list@);
                all
            },
        }
    }
}

} // verus!
