//! The beacon protocol: pings, replies, and the decisions of one accept handshake.
use vstd::prelude::*;

use crate::codec::{parse_port, port_bytes, port_of, serialise_port, SocketAddr};
use crate::guid::{GUID, GUID_SIZE};

verus! {

/// Number of bytes in the magic prefix of a ping.
pub const MAGIC_SIZE: usize = 4;

/// Number of bytes in a ping: the magic prefix, then a GUID.
pub const PING_LEN: usize = 20;

/// The magic prefix of a ping, the ASCII bytes of "maid".
pub open spec fn magic() -> Seq<u8> {
    seq![109u8, 97u8, 105u8, 100u8]
}

/// The GUID sent when the seeker asks to avoid nobody.
pub open spec fn zero_guid() -> Seq<u8> {
    Seq::new(16, |i: int| 0u8)
}

/// The ping a seeker broadcasts: the magic prefix, then the GUID to avoid, or
/// sixteen zero bytes.
pub open spec fn ping_bytes(guid_to_avoid: Option<GUID>) -> Seq<u8> {
    magic() + match guid_to_avoid {
        Some(g) => g@,
        None => zero_guid(),
    }
}

/// A listener whose GUID is `own` answers `datagram`: it is at least a ping long,
/// starts with the magic prefix, and does not carry the listener's own GUID.
pub open spec fn elicits_reply(datagram: Seq<u8>, own: Seq<u8>) -> bool {
    &&& datagram.len() >= PING_LEN
    &&& datagram.subrange(0, 4) == magic()
    &&& datagram.subrange(4, 20) != own
}

/// Builds the ping that a seeker broadcasts.
pub fn ping_packet(guid_to_avoid: Option<GUID>) -> (r: Vec<u8>)
    ensures
        r@ == ping_bytes(guid_to_avoid),
{
    let mut r: Vec<u8> = Vec::with_capacity(PING_LEN);
    r.push(109u8);
    r.push(97u8);
    r.push(105u8);
    r.push(100u8);
    let g: GUID = match guid_to_avoid {
        Some(g) => g,
        None => [0u8; 16],
    };
    let mut i: usize = 0;
    while i < GUID_SIZE
        invariant
            i <= GUID_SIZE,
            r@ == magic() + g@.subrange(0, i as int),
        decreases GUID_SIZE - i,
    {
        r.push(g[i]);
        i = i + 1;
        assert(r@ =~= magic() + g@.subrange(0, i as int));
    }
    assert(g@.subrange(0, 16) =~= g@);
    proof {
        if guid_to_avoid is None {
            assert(g@ =~= zero_guid());
        }
    }
    r
}

/// Decides whether a listener with GUID `own_guid`, whose reliable endpoint
/// listens on `tcp_port`, answers `datagram`, and with which reply.
pub fn reply_to_ping(datagram: &[u8], own_guid: &GUID, tcp_port: u16) -> (r: Option<[u8; 2]>)
    ensures
        match r {
            Some(reply) => elicits_reply(datagram@, own_guid@) && reply@ == port_bytes(tcp_port),
            None => !elicits_reply(datagram@, own_guid@),
        },
        datagram@.len() < PING_LEN ==> r is None,
        datagram@.len() >= PING_LEN && datagram@.subrange(0, 4) != magic() ==> r is None,
        datagram@.len() >= PING_LEN && datagram@.subrange(4, 20) == own_guid@ ==> r is None,
{
    if datagram.len() < PING_LEN {
        return None;
    }
    if !(datagram[0] == 109u8 && datagram[1] == 97u8 && datagram[2] == 105u8 && datagram[3]
        == 100u8) {
        assert(datagram@.subrange(0, 4)[0] == datagram@[0]);
        assert(datagram@.subrange(0, 4)[1] == datagram@[1]);
        assert(datagram@.subrange(0, 4)[2] == datagram@[2]);
        assert(datagram@.subrange(0, 4)[3] == datagram@[3]);
        return None;
    }
    assert(datagram@.subrange(0, 4) =~= magic());
    let mut i: usize = 0;
    while i < GUID_SIZE
        invariant
            i <= GUID_SIZE,
            datagram@.len() >= PING_LEN,
            datagram@.subrange(0, 4) == magic(),
            forall|j: int| 0 <= j < i ==> datagram@[4 + j] == own_guid@[j],
        decreases GUID_SIZE - i,
    {
        if datagram[MAGIC_SIZE + i] != own_guid[i] {
            assert(datagram@.subrange(4, 20)[i as int] != own_guid@[i as int]);
            return Some(serialise_port(tcp_port));
        }
        i = i + 1;
    }
    assert(datagram@.subrange(4, 20) =~= own_guid@);
    None
}

/// The address of a discovered peer: the source of its reply, with the port
/// that the reply carries (an IPv6 source keeps no flow-info or scope-id).
pub open spec fn with_port(source: SocketAddr, port: u16) -> SocketAddr {
    match source {
        SocketAddr::V4 { octets, .. } => SocketAddr::V4 { octets, port },
        SocketAddr::V6 { segments, .. } => SocketAddr::V6 {
            segments,
            port,
            flowinfo: 0,
            scope_id: 0,
        },
    }
}

/// Turns a reply received from `source` into the address of the peer that sent
/// it; a reply shorter than two bytes names no peer.
pub fn discovered_peer(source: SocketAddr, reply: &[u8]) -> (r: Option<SocketAddr>)
    ensures
        reply@.len() >= 2 ==> r == Some(with_port(source, port_of(reply@) as u16)),
        reply@.len() < 2 ==> r is None,
{
    if reply.len() < 2 {
        return None;
    }
    let data = [reply[0], reply[1]];
    assert(port_of(data@) == port_of(reply@));
    let port = parse_port(data);
    match source {
        SocketAddr::V4 { octets, .. } => Some(SocketAddr::V4 { octets, port }),
        SocketAddr::V6 { segments, .. } => Some(
            SocketAddr::V6 { segments, port, flowinfo: 0, scope_id: 0 },
        ),
    }
}

/// A ping sent by a seeker that avoids GUID `g` never draws a reply from the
/// listener whose GUID is `g`.
pub proof fn lemma_own_ping_ignored(g: GUID)
    ensures
        !elicits_reply(ping_bytes(Some(g)), g@),
{
    assert(ping_bytes(Some(g)).subrange(4, 20) =~= g@);
}

/// A well-formed ping draws a reply from a listener with GUID `own` exactly when
/// the GUID it carries differs from `own`: the one it avoids, or zero.
pub proof fn lemma_ping_answered(guid_to_avoid: Option<GUID>, own: GUID)
    ensures
        elicits_reply(ping_bytes(guid_to_avoid), own@) <==> match guid_to_avoid {
            Some(g) => g@ != own@,
            None => zero_guid() != own@,
        },
{
    let p = ping_bytes(guid_to_avoid);
    assert(p.subrange(0, 4) =~= magic());
    match guid_to_avoid {
        Some(g) => assert(p.subrange(4, 20) =~= g@),
        None => assert(p.subrange(4, 20) =~= zero_guid()),
    }
}

/// A ping that avoids nobody draws, from a listener whose GUID is not all zero
/// and whose reliable endpoint listens on `tcp_port`, a reply that names a peer
/// at the address it came from, on `tcp_port`.
pub proof fn lemma_discovery_finds_listener(own: GUID, tcp_port: u16, source: SocketAddr)
    requires
        own@ != zero_guid(),
    ensures
        elicits_reply(ping_bytes(None), own@),
        port_of(port_bytes(tcp_port)) == tcp_port,
        with_port(source, tcp_port) == (match source {
            SocketAddr::V4 { octets, .. } => SocketAddr::V4 { octets, port: tcp_port },
            SocketAddr::V6 { segments, .. } => SocketAddr::V6 {
                segments,
                port: tcp_port,
                flowinfo: 0,
                scope_id: 0,
            },
        }),
{
    lemma_ping_answered(None, own);
}

/// Where one accept handshake stands on the beacon side.
#[derive(Clone, Copy, Debug, PartialEq, Eq)]
pub enum AcceptState {
    /// The reliable endpoint has not yet published its port: no reply can be sent.
    AwaitingPort,
    /// Pings are answered with `tcp_port`.
    Listening { tcp_port: u16 },
    /// One reply was sent; the handshake answers nothing more.
    Replied,
}

/// The decisions of the beacon task during one accept handshake: it waits for the
/// reliable endpoint's port, then answers the first ping from another node, once.
#[derive(Clone, Copy, Debug)]
pub struct AcceptSession {
    pub guid: GUID,
    pub state: AcceptState,
}

impl AcceptSession {
    /// A handshake of the listener with GUID `guid`, before the port is known.
    pub fn new(guid: GUID) -> (r: AcceptSession)
        ensures
            r.guid == guid,
            r.state == AcceptState::AwaitingPort,
    {
        AcceptSession { guid, state: AcceptState::AwaitingPort }
    }

    /// The reliable endpoint published its port. Only the first publication counts.
    pub fn port_published(&mut self, tcp_port: u16)
        ensures
            final(self).guid == old(self).guid,
            final(self).state == (if old(self).state == AcceptState::AwaitingPort {
                AcceptState::Listening { tcp_port }
            } else {
                old(self).state
            }),
    {
        if let AcceptState::AwaitingPort = self.state {
            self.state = AcceptState::Listening { tcp_port };
        }
    }

    /// A datagram arrived on the beacon socket: returns the reply to send, if any.
    /// A reply goes out only once the port is known, and at most once.
    pub fn datagram(&mut self, datagram: &[u8]) -> (r: Option<[u8; 2]>)
        ensures
            final(self).guid == old(self).guid,
            match old(self).state {
                AcceptState::Listening { tcp_port } => if elicits_reply(
                    datagram@,
                    old(self).guid@,
                ) {
                    &&& r matches Some(reply) && reply@ == port_bytes(tcp_port)
                    &&& final(self).state == AcceptState::Replied
                } else {
                    r is None && final(self).state == old(self).state
                },
                _ => r is None && final(self).state == old(self).state,
            },
    {
        match self.state {
            AcceptState::Listening { tcp_port } => {
                let reply = reply_to_ping(datagram, &self.guid, tcp_port);
                if reply.is_some() {
                    self.state = AcceptState::Replied;
                }
                reply
            },
            _ => None,
        }
    }

    /// The handshake has sent its reply.
    pub fn is_done(&self) -> (r: bool)
        ensures
            r == (self.state == AcceptState::Replied),
    {
        match self.state {
            AcceptState::Replied => true,
            _ => false,
        }
    }
}

} // verus!
