//! Socket bind planning, IPv4 header stripping, and the dual-stack dial
//! combination policy.
use vstd::prelude::*;
use vstd::slice::slice_subrange;

verus! {

/// Read buffer size for stream sockets.
pub const STREAM_BUF_SIZE: usize = 32 * 1024;

/// Read buffer size for datagram sockets.
pub const DATAGRAM_BUF_SIZE: usize = 64 * 1024;

/// Number of bytes of the length prefix in a framed stream.
pub const FRAME_LENGTH_SIZE: usize = 2;

/// Backlog handed to `listen` on freshly bound stream sockets.
pub const LISTEN_BACKLOG: i32 = 16;

/// The six supported socket shapes: a transport (stream, datagram, or raw
/// ICMP) crossed with an address family.
#[derive(Debug, Copy, Clone, Eq, PartialEq, Hash)]
pub enum BindType {
    IPv4Tcp,
    IPv4Udp,
    IPv4Icmp,
    IPv6Tcp,
    IPv6Udp,
    IPv6Icmp,
}

/// An address family.
#[derive(Debug, Copy, Clone, Eq, PartialEq, Hash)]
pub enum Family {
    V4,
    V6,
}

/// A transport shape.
#[derive(Debug, Copy, Clone, Eq, PartialEq, Hash)]
pub enum Transport {
    Stream,
    Datagram,
    Raw,
}

/// The protocol a raw socket is scoped to.
#[derive(Debug, Copy, Clone, Eq, PartialEq, Hash)]
pub enum IcmpProto {
    V4,
    V6,
}

/// Everything a caller must do to bind a socket of a given kind: which
/// family and transport to create it with, which protocol to scope a raw
/// socket to, whether to set the IPv6-only option before binding, and
/// whether (and with what backlog) to listen after binding.
#[derive(Debug, Copy, Clone, Eq, PartialEq)]
pub struct BindPlan {
    pub family: Family,
    pub transport: Transport,
    pub protocol: Option<IcmpProto>,
    pub only_v6: bool,
    pub listen_backlog: Option<i32>,
}

/// The address family of a socket kind.
pub open spec fn spec_family(t: BindType) -> Family {
    match t {
        BindType::IPv4Tcp | BindType::IPv4Udp | BindType::IPv4Icmp => Family::V4,
        BindType::IPv6Tcp | BindType::IPv6Udp | BindType::IPv6Icmp => Family::V6,
    }
}

/// The transport shape of a socket kind.
pub open spec fn spec_transport(t: BindType) -> Transport {
    match t {
        BindType::IPv4Tcp | BindType::IPv6Tcp => Transport::Stream,
        BindType::IPv4Udp | BindType::IPv6Udp => Transport::Datagram,
        BindType::IPv4Icmp | BindType::IPv6Icmp => Transport::Raw,
    }
}

/// The protocol a socket kind's raw socket is scoped to, if it is raw.
pub open spec fn spec_protocol(t: BindType) -> Option<IcmpProto> {
    match t {
        BindType::IPv4Icmp => Some(IcmpProto::V4),
        BindType::IPv6Icmp => Some(IcmpProto::V6),
        _ => None,
    }
}

/// The bind recipe for a socket kind. An IPv6 kind is always bound IPv6-only,
/// so an IPv4 socket can use the same port independently; a stream kind
/// listens with the fixed backlog after binding.
pub fn bind_plan(t: BindType) -> (p: BindPlan)
    ensures
        p.family == spec_family(t),
        p.transport == spec_transport(t),
        p.protocol == spec_protocol(t),
        p.only_v6 == (spec_family(t) is V6),
        p.listen_backlog == (if spec_transport(t) is Stream {
            Some(LISTEN_BACKLOG)
        } else {
            None::<i32>
        }),
{
    match t {
        BindType::IPv4Tcp => BindPlan {
            family: Family::V4,
            transport: Transport::Stream,
            protocol: None,
            only_v6: false,
            listen_backlog: Some(LISTEN_BACKLOG),
        },
        BindType::IPv4Udp => BindPlan {
            family: Family::V4,
            transport: Transport::Datagram,
            protocol: None,
            only_v6: false,
            listen_backlog: None,
        },
        BindType::IPv4Icmp => BindPlan {
            family: Family::V4,
            transport: Transport::Raw,
            protocol: Some(IcmpProto::V4),
            only_v6: false,
            listen_backlog: None,
        },
        BindType::IPv6Tcp => BindPlan {
            family: Family::V6,
            transport: Transport::Stream,
            protocol: None,
            only_v6: true,
            listen_backlog: Some(LISTEN_BACKLOG),
        },
        BindType::IPv6Udp => BindPlan {
            family: Family::V6,
            transport: Transport::Datagram,
            protocol: None,
            only_v6: true,
            listen_backlog: None,
        },
        BindType::IPv6Icmp => BindPlan {
            family: Family::V6,
            transport: Transport::Raw,
            protocol: Some(IcmpProto::V6),
            only_v6: true,
            listen_backlog: None,
        },
    }
}

/// The payload of `s` after a well-formed IPv4 header, or `s` itself when no
/// such header can be confirmed: the buffer must be at least twenty bytes,
/// carry version four in its top nibble, and state a header length between
/// twenty bytes and the buffer's own length.
pub open spec fn spec_strip_ipv4_header(s: Seq<u8>) -> Seq<u8> {
    if s.len() < 20 {
        s
    } else if s[0] / 16 != 4 {
        s
    } else if (s[0] % 16) * 4 < 20 || (s[0] % 16) * 4 > s.len() {
        s
    } else {
        s.skip((s[0] % 16) * 4)
    }
}

/// Strip a variable-length IPv4 header off the front of a raw-socket read
/// buffer. Best effort: a buffer that does not look like an IPv4 packet
/// comes back unchanged, never as an error.
pub fn strip_ipv4_header(b: &[u8]) -> (r: &[u8])
    ensures
        r@ == spec_strip_ipv4_header(b@),
{
    if b.len() < 20 {
        return b;
    }
    if b[0] / 16 != 4 {
        return b;
    }
    let l: usize = ((b[0] % 16) as usize) * 4;
    if 20 > l || l > b.len() {
        return b;
    }
    proof {
        assert(b@.subrange(l as int, b@.len() as int) =~= b@.skip(l as int));
    }
    slice_subrange(b, l, b.len())
}

/// Merge the outcomes of racing two connection attempts: both successes are
/// kept, one success absorbs the other side's failure, and when both fail
/// the first attempt's error is the one reported.
pub fn any_success<T, E>(res1: Result<T, E>, res2: Result<T, E>) -> (r: Result<
    (Option<T>, Option<T>),
    E,
>)
    ensures
        res1 is Ok && res2 is Ok ==> (r matches Ok(p) && res1 matches Ok(a) && res2 matches Ok(b)
            && p == (Some(a), Some(b))),
        res1 is Ok && res2 is Err ==> (r matches Ok(p) && res1 matches Ok(a) && p == (
            Some(a),
            None::<T>,
        )),
        res1 is Err && res2 is Ok ==> (r matches Ok(p) && res2 matches Ok(b) && p == (
            None::<T>,
            Some(b),
        )),
        res1 is Err && res2 is Err ==> (res1 matches Err(e) && r == Err::<(Option<T>, Option<T>), E>(
            e,
        )),
{
    match res1 {
        Ok(sock1) => Ok(
            match res2 {
                Ok(sock2) => (Some(sock1), Some(sock2)),
                _ => (Some(sock1), None),
            },
        ),
        Err(err1) => match res2 {
            Ok(sock2) => Ok((None, Some(sock2))),
            _ => Err(err1),
        },
    }
}

/// An IPv4 socket address as plain values: the four address octets and the
/// port.
#[derive(Debug, Copy, Clone, Eq, PartialEq, Hash)]
pub struct AddrV4 {
    pub ip: [u8; 4],
    pub port: u16,
}

/// An IPv6 socket address as plain values: the sixteen address octets, the
/// port, and the flow and scope identifiers.
#[derive(Debug, Copy, Clone, Eq, PartialEq, Hash)]
pub struct AddrV6 {
    pub ip: [u8; 16],
    pub port: u16,
    pub flowinfo: u32,
    pub scope_id: u32,
}

/// A resolved destination with one or two reachable address families.
#[derive(Debug, Copy, Clone)]
pub enum DualAddr {
    V4(AddrV4),
    V6(AddrV6),
    Both(AddrV4, AddrV6),
}

impl DualAddr {
    /// The IPv4 address a dial of this destination attempts, if any.
    pub open spec fn spec_v4(self) -> Option<AddrV4> {
        match self {
            DualAddr::V4(a) => Some(a),
            DualAddr::V6(_) => None,
            DualAddr::Both(a, _) => Some(a),
        }
    }

    /// The IPv6 address a dial of this destination attempts, if any.
    pub open spec fn spec_v6(self) -> Option<AddrV6> {
        match self {
            DualAddr::V4(_) => None,
            DualAddr::V6(a) => Some(a),
            DualAddr::Both(_, a) => Some(a),
        }
    }

    /// The IPv4 address to attempt, when the destination has one.
    pub fn v4(&self) -> (r: Option<AddrV4>)
        ensures
            r == self.spec_v4(),
    {
        match self {
            DualAddr::V4(a) => Some(*a),
            DualAddr::V6(_) => None,
            DualAddr::Both(a, _) => Some(*a),
        }
    }

    /// The IPv6 address to attempt, when the destination has one.
    pub fn v6(&self) -> (r: Option<AddrV6>)
        ensures
            r == self.spec_v6(),
    {
        match self {
            DualAddr::V4(_) => None,
            DualAddr::V6(a) => Some(*a),
            DualAddr::Both(_, a) => Some(*a),
        }
    }

    /// Fold the per-family attempt results into one dial outcome. A
    /// single-family destination propagates its only attempt's error; a
    /// dual-family destination keeps every success, silently absorbs one
    /// failure beside a success, and propagates the IPv4 error when both
    /// families fail. An attempt result must be present exactly for the
    /// families the destination has.
    pub fn combine<T, E>(&self, res4: Option<Result<T, E>>, res6: Option<Result<T, E>>) -> (r:
        Result<(Option<T>, Option<T>), E>)
        requires
            res4 is Some <==> self.spec_v4() is Some,
            res6 is Some <==> self.spec_v6() is Some,
        ensures
            self matches DualAddr::V4(_) ==> (res4 matches Some(Ok(a)) ==> r == Ok::<
                (Option<T>, Option<T>),
                E,
            >((Some(a), None))),
            self matches DualAddr::V4(_) ==> (res4 matches Some(Err(e)) ==> r == Err::<
                (Option<T>, Option<T>),
                E,
            >(e)),
            self matches DualAddr::V6(_) ==> (res6 matches Some(Ok(b)) ==> r == Ok::<
                (Option<T>, Option<T>),
                E,
            >((None, Some(b)))),
            self matches DualAddr::V6(_) ==> (res6 matches Some(Err(e)) ==> r == Err::<
                (Option<T>, Option<T>),
                E,
            >(e)),
            self matches DualAddr::Both(_, _) ==> (res4 matches Some(Ok(a)) ==> (res6 matches Some(
                Ok(b),
            ) ==> r == Ok::<(Option<T>, Option<T>), E>((Some(a), Some(b))))),
            self matches DualAddr::Both(_, _) ==> (res4 matches Some(Ok(a)) ==> (res6 matches Some(
                Err(_),
            ) ==> r == Ok::<(Option<T>, Option<T>), E>((Some(a), None)))),
            self matches DualAddr::Both(_, _) ==> (res4 matches Some(Err(_)) ==> (res6
                matches Some(Ok(b)) ==> r == Ok::<(Option<T>, Option<T>), E>((None, Some(b))))),
            self matches DualAddr::Both(_, _) ==> (res4 matches Some(Err(e)) ==> (res6
                matches Some(Err(_)) ==> r == Err::<(Option<T>, Option<T>), E>(e))),
    {
        match self {
            DualAddr::V4(_) => match res4 {
                Some(Ok(sock)) => Ok((Some(sock), None)),
                Some(Err(err)) => Err(err),
                None => unreached(),
            },
            DualAddr::V6(_) => match res6 {
                Some(Ok(sock)) => Ok((None, Some(sock))),
                Some(Err(err)) => Err(err),
                None => unreached(),
            },
            DualAddr::Both(_, _) => match (res4, res6) {
                (Some(r4), Some(r6)) => any_success(r4, r6),
                _ => unreached(),
            },
        }
    }
}

} // verus!
