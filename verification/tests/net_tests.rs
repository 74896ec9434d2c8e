use dualnet::{
    any_success, bind_plan, strip_ipv4_header, AddrV4, AddrV6, BindType, DualAddr, Family,
    IcmpProto, Transport, LISTEN_BACKLOG,
};

#[test]
fn test_bind_plan_families_and_transports() {
    let p = bind_plan(BindType::IPv4Tcp);
    assert_eq!(p.family, Family::V4);
    assert_eq!(p.transport, Transport::Stream);
    assert_eq!(p.protocol, None);
    assert!(!p.only_v6);
    assert_eq!(p.listen_backlog, Some(LISTEN_BACKLOG));

    let p = bind_plan(BindType::IPv4Udp);
    assert_eq!(p.family, Family::V4);
    assert_eq!(p.transport, Transport::Datagram);
    assert_eq!(p.protocol, None);
    assert!(!p.only_v6);
    assert_eq!(p.listen_backlog, None);

    let p = bind_plan(BindType::IPv4Icmp);
    assert_eq!(p.family, Family::V4);
    assert_eq!(p.transport, Transport::Raw);
    assert_eq!(p.protocol, Some(IcmpProto::V4));
    assert!(!p.only_v6);
    assert_eq!(p.listen_backlog, None);

    let p = bind_plan(BindType::IPv6Tcp);
    assert_eq!(p.family, Family::V6);
    assert_eq!(p.transport, Transport::Stream);
    assert_eq!(p.protocol, None);
    assert!(p.only_v6);
    assert_eq!(p.listen_backlog, Some(LISTEN_BACKLOG));

    let p = bind_plan(BindType::IPv6Udp);
    assert_eq!(p.family, Family::V6);
    assert_eq!(p.transport, Transport::Datagram);
    assert_eq!(p.protocol, None);
    assert!(p.only_v6);
    assert_eq!(p.listen_backlog, None);

    let p = bind_plan(BindType::IPv6Icmp);
    assert_eq!(p.family, Family::V6);
    assert_eq!(p.transport, Transport::Raw);
    assert_eq!(p.protocol, Some(IcmpProto::V6));
    assert!(p.only_v6);
    assert_eq!(p.listen_backlog, None);
}

#[test]
fn test_strip_ipv4_header_returns_short_buffer_unchanged() {
    let b = vec![0x45u8; 19];
    assert_eq!(strip_ipv4_header(&b), &b[..]);
    let empty: [u8; 0] = [];
    assert_eq!(strip_ipv4_header(&empty), &empty[..]);
}

#[test]
fn test_strip_ipv4_header_rejects_wrong_version() {
    let mut b = vec![0u8; 24];
    b[0] = 0x65; // version six
    assert_eq!(strip_ipv4_header(&b), &b[..]);
}

#[test]
fn test_strip_ipv4_header_rejects_bad_header_length() {
    // Header length field below the twenty-byte minimum.
    let mut b = vec![0u8; 24];
    b[0] = 0x44; // version four, header length sixteen
    assert_eq!(strip_ipv4_header(&b), &b[..]);
    // Header length beyond the buffer.
    let mut b = vec![0u8; 20];
    b[0] = 0x4f; // version four, header length sixty
    assert_eq!(strip_ipv4_header(&b), &b[..]);
}

#[test]
fn test_strip_ipv4_header_strips_valid_header() {
    let mut b = vec![0u8; 23];
    b[0] = 0x45; // version four, header length twenty
    b[20] = 1;
    b[21] = 2;
    b[22] = 3;
    assert_eq!(strip_ipv4_header(&b), &[1u8, 2, 3][..]);
    // A header that fills the whole buffer leaves an empty payload.
    let mut b = vec![0u8; 20];
    b[0] = 0x45;
    let empty: [u8; 0] = [];
    assert_eq!(strip_ipv4_header(&b), &empty[..]);
}

#[test]
fn test_any_success_policy() {
    let r: Result<(Option<u32>, Option<u32>), String> = any_success(Ok(4), Ok(6));
    assert_eq!(r, Ok((Some(4), Some(6))));
    let r: Result<(Option<u32>, Option<u32>), String> = any_success(Ok(4), Err("v6 down".into()));
    assert_eq!(r, Ok((Some(4), None)));
    let r: Result<(Option<u32>, Option<u32>), String> = any_success(Err("v4 down".into()), Ok(6));
    assert_eq!(r, Ok((None, Some(6))));
    let r: Result<(Option<u32>, Option<u32>), String> =
        any_success(Err("v4 down".into()), Err("v6 down".into()));
    assert_eq!(r, Err("v4 down".into()));
}

fn addr4() -> AddrV4 {
    AddrV4 { ip: [127, 0, 0, 1], port: 4000 }
}

fn addr6() -> AddrV6 {
    AddrV6 { ip: [0, 0, 0, 0, 0, 0, 0, 0, 0, 0, 0, 0, 0, 0, 0, 1], port: 4000, flowinfo: 0, scope_id: 0 }
}

#[test]
fn test_dual_addr_attempted_families() {
    assert_eq!(DualAddr::V4(addr4()).v4(), Some(addr4()));
    assert_eq!(DualAddr::V4(addr4()).v6(), None);
    assert_eq!(DualAddr::V6(addr6()).v4(), None);
    assert_eq!(DualAddr::V6(addr6()).v6(), Some(addr6()));
    assert_eq!(DualAddr::Both(addr4(), addr6()).v4(), Some(addr4()));
    assert_eq!(DualAddr::Both(addr4(), addr6()).v6(), Some(addr6()));
}

#[test]
fn test_combine_single_family_propagates_error() {
    let d = DualAddr::V4(addr4());
    let r: Result<(Option<u32>, Option<u32>), String> = d.combine(Some(Ok(4)), None);
    assert_eq!(r, Ok((Some(4), None)));
    let r: Result<(Option<u32>, Option<u32>), String> = d.combine(Some(Err("no route".into())), None);
    assert_eq!(r, Err("no route".into()));
    let d = DualAddr::V6(addr6());
    let r: Result<(Option<u32>, Option<u32>), String> = d.combine(None, Some(Ok(6)));
    assert_eq!(r, Ok((None, Some(6))));
    let r: Result<(Option<u32>, Option<u32>), String> = d.combine(None, Some(Err("no route".into())));
    assert_eq!(r, Err("no route".into()));
}

#[test]
fn test_combine_both_absorbs_one_failure_and_reports_v4_error() {
    let d = DualAddr::Both(addr4(), addr6());
    let r: Result<(Option<u32>, Option<u32>), String> = d.combine(Some(Ok(4)), Some(Ok(6)));
    assert_eq!(r, Ok((Some(4), Some(6))));
    // IPv4 succeeds, IPv6 fails: the failure is silently absorbed.
    let r: Result<(Option<u32>, Option<u32>), String> =
        d.combine(Some(Ok(4)), Some(Err("v6 down".into())));
    assert_eq!(r, Ok((Some(4), None)));
    let r: Result<(Option<u32>, Option<u32>), String> =
        d.combine(Some(Err("v4 down".into())), Some(Ok(6)));
    assert_eq!(r, Ok((None, Some(6))));
    // Both fail: the IPv4 attempt's error is the one reported.
    let r: Result<(Option<u32>, Option<u32>), String> =
        d.combine(Some(Err("v4 down".into())), Some(Err("v6 down".into())));
    assert_eq!(r, Err("v4 down".into()));
}
