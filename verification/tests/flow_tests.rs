use lb_datapath::flow::{evict_idle, handle_tcp_ingress, process_packet};
use lb_datapath::packet::read_be16;
use lb_datapath::packet::read_be32;
use lb_datapath::registry::{BackendList, BackendRegistry};
use lb_datapath::store::BoundedMap;
use lb_datapath::types::{
    Action, Backend, BackendKey, ClientKey, ConnectionRecord, PacketError, TCPState,
};

const SVC_IP: u32 = 0x0a000001; // 10.0.0.1
const SVC_PORT: u16 = 80;
const B0: Backend = Backend { daddr: 0x0a000105, dport: 8080, ifindex: 1 };
const NOW: u64 = 1_000;
const B1: Backend = Backend { daddr: 0x0a000106, dport: 8080, ifindex: 2 };

/// Builds a 54-byte frame carrying the given flow tuple, with or without
/// the TCP reset flag.
fn frame(src_ip: u32, src_port: u16, dst_ip: u32, dst_port: u16, rst: bool) -> Vec<u8> {
    let mut f = vec![0u8; 54];
    f[14] = 0x45; // version 4, header length 20
    f[22] = 64; // TTL
    f[23] = 6; // protocol: TCP
    f[26..30].copy_from_slice(&src_ip.to_be_bytes());
    f[30..34].copy_from_slice(&dst_ip.to_be_bytes());
    f[34..36].copy_from_slice(&src_port.to_be_bytes());
    f[36..38].copy_from_slice(&dst_port.to_be_bytes());
    // a nonzero TCP checksum, to show the data path leaves it alone
    f[50] = 0xaa;
    f[51] = 0xbb;
    if rst {
        f[47] = 0x04;
    }
    f
}

fn service_frame(src_ip: u32, src_port: u16, rst: bool) -> Vec<u8> {
    frame(src_ip, src_port, SVC_IP, SVC_PORT, rst)
}

/// A registry owning one service with backends [B0, B1], plus empty stores.
fn setup() -> (BackendRegistry, BoundedMap<u32>, BoundedMap<ConnectionRecord>) {
    let mut registry = BackendRegistry::new(8);
    let key = BackendKey { ip: SVC_IP, port: SVC_PORT as u32 };
    let list = BackendList::from_backends(vec![B0, B1]);
    let stored = registry.register(key, list);
    assert!(stored);
    (registry, BoundedMap::new(8), BoundedMap::new(16))
}

fn client_id(ip: u32, port: u16) -> u64 {
    ClientKey { ip, port: port as u32 }.id()
}

fn service_id() -> u64 {
    BackendKey { ip: SVC_IP, port: SVC_PORT as u32 }.id()
}

#[test]
fn short_frame_is_rejected_and_unchanged() {
    let (registry, mut cursors, mut conns) = setup();
    let mut f = vec![0u8; 53];
    let orig = f.clone();
    let r = handle_tcp_ingress(&mut f, &registry, &mut cursors, &mut conns, NOW);
    assert_eq!(r, Err(PacketError::OutOfBounds));
    assert_eq!(f, orig);
    let a = process_packet(&mut f, &registry, &mut cursors, &mut conns, NOW);
    assert_eq!(a, Action::Pass);
    assert_eq!(f, orig);
}

#[test]
fn unknown_service_passes_through_unmodified() {
    let (registry, mut cursors, mut conns) = setup();
    let mut f = frame(0x0a000064, 40000, 0x0a0000ff, 443, false);
    let orig = f.clone();
    let r = handle_tcp_ingress(&mut f, &registry, &mut cursors, &mut conns, NOW);
    assert_eq!(r, Err(PacketError::NotFound));
    assert_eq!(f, orig);
    assert_eq!(conns.len(), 0);
    assert_eq!(cursors.get(service_id()), None);
}

#[test]
fn first_packet_creates_record_and_rewrites() {
    let (registry, mut cursors, mut conns) = setup();
    let mut f = service_frame(0x0a000064, 40000, false);
    let r = handle_tcp_ingress(&mut f, &registry, &mut cursors, &mut conns, NOW);
    assert_eq!(r, Ok(Action::Redirect(B0.ifindex)));
    // destination rewritten to B0, in wire order
    assert_eq!(read_be32(&f, 30), B0.daddr);
    assert_eq!(read_be16(&f, 36), B0.dport as u16);
    // source untouched
    assert_eq!(read_be32(&f, 26), 0x0a000064);
    assert_eq!(read_be16(&f, 34), 40000);
    // rewritten header carries a checksum that validates
    assert!(lb_datapath::checksum::validate_ipv4_checksum(&f));
    // the TCP checksum is deliberately left untouched
    assert_eq!(f[50], 0xaa);
    assert_eq!(f[51], 0xbb);
    // a record was created for the client tuple with the selected backend
    let rec = conns.get(client_id(0x0a000064, 40000)).expect("record");
    assert_eq!(rec.backend, B0);
    assert_eq!(rec.backend_key, BackendKey { ip: SVC_IP, port: SVC_PORT as u32 });
    assert_eq!(rec.tcp_state, TCPState::Fresh);
    // the cursor advanced
    assert_eq!(cursors.get(service_id()), Some(1));
}

#[test]
fn round_robin_alternates_and_flows_stay_sticky() {
    let (registry, mut cursors, mut conns) = setup();
    // Client A's first packet selects B0; the cursor moves to 1.
    let mut fa = service_frame(0x0a000064, 40000, false);
    let ra = handle_tcp_ingress(&mut fa, &registry, &mut cursors, &mut conns, NOW);
    assert_eq!(ra, Ok(Action::Redirect(B0.ifindex)));
    assert_eq!(cursors.get(service_id()), Some(1));
    // Client B's first packet selects B1; the cursor wraps to 0.
    let mut fb = service_frame(0x0a000065, 40001, false);
    let rb = handle_tcp_ingress(&mut fb, &registry, &mut cursors, &mut conns, NOW);
    assert_eq!(rb, Ok(Action::Redirect(B1.ifindex)));
    assert_eq!(read_be32(&fb, 30), B1.daddr);
    assert_eq!(cursors.get(service_id()), Some(0));
    // Client A's later packet still resolves to B0, despite the advances.
    let mut fa2 = service_frame(0x0a000064, 40000, false);
    let ra2 = handle_tcp_ingress(&mut fa2, &registry, &mut cursors, &mut conns, NOW);
    assert_eq!(ra2, Ok(Action::Redirect(B0.ifindex)));
    assert_eq!(read_be32(&fa2, 30), B0.daddr);
    // a tracked packet does not advance the cursor
    assert_eq!(cursors.get(service_id()), Some(0));
}

#[test]
fn round_robin_wraps_over_three_new_connections() {
    let (registry, mut cursors, mut conns) = setup();
    let mut expected = Vec::new();
    expected.push(B0.ifindex);
    expected.push(B1.ifindex);
    expected.push(B0.ifindex);
    for (i, want) in expected.iter().enumerate() {
        let mut f = service_frame(0x0a000070 + i as u32, 50000 + i as u16, false);
        let r = handle_tcp_ingress(&mut f, &registry, &mut cursors, &mut conns, NOW);
        assert_eq!(r, Ok(Action::Redirect(*want)));
    }
    assert_eq!(cursors.get(service_id()), Some(1));
}

#[test]
fn tracked_flow_refreshes_lifecycle_state() {
    let (registry, mut cursors, mut conns) = setup();
    let mut f1 = service_frame(0x0a000064, 40000, false);
    handle_tcp_ingress(&mut f1, &registry, &mut cursors, &mut conns, NOW).unwrap();
    assert_eq!(conns.get(client_id(0x0a000064, 40000)).unwrap().tcp_state, TCPState::Fresh);
    let mut f2 = service_frame(0x0a000064, 40000, false);
    handle_tcp_ingress(&mut f2, &registry, &mut cursors, &mut conns, NOW).unwrap();
    let rec = conns.get(client_id(0x0a000064, 40000)).unwrap();
    assert_eq!(rec.tcp_state, TCPState::Updated);
    assert_eq!(rec.backend, B0);
}

#[test]
fn reset_removes_record_and_next_packet_reenters_selection() {
    let (registry, mut cursors, mut conns) = setup();
    // First packet: tracked on B0, cursor now 1.
    let mut f1 = service_frame(0x0a000064, 40000, false);
    handle_tcp_ingress(&mut f1, &registry, &mut cursors, &mut conns, NOW).unwrap();
    assert!(conns.get(client_id(0x0a000064, 40000)).is_some());
    // Reset packet: still redirected to the recorded backend, record gone.
    let mut f2 = service_frame(0x0a000064, 40000, true);
    let r2 = handle_tcp_ingress(&mut f2, &registry, &mut cursors, &mut conns, NOW);
    assert_eq!(r2, Ok(Action::Redirect(B0.ifindex)));
    assert_eq!(conns.get(client_id(0x0a000064, 40000)), None);
    // The next packet of the same tuple is a new flow: it re-enters
    // selection at the current cursor (1), landing on B1.
    let mut f3 = service_frame(0x0a000064, 40000, false);
    let r3 = handle_tcp_ingress(&mut f3, &registry, &mut cursors, &mut conns, NOW);
    assert_eq!(r3, Ok(Action::Redirect(B1.ifindex)));
    assert_eq!(conns.get(client_id(0x0a000064, 40000)).unwrap().backend, B1);
}

#[test]
fn stale_cursor_is_rejected_not_clamped() {
    let (registry, mut cursors, mut conns) = setup();
    // A cursor at the backend count is stale (as after a list shrink).
    let stored = cursors.insert(service_id(), 5);
    assert!(stored);
    let mut f = service_frame(0x0a000064, 40000, false);
    let orig = f.clone();
    let r = handle_tcp_ingress(&mut f, &registry, &mut cursors, &mut conns, NOW);
    assert_eq!(r, Err(PacketError::InvalidIndex));
    assert_eq!(f, orig);
    assert_eq!(cursors.get(service_id()), Some(5));
    assert_eq!(conns.len(), 0);
    let a = process_packet(&mut f, &registry, &mut cursors, &mut conns, NOW);
    assert_eq!(a, Action::Pass);
}

#[test]
fn full_cursor_store_fails_before_any_mutation() {
    let (registry, _cursors, mut conns) = setup();
    let mut cursors: BoundedMap<u32> = BoundedMap::new(0);
    let mut f = service_frame(0x0a000064, 40000, false);
    let orig = f.clone();
    let r = handle_tcp_ingress(&mut f, &registry, &mut cursors, &mut conns, NOW);
    assert_eq!(r, Err(PacketError::MapOperationFailure));
    assert_eq!(f, orig);
    assert_eq!(conns.len(), 0);
}

#[test]
fn full_connection_table_fails_after_rewrite() {
    let (registry, mut cursors, _conns) = setup();
    let mut conns: BoundedMap<ConnectionRecord> = BoundedMap::new(0);
    let mut f = service_frame(0x0a000064, 40000, false);
    let orig = f.clone();
    let r = handle_tcp_ingress(&mut f, &registry, &mut cursors, &mut conns, NOW);
    assert_eq!(r, Err(PacketError::MapOperationFailure));
    // the rewrite had already happened; the cursor had already advanced
    assert_ne!(f, orig);
    assert_eq!(read_be32(&f, 30), B0.daddr);
    assert_eq!(cursors.get(service_id()), Some(1));
    assert_eq!(conns.len(), 0);
}

#[test]
fn backend_list_reports_count_and_pads_to_capacity() {
    let list = BackendList::from_backends(vec![B0, B1]);
    assert_eq!(list.backends_len, 2);
    assert_eq!(list.backends.len(), 128);
    assert_eq!(list.backends[0], B0);
    assert_eq!(list.backends[1], B1);
}

#[test]
fn bounded_map_insert_get_remove() {
    let mut m: BoundedMap<u32> = BoundedMap::new(2);
    assert_eq!(m.len(), 0);
    assert!(m.insert(10, 1));
    assert!(m.insert(20, 2));
    // full: a third key is refused, an existing key still updates
    assert!(!m.insert(30, 3));
    assert!(m.insert(10, 9));
    assert_eq!(m.get(10), Some(9));
    assert_eq!(m.get(20), Some(2));
    assert_eq!(m.get(30), None);
    m.remove(10);
    assert_eq!(m.get(10), None);
    assert_eq!(m.len(), 1);
    // removing an absent key is not an error
    m.remove(10);
    assert_eq!(m.len(), 1);
}

#[test]
fn distinct_tuples_get_distinct_store_keys() {
    let a = ClientKey { ip: 1, port: 2 }.id();
    let b = ClientKey { ip: 2, port: 1 }.id();
    let c = ClientKey { ip: 1, port: 3 }.id();
    assert_ne!(a, b);
    assert_ne!(a, c);
    assert_ne!(b, c);
}

#[test]
fn records_carry_last_seen_time() {
    let (registry, mut cursors, mut conns) = setup();
    let mut f1 = service_frame(0x0a000064, 40000, false);
    handle_tcp_ingress(&mut f1, &registry, &mut cursors, &mut conns, 100).unwrap();
    assert_eq!(conns.get(client_id(0x0a000064, 40000)).unwrap().last_seen, 100);
    let mut f2 = service_frame(0x0a000064, 40000, false);
    handle_tcp_ingress(&mut f2, &registry, &mut cursors, &mut conns, 250).unwrap();
    assert_eq!(conns.get(client_id(0x0a000064, 40000)).unwrap().last_seen, 250);
}

#[test]
fn idle_flows_are_evicted_active_ones_stay() {
    let (registry, mut cursors, mut conns) = setup();
    let mut f1 = service_frame(0x0a000064, 40000, false);
    handle_tcp_ingress(&mut f1, &registry, &mut cursors, &mut conns, 100).unwrap();
    let mut f2 = service_frame(0x0a000065, 40001, false);
    handle_tcp_ingress(&mut f2, &registry, &mut cursors, &mut conns, 900).unwrap();
    evict_idle(&mut conns, 1_000, 500);
    assert_eq!(conns.get(client_id(0x0a000064, 40000)), None);
    let kept = conns.get(client_id(0x0a000065, 40001)).unwrap();
    assert_eq!(kept.backend, B1);
    assert_eq!(kept.last_seen, 900);
    assert_eq!(conns.len(), 1);
    // a flow exactly `timeout` old is not yet idle
    evict_idle(&mut conns, 1_400, 500);
    assert_eq!(conns.len(), 1);
    evict_idle(&mut conns, 1_401, 500);
    assert_eq!(conns.len(), 0);
}

#[test]
fn cursor_at_exact_count_is_already_stale() {
    let (registry, mut cursors, mut conns) = setup();
    // Two backends: cursor 1 is the last valid value, cursor 2 is stale.
    let stored = cursors.insert(service_id(), 2);
    assert!(stored);
    let mut f = service_frame(0x0a000064, 40000, false);
    let r = handle_tcp_ingress(&mut f, &registry, &mut cursors, &mut conns, NOW);
    assert_eq!(r, Err(PacketError::InvalidIndex));
    let mut cursors2: BoundedMap<u32> = BoundedMap::new(8);
    let stored2 = cursors2.insert(service_id(), 1);
    assert!(stored2);
    let mut f2 = service_frame(0x0a000064, 40000, false);
    let r2 = handle_tcp_ingress(&mut f2, &registry, &mut cursors2, &mut conns, NOW);
    assert_eq!(r2, Ok(Action::Redirect(B1.ifindex)));
}

#[test]
fn control_plane_replaces_a_backend_list() {
    let (mut registry, mut cursors, mut conns) = setup();
    // The control plane shrinks the service to a single backend.
    let key = BackendKey { ip: SVC_IP, port: SVC_PORT as u32 };
    let stored = registry.register(key, BackendList::from_backends(vec![B1]));
    assert!(stored);
    for i in 0..3u16 {
        let mut f = service_frame(0x0a000080 + i as u32, 41000 + i, false);
        let r = handle_tcp_ingress(&mut f, &registry, &mut cursors, &mut conns, NOW);
        assert_eq!(r, Ok(Action::Redirect(B1.ifindex)));
    }
}
