use csp::config::{parse_interface, parse_u16, split_words, InterfaceType};
use csp::connection::{Connection, ConnectionState, ConnectionType};
use csp::id::CspId;
use csp::interfaces::{CspInterfaceState, DrainInterface, Hop, InterfaceKind, LoopbackInterface, NextHop};
use csp::node::{Csp, ServicePort};
use csp::port::{Port, Socket};
use csp::qfifo::CspQfifo;
use csp::router::{Routed, Router, PORT_ANY};
use csp::types::{CspError, Packet};
use csp::utils::{dump_rows, test_buffer};

fn id(priority: u8, flags: u8, source: u16, destination: u16, dport: u8, sport: u8) -> CspId {
    CspId { priority, flags, source, destination, dport, sport }
}

fn frame_with_header(header: [u8; 6]) -> [u8; 256] {
    let mut buf = test_buffer();
    buf[..6].copy_from_slice(&header);
    buf
}

fn chars(s: &str) -> Vec<char> {
    s.chars().collect()
}

#[test]
fn header_roundtrip_on_full_fields() {
    let original = id(3, 63, 0x3fff, 0x1234, 63, 5);
    let bytes = Packet::prepend_id(&original);
    assert_eq!(bytes.len(), 6);
    let mut raw = [0u8; 8];
    raw[2..].copy_from_slice(&bytes);
    assert_eq!(Packet::strip_id(raw), original);
}

#[test]
fn header_bytes_roundtrip() {
    let raw = [0x12, 0x34, 0xDE, 0xAD, 0xBE, 0xEF, 0x01, 0x23];
    let decoded = Packet::strip_id(raw);
    assert_eq!(Packet::prepend_id(&decoded), vec![0xDE, 0xAD, 0xBE, 0xEF, 0x01, 0x23]);
}

#[test]
fn strip_id_ignores_leading_bytes() {
    let a = Packet::strip_id([0xFF, 0xFF, 0x80, 0x00, 0x00, 0x00, 0xA4, 0x80]);
    let b = Packet::strip_id([0x00, 0x00, 0x80, 0x00, 0x00, 0x00, 0xA4, 0x80]);
    assert_eq!(a, b);
}

#[test]
fn strip_id_all_ones() {
    let decoded = Packet::strip_id([0, 0, 0xFF, 0xFF, 0xFF, 0xFF, 0xFF, 0xFF]);
    assert_eq!(decoded, id(3, 63, 0x3fff, 0x3fff, 63, 63));
}

#[test]
fn prepend_id_cuts_fields_to_width() {
    let wide = id(2 + 4, 0, 0, 0x4001, 10 + 64, 18);
    let narrow = id(2, 0, 0, 0x0001, 10, 18);
    assert_eq!(Packet::prepend_id(&wide), Packet::prepend_id(&narrow));
}

#[test]
fn packet_from_frame_and_back() {
    let buf = test_buffer();
    let p = Packet::from(20, buf);
    assert_eq!(p.len(), 20);
    assert_eq!(p.header(), &[0xFF; 6]);
    assert_eq!(p.data(), &buf[6..20]);
    assert_eq!(*p.id(), id(3, 63, 0x3fff, 0x3fff, 63, 63));
    assert_eq!(p.make_buffer(), buf[..20].to_vec());
}

#[test]
fn packet_new_keeps_given_id() {
    let given = id(1, 2, 3, 4, 5, 6);
    let p = Packet::new(6, test_buffer(), given);
    assert_eq!(*p.id(), given);
    assert!(p.data().is_empty());
    assert_eq!(p.make_buffer(), vec![0xFF; 6]);
}

#[test]
fn set_id_rewrites_header() {
    let mut p = Packet::from(10, test_buffer());
    let new_id = id(2, 0, 0, 0, 10, 18);
    p.set_id(new_id);
    assert_eq!(*p.id(), new_id);
    assert_eq!(p.header(), &[0x80, 0x00, 0x00, 0x00, 0xA4, 0x80]);
    assert_eq!(p.len(), 10);
    assert_eq!(p.data(), &[0, 1, 2, 3]);
}

#[test]
fn test_buffer_layout() {
    let buf = test_buffer();
    assert!(buf[..6].iter().all(|&b| b == 0xFF));
    assert_eq!(buf[6], 0);
    assert_eq!(buf[7], 1);
    assert_eq!(buf[255], 249);
}

#[test]
fn csp_id_copy_and_default() {
    let mut a = CspId::default();
    assert_eq!(a, id(0, 0, 0, 0, 0, 0));
    a.copy_from(id(1, 2, 3, 4, 5, 6));
    assert_eq!(a, id(1, 2, 3, 4, 5, 6));
    assert_eq!(a.dport(), 5);
}

#[test]
fn qfifo_is_first_in_first_out() {
    let mut q = CspQfifo::new();
    assert!(q.pop().is_none());
    let a = Packet::from(7, frame_with_header([1, 0, 0, 0, 0, 0]));
    let b = Packet::from(8, frame_with_header([2, 0, 0, 0, 0, 0]));
    assert_eq!(q.push(a.clone(), 0), 0);
    assert_eq!(q.push(b.clone(), 1), 0);
    assert_eq!(q.len(), 2);
    let (pa, ia) = q.pop().unwrap();
    let (pb, ib) = q.pop().unwrap();
    assert_eq!((pa, ia), (a, 0));
    assert_eq!((pb, ib), (b, 1));
    assert!(q.pop().is_none());
}

#[test]
fn connection_queue_and_state() {
    let sid = id(0, 0, 0, 0, 7, 0);
    let did = id(0, 0, 0, 0, 0, 7);
    let mut c = Connection::new(sid, did, ConnectionType::Client, 7);
    assert_eq!(c.conn_state(), ConnectionState::Closed);
    assert_eq!(c.conn_type(), ConnectionType::Client);
    assert_eq!(*c.id_in(), sid);
    assert_eq!(*c.id_out(), did);
    assert_eq!(c.dport(), 7);
    assert!(c.read().is_none());
    let a = Packet::from(7, test_buffer());
    let b = Packet::from(9, test_buffer());
    c.push(a.clone());
    c.push(b.clone());
    assert_eq!(c.read(), Some(a));
    assert_eq!(c.read(), Some(b));
    assert!(c.read().is_none());
    c.open();
    assert_eq!(c.conn_state(), ConnectionState::Open);
    c.close();
    assert_eq!(c.conn_state(), ConnectionState::Closed);
    c.into_server();
    assert_eq!(c.conn_type(), ConnectionType::Server);
    c.into_client();
    assert_eq!(c.conn_type(), ConnectionType::Client);
    assert_eq!(c.get_destination_socket(), None);
    c.set_destination_socket(3);
    assert_eq!(c.get_destination_socket(), Some(3));
    c.set_ids(did, sid);
    assert_eq!(*c.id_in(), did);
    assert_eq!(*c.id_out(), sid);
}

#[test]
fn connection_default_is_closed_client() {
    let c = Connection::default();
    assert_eq!(c.conn_state(), ConnectionState::Closed);
    assert_eq!(c.conn_type(), ConnectionType::Client);
    assert_eq!(*c.id_in(), CspId::default());
}

#[test]
fn socket_accept_takes_the_connection() {
    let mut s = Socket::conn();
    assert!(!s.is_conn_less());
    assert_eq!(s.accept(), None);
    s.set_conn(4);
    s.set_conn(5);
    assert_eq!(s.accept(), Some(5));
    assert_eq!(s.accept(), None);
}

#[test]
fn socket_receive_in_order() {
    let mut s = Socket::conn_less();
    assert!(s.is_conn_less());
    let a = Packet::from(7, test_buffer());
    let b = Packet::from(8, test_buffer());
    s.push(a.clone());
    s.push(b.clone());
    assert_eq!(s.receive(), Some(a));
    assert_eq!(s.receive(), Some(b));
    assert_eq!(s.receive(), None);
}

#[test]
fn port_open_and_close() {
    let mut p = Port::bind(Socket::conn());
    assert!(p.is_open());
    p.close();
    assert!(!p.is_open());
    assert!(!Port::closed().is_open());
}

#[test]
fn interface_state_counters() {
    let mut s = CspInterfaceState::from_name("eth");
    assert_eq!(s.address(), 0);
    assert_eq!(s.rx(), 0);
    s.increment_rx();
    s.increment_rx();
    assert_eq!(s.rx(), 2);
    s.increment_tx();
    let shown = format!("{:?}", s);
    assert!(shown.contains("tx: 1"));
    assert!(shown.contains("\"eth\""));
    let d = DrainInterface::new();
    assert!(format!("{:?}", d).contains("\"Drain\""));
    let l = LoopbackInterface::init(3);
    assert!(format!("{:?}", l).contains("index: 3"));
}

#[test]
fn service_ports() {
    assert_eq!(Csp::check_service_port(0), ServicePort::Compare);
    assert_eq!(Csp::check_service_port(1), ServicePort::Ping);
    assert_eq!(Csp::check_service_port(2), ServicePort::Port(2));
    assert_eq!(Csp::check_service_port(4), ServicePort::Reboot);
    assert_eq!(Csp::check_service_port(6), ServicePort::Uptime);
    assert_eq!(Csp::check_service_port(200), ServicePort::Port(200));
}

#[test]
fn descriptions_are_parsed() {
    assert_eq!(parse_interface("loopback"), Some(InterfaceType::Loopback));
    assert_eq!(parse_interface("drain"), Some(InterfaceType::Drain));
    assert_eq!(parse_interface("loopback extra"), Some(InterfaceType::Loopback));
    assert_eq!(
        parse_interface("udp 8080 8090"),
        Some(InterfaceType::Udp { lport: 8080, rport: 8090 })
    );
    assert_eq!(
        parse_interface("udp +1 65535 more"),
        Some(InterfaceType::Udp { lport: 1, rport: 65535 })
    );
    assert_eq!(parse_interface("udp 65536 1"), None);
    assert_eq!(parse_interface("udp 8080"), None);
    assert_eq!(parse_interface("udp  8080 8090"), None);
    assert_eq!(parse_interface("udp -1 2"), None);
    assert_eq!(parse_interface("eth"), None);
    assert_eq!(parse_interface(""), None);
    assert_eq!(parse_interface(" loopback"), None);
}

#[test]
fn words_and_numbers() {
    assert_eq!(split_words("a  b"), vec![chars("a"), chars(""), chars("b")]);
    assert_eq!(split_words(""), vec![chars("")]);
    assert_eq!(parse_u16(&chars("+")), None);
    assert_eq!(parse_u16(&chars("")), None);
    assert_eq!(parse_u16(&chars("007")), Some(7));
    assert_eq!(parse_u16(&chars("99999")), None);
    assert_eq!(parse_u16(&chars("12a")), None);
}

#[test]
fn add_interface_appends() {
    let mut csp = Csp::default();
    csp.add_interface("loopback");
    csp.add_interface("drain");
    csp.add_interface("udp 8080 8090");
    assert_eq!(csp.num_interfaces, 3);
    assert_eq!(csp.interfaces[0].kind(), InterfaceKind::Loopback { index: 0 });
    assert_eq!(csp.interfaces[1].kind(), InterfaceKind::Drain);
    assert_eq!(csp.interfaces[2].kind(), InterfaceKind::Udp { lport: 8080, rport: 8090 });
}

#[test]
fn drain_consumes() {
    let mut csp = Csp::default();
    csp.add_interface("drain");
    let p = Packet::from(30, test_buffer());
    match csp.send_from_list(0, p.clone()) {
        Hop::Drained(q) => assert_eq!(q, p),
        other => panic!("unexpected {:?}", other),
    }
    assert_eq!(csp.qfifo.len(), 0);
}

#[test]
fn udp_transmits_frame() {
    let mut csp = Csp::default();
    csp.add_interface("udp 8090 35535");
    let p = Packet::from(20, test_buffer());
    match csp.sendto(2, 0, 10, 18, p) {
        Ok(Hop::Transmit { iface, frame }) => {
            assert_eq!(iface, 0);
            let mut expected = vec![0x80, 0x00, 0x00, 0x00, 0xA4, 0xBF];
            expected.extend((0u8..14).collect::<Vec<u8>>());
            assert_eq!(frame, expected);
        }
        other => panic!("unexpected {:?}", other),
    }
}

#[test]
fn echo_replies_to_source() {
    let mut csp = Csp::default();
    csp.add_interface("loopback");
    let mut p = Packet::from(10, test_buffer());
    p.set_id(id(1, 4, 5, 0, 1, 9));
    let _ = csp.echo(p);
    let back = csp.read();
    assert_eq!(*back.id(), id(1, 4, 0, 5, 9, 1));
}

#[test]
fn route_work_on_empty_queue() {
    let mut csp = Csp::default();
    csp.add_interface("loopback");
    assert!(matches!(csp.route_work(), Err(CspError::EmptyQfifo)));
}

#[test]
fn route_work_forwards_foreign_packets() {
    let mut csp = Csp::default();
    csp.add_interface("loopback");
    let p = Packet::from(10, test_buffer());
    let _ = csp.sendto(2, 7, 3, 4, p);
    match csp.route_work() {
        Ok(Routed::Forwarded(Hop::Queued(0))) => {}
        other => panic!("unexpected {:?}", other),
    }
    assert_eq!(csp.interfaces[0].get_state().rx(), 1);
    assert_eq!(csp.qfifo.len(), 1);
    assert_eq!(csp.read().id().destination, 7);
}

#[test]
fn route_work_to_connectionless_socket() {
    let mut csp = Csp::default();
    csp.add_interface("loopback");
    assert_eq!(csp.bind(Socket::conn_less(), 3).ok(), Some(3));
    let p = Packet::from(12, test_buffer());
    let _ = csp.sendto(2, 0, 3, 9, p.clone());
    match csp.route_work() {
        Ok(Routed::ToSocket(3)) => {}
        other => panic!("unexpected {:?}", other),
    }
    let got = csp.router.receive(3).unwrap();
    assert_eq!(got.data(), p.data());
    assert!(csp.router.receive(3).is_none());
}

#[test]
fn route_work_offers_connection_on_socket() {
    let mut csp = Csp::default();
    csp.add_interface("loopback");
    assert_eq!(csp.bind(Socket::conn(), 7).ok(), Some(7));
    let p = Packet::from(12, test_buffer());
    let _ = csp.sendto(2, 0, 7, 9, p.clone());
    match csp.route_work() {
        Ok(Routed::ToConnection(7)) => {}
        other => panic!("unexpected {:?}", other),
    }
    assert_eq!(csp.accept(7), Some(7));
    assert_eq!(csp.accept(7), None);
    assert_eq!(csp.conn_read(7).unwrap().data(), p.data());
}

#[test]
fn route_work_opens_server_connection() {
    let mut csp = Csp::default();
    csp.add_interface("loopback");
    let p = Packet::from(12, test_buffer());
    let _ = csp.sendto(1, 0, 40, 9, p);
    match csp.route_work() {
        Ok(Routed::ToConnection(0)) => {}
        other => panic!("unexpected {:?}", other),
    }
    let c = csp.connection(0);
    assert_eq!(c.conn_type(), ConnectionType::Server);
    assert_eq!(c.conn_state(), ConnectionState::Closed);
    assert_eq!(*c.id_in(), id(1, 63, 0, 0, 40, 9));
    assert_eq!(*c.id_out(), id(1, 63, 0, 0, 9, 40));
}

#[test]
fn route_work_without_free_connection() {
    let mut csp = Csp::default();
    csp.add_interface("loopback");
    for i in 0..16 {
        assert_eq!(csp.connect(0, 1, 2).ok(), Some(i));
    }
    assert!(matches!(csp.connect(0, 1, 2), Err(CspError::ClosedConnection)));
    let _ = csp.sendto(1, 0, 40, 9, Packet::from(12, test_buffer()));
    assert!(matches!(csp.route_work(), Err(CspError::ClosedConnection)));
    assert_eq!(csp.qfifo.len(), 0);
}

#[test]
fn connect_uses_first_closed_connection() {
    let mut csp = Csp::default();
    let first = csp.connect(0, 5, 6).unwrap();
    let second = csp.connect(0, 5, 6).unwrap();
    assert_eq!((first, second), (0, 1));
    assert_eq!(csp.connection(first).dport(), 0);
    assert_eq!(csp.connection(second).dport(), 1);
    assert_eq!(*csp.connection(first).id_in(), id(0, 0, 5, 0, 0, 6));
    assert_eq!(*csp.connection(first).id_out(), id(0, 0, 0, 5, 6, 0));
    assert_eq!(*csp.connection(second).id_in(), id(0, 0, 5, 0, 1, 6));
    assert_eq!(*csp.connection(second).id_out(), id(0, 0, 0, 5, 6, 1));
    csp.conn_close(first);
    assert_eq!(csp.connection(first).conn_state(), ConnectionState::Closed);
    assert_eq!(csp.connect(0, 5, 6).ok(), Some(0));
}

#[test]
fn send_needs_open_connection() {
    let mut csp = Csp::default();
    csp.add_interface("loopback");
    let p = Packet::from(12, test_buffer());
    assert!(matches!(csp.send(3, p.clone()), Err(CspError::ClosedConnection)));
    let c = csp.connect(2, 5, 6).unwrap();
    assert!(matches!(csp.send(c, p), Ok(Hop::Queued(0))));
    assert_eq!(*csp.read().id(), id(2, 0, 0, 5, 6, c as u8));
}

#[test]
fn bind_beyond_last_port() {
    let mut csp = Csp::default();
    assert!(matches!(csp.bind(Socket::conn(), 17), Err(CspError::InvalidPort)));
    assert!(matches!(csp.bind(Socket::conn(), PORT_ANY), Err(CspError::InvalidPort)));
    assert_eq!(csp.bind(Socket::conn(), 15).ok(), Some(15));
}

#[test]
fn find_client_connection_by_port() {
    let mut router = Router::new();
    assert_eq!(router.connection_find_dport(5), Some(5));
    assert_eq!(router.connection_find_dport(40), None);
    let c = router.connect(0, 1, 2).unwrap();
    assert_eq!(c, 0);
    assert_eq!(router.connection_find_dport(0), Some(0));
    router.conn_close(0);
    assert_eq!(router.connection_find_dport(1), Some(1));
}

#[test]
fn hex_dump_rows() {
    let buf: Vec<u8> = (0u8..16).collect();
    let rows = dump_rows(&buf, 10);
    assert_eq!(rows.len(), 2);
    assert_eq!(rows[0].offset, 0);
    assert_eq!(rows[0].hex.iter().collect::<String>(), "00 01 02 03 04 05 06 07 ");
    assert_eq!(rows[1].offset, 16);
    assert_eq!(rows[1].hex.iter().collect::<String>(), "08 09 XX XX XX XX XX XX ");
    let text: Vec<u8> = b"Hi there".to_vec();
    let rows = dump_rows(&text, 8);
    assert_eq!(rows.len(), 1);
    assert_eq!(rows[0].ascii.iter().collect::<String>(), "Hi there");
    assert_eq!(rows[0].hex.len(), 48);
    assert!(dump_rows(&text, 0).is_empty());
}

#[test]
fn test_connection_pool() {
    let mut csp = Csp::default();
    let first = csp.connect(0, 0, 0).unwrap();
    let second = csp.connect(0, 0, 0).unwrap();
    assert_eq!(0, csp.connection(first).dport());
    assert_eq!(1, csp.connection(second).dport());
}

#[test]
fn replies_reach_their_own_connection() {
    // Two connections opened to the same peer port: a packet sent to the
    // second one's port is queued on the second one, not the first.
    let mut csp = Csp::default();
    csp.add_interface("loopback");
    let first = csp.connect(2, 0, 10).unwrap();
    let second = csp.connect(2, 0, 10).unwrap();
    let port = csp.connection(second).dport();
    let _ = csp.sendto(2, 0, port, 10, Packet::from(12, test_buffer()));
    match csp.route_work() {
        Ok(Routed::ToConnection(c)) => assert_eq!(c, second),
        other => panic!("unexpected {:?}", other),
    }
    assert!(csp.conn_read(first).is_none());
    assert!(csp.conn_read(second).is_some());
}

#[test]
fn front_interface_of_queue() {
    let mut q = CspQfifo::new();
    assert_eq!(q.front_interface(), None);
    q.push(Packet::from(6, test_buffer()), 2);
    q.push(Packet::from(6, test_buffer()), 5);
    assert_eq!(q.front_interface(), Some(2));
    let _ = q.pop();
    assert_eq!(q.front_interface(), Some(5));
}

#[test]
fn increment_is_seen_by_later_state() {
    let mut csp = Csp::default();
    csp.add_interface("loopback");
    let before = csp.interfaces[0].get_state().rx();
    csp.interfaces[0].increment_rx();
    assert_eq!(csp.interfaces[0].get_state().rx(), before + 1);
    assert_eq!(csp.interfaces[0].get_state().rx(), csp.interfaces[0].get_state().rx());
}
