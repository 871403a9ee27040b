use csp::id::CspId;
use csp::node::Csp;
use csp::types::Packet;
use csp::utils::test_buffer;

#[test]
fn test_csp_id() {
    // ID taken from client_server_test
    let id = CspId {
        priority: 2,
        flags: 0x0,
        source: 0,
        destination: 0,
        dport: 10,
        sport: 18,
    };

    let data = [0x00, 0x00, 0x80, 0x00, 0x00, 0x00, 0xA4, 0x80];
    let stripped = Packet::strip_id(data);
    assert_eq!(id, stripped);

    let data = vec![0x80, 0x00, 0x00, 0x00, 0xA4, 0x80];
    assert_eq!(data, Packet::prepend_id(&id));
}

#[test]
fn test_loopback_send_direct() {
    let mut csp = Csp::default();
    csp.add_interface("loopback");

    let packet = Packet::from(256, test_buffer());
    let to_send = packet.clone();

    csp.send_from_list(0, to_send);
    let rec = csp.read();
    assert_eq!(packet, rec);
}

#[test]
fn test_loopback_route_to_socket_conn() {
    let mut csp = Csp::default();
    csp.add_interface("loopback");

    // send packet on buffer (enqueue on global qfifo)
    let packet = Packet::from(256, test_buffer());
    let to_send = packet.clone();

    let connection = csp.connect(2, 0, 10).unwrap();
    let destination = csp.connection(connection).dport();

    let sent = csp.sendto(2, 0, destination, 10, to_send);

    // make sure packet was actually sent
    assert_eq!(true, sent.is_ok());

    let _ = csp.route_work();

    let rec = csp.conn_read(connection).unwrap();

    assert_eq!(packet.data(), rec.data())
}

#[test]
fn test_udp_rec_send() {
    // csp
    // add udp
    // rec packet that says to send back on interface
    // nexthop
    // rec on other socket
    // compare
}
