use printctl::config::ServerConfig;
use printctl::devices::{device_record_from_port, Device};
use printctl::discovery::{DiscoveryConfig, Node, Peer};
use printctl::error::Error;
use printctl::layout::{modal_layout, stacked_layout, Modal, ScreenRect, StackedLayout};
use printctl::rpc::{available_devices_response, device_event_from_line};

#[test]
fn discovery_lifecycle_repeats_and_idle_nodes_have_no_peers() {
    let mut node = Node::new(DiscoveryConfig::new(String::from("unit")));
    assert!(node.peers().is_empty());
    assert!(!node.advertised);
    for _ in 0..3 {
        node.start_discovery();
        assert!(node.advertised);
        node.record_peer(Peer::new(String::from("other"), vec![String::from("10.0.0.2")], vec![]));
        assert_eq!(node.peers().len(), 1);
        node.stop_discovery();
        assert!(node.peers().is_empty());
        assert!(!node.advertised);
    }
    assert_eq!(node.name(), "unit");
}

#[test]
fn discovery_constants_match_the_wire_contract() {
    assert_eq!(printctl::discovery::mdns_service_name(), "_printctl._tcp.local");
    assert_eq!(printctl::discovery::MDNS_SERVICE_PORT, 8090);
    assert_eq!(printctl::discovery::MDNS_DEFAULT_TTL, 60);
}

#[test]
fn server_config_defaults_cover_missing_fields() {
    let c = ServerConfig::new(String::from("n"), None, None);
    assert_eq!(c.grpc_address(), "0.0.0.0");
    assert_eq!(c.grpc_port(), 50051);
    let d = ServerConfig::new(String::from("n"), Some(String::from("127.0.0.1")), Some(9000));
    assert_eq!(d.grpc_socket().0, "127.0.0.1");
    assert_eq!(d.grpc_socket().1, 9000);
}

#[test]
fn device_fields_fall_back_to_placeholders() {
    let d = Device::from_parts(String::from("/dev/ttyACM0"), None, Some(String::from("Board")), None);
    assert_eq!(d.path(), "/dev/ttyACM0");
    assert_eq!(d.vendor(), "--");
    assert_eq!(d.product(), "Board");
    assert_eq!(d.usb(), "--");
}

#[test]
fn wire_device_records_default_absent_usb_fields() {
    let r = device_record_from_port(String::from("COM3"), Some((0x2341, 0x0042, None, Some(String::from("Arduino")), None)));
    assert_eq!(r.port_name, "COM3");
    assert_eq!(r.vendor_id, 0x2341);
    assert_eq!(r.product_id, 0x0042);
    assert_eq!(r.serial_number, "");
    assert_eq!(r.manufacturer, "Arduino");
    let bare = device_record_from_port(String::from("COM4"), None);
    assert_eq!(bare.vendor_id, 0);
    assert_eq!(bare.manufacturer, "");
}

#[test]
fn rpc_messages_carry_their_payloads_verbatim() {
    let event = device_event_from_line(b"ok T:200".to_vec());
    assert_eq!(event.message, b"ok T:200".to_vec());
    let reply = available_devices_response(vec![device_record_from_port(String::from("p"), None)]);
    assert_eq!(reply.devices.len(), 1);
}

#[test]
fn modal_layout_centres_a_half_by_third_rectangle() {
    let area = ScreenRect { x: 0, y: 0, width: 80, height: 24 };
    let (modal, content) = modal_layout(area);
    assert_eq!(modal.width, 40);
    assert_eq!(modal.height, 8);
    assert_eq!(modal.x, 20);
    assert_eq!(modal.y, 8);
    assert_eq!(content.x, 21);
    assert_eq!(content.height, 6);
}

#[test]
fn stacked_layout_reserves_one_line_at_each_edge() {
    let area = ScreenRect { x: 2, y: 3, width: 10, height: 7 };
    let (header, content, footer) = stacked_layout(area);
    assert_eq!(header.y, 3);
    assert_eq!(header.height, 1);
    assert_eq!(content.y, 4);
    assert_eq!(content.height, 5);
    assert_eq!(footer.y, 9);
}

#[test]
fn layout_builders_fill_their_slots() {
    let modal = Modal::new(String::from("confirm")).content(7u32).title(String::from("sure?"));
    assert_eq!(modal.title, "sure?");
    assert_eq!(modal.content, 7);
    let stack = StackedLayout::new().header(1u8).content(2u8).footer(3u8);
    assert_eq!((stack.header, stack.content, stack.footer), (1, 2, 3));
}

#[test]
fn error_kinds_name_themselves() {
    assert_eq!(Error::NotConnected.kind_name(), "not connected");
    assert_eq!(Error::Timeout.kind_name(), "timeout");
    assert_eq!(Error::Firmware(b"Error:1".to_vec()).kind_name(), "firmware");
}

#[test]
fn enumeration_runs_without_panicking() {
    // environmental: the host may list no devices at all
    let _ = printctl::devices::list_devices();
}
