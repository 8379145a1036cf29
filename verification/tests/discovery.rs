use huidu_player::protocol::discovery::{
    build_device_info_packet, build_ext1_packet, run, Beacon, BeaconEvent, BeaconStep,
    Destination, DeviceInfo, BROADCAST_INTERVAL_SECS, DISCOVERY_PORT, PACKET_GAP_MS,
};

const INFO_XML: &str = "<?xml version=\"1.0\" encoding=\"utf-8\"?><DeviceInfo><CPUType Value=\"5\"/><ScreenOnOff Value=\"1\"/><ScreenR Value=\"0\"/><HardwareVersion Value=\"1.0\"/></DeviceInfo>";
const EXT1_XML: &str = "<?xml version=\"1.0\" encoding=\"utf-8\"?><ext1><PlayStatus value=\"1\"/><ProgramIndex index=\"0\"/><ProgramCount count=\"1\" normalCount=\"1\" intercutCount=\"0\"/><DeviceLocker enable=\"0\"/><WifiApPasswd simple=\"1\"/></ext1>";

fn info(id: &str, ip: &str) -> DeviceInfo {
    DeviceInfo {
        device_id: id.to_string(),
        ip_address: ip.to_string(),
        screen_width: 128,
        screen_height: 64,
        player_name: "BoxPlayer".to_string(),
    }
}

#[test]
fn device_info_packet_layout() {
    let packet = build_device_info_packet(&info("RUST-001", "192.168.1.20"));
    let mut want = b"RUST-001\0\0\0\0\0\0\0".to_vec();
    want.extend_from_slice(&[192, 168, 1, 20]);
    want.extend_from_slice(b"BoxPlayer\0");
    want.extend_from_slice(INFO_XML.as_bytes());
    assert_eq!(packet, want);
}

#[test]
fn long_identifier_is_cut_off() {
    let packet = build_ext1_packet(&info("0123456789abcdefXYZ", "1.2.3.4"));
    let mut want = b"0123456789abcde".to_vec();
    want.extend_from_slice(EXT1_XML.as_bytes());
    assert_eq!(packet, want);
    let packet = build_ext1_packet(&info("", "1.2.3.4"));
    assert_eq!(&packet[..15], &[0u8; 15]);
    assert_eq!(packet.len(), 15 + EXT1_XML.len());
}

fn address(ip: &str) -> Vec<u8> {
    build_device_info_packet(&info("x", ip))[15..19].to_vec()
}

#[test]
fn address_that_does_not_write_four_bytes_is_zero() {
    assert_eq!(address("10.0.0.1"), vec![10, 0, 0, 1]);
    assert_eq!(address("255.255.255.255"), vec![255, 255, 255, 255]);
    assert_eq!(address("0.0.0.0"), vec![0, 0, 0, 0]);
    assert_eq!(address(""), vec![0, 0, 0, 0]);
    assert_eq!(address("10.0.0"), vec![0, 0, 0, 0]);
    assert_eq!(address("10.0.0.1.5"), vec![0, 0, 0, 0]);
    assert_eq!(address("256.1.2.3"), vec![0, 0, 0, 0]);
    assert_eq!(address("fe80::1"), vec![0, 0, 0, 0]);
    // parts that write no byte are left out
    assert_eq!(address("1.x.2.3.4"), vec![1, 2, 3, 4]);
    assert_eq!(address("1..2.3.4"), vec![1, 2, 3, 4]);
    assert_eq!(address("1.2.3.4.999"), vec![1, 2, 3, 4]);
    assert_eq!(address("+1.02.003.4"), vec![1, 2, 3, 4]);
}

type Step = (Option<Vec<u8>>, Option<Destination>, u64);

fn steps_of(device: &DeviceInfo, event: BeaconEvent) -> Vec<Step> {
    let service = Beacon::new(device);
    run(&service, event)
        .into_iter()
        .map(|step| match step {
            BeaconStep::Send { packet, to } => (Some(packet), Some(to), 0),
            BeaconStep::Pause { ms } => (None, None, ms),
        })
        .collect()
}

fn announcement(device: &DeviceInfo, to: Destination) -> Vec<Step> {
    vec![
        (Some(build_device_info_packet(device)), Some(to), 0),
        (None, None, 50),
        (Some(build_ext1_packet(device)), Some(to), 0),
    ]
}

#[test]
fn any_datagram_of_two_bytes_is_answered() {
    let device = info("RUST-001", "10.0.0.1");
    for len in [0usize, 1] {
        assert!(steps_of(&device, BeaconEvent::Datagram { len }).is_empty());
    }
    for len in [2usize, 3, 100, 2048, usize::MAX] {
        assert_eq!(
            steps_of(&device, BeaconEvent::Datagram { len }),
            announcement(&device, Destination::Sender)
        );
    }
    assert_eq!(DISCOVERY_PORT, 9527);
    assert_eq!(PACKET_GAP_MS, 50);
}

#[test]
fn every_tick_broadcasts_both_packets() {
    let device = info("RUST-001", "10.0.0.1");
    assert_eq!(steps_of(&device, BeaconEvent::Tick), announcement(&device, Destination::Broadcast));
    assert_eq!(BROADCAST_INTERVAL_SECS, 3);
}
