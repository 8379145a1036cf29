//! The UDP discovery dialect on port 9527: the packets by which the device
//! announces itself.

use crate::text::find;
use crate::text::find_bytes;
use crate::text::lemma_find_from;
use crate::text::matches_at;
use crate::text::parse_decimal;
use crate::text::parse_number;
use vstd::prelude::*;
use vstd::slice::slice_subrange;
use vstd::string::*;
use vstd::utf8::*;

verus! {

/// The UDP port that the discovery dialect uses.
pub const DISCOVERY_PORT: u16 = 9527;

/// The seconds between two broadcasts of the device's packets.
pub const BROADCAST_INTERVAL_SECS: u64 = 3;

/// The milliseconds between the two packets of an announcement.
pub const PACKET_GAP_MS: u64 = 50;

/// The length to which the device identifier is padded.
pub const DEVICE_ID_BYTES: usize = 15;

/// What the device says of itself.
#[derive(Debug, Clone)]
pub struct DeviceInfo {
    pub device_id: String,
    pub ip_address: String,
    pub screen_width: u16,
    pub screen_height: u16,
    pub player_name: String,
}

/// The device identifier in its field of 15 bytes: cut off or padded with
/// NUL bytes.
pub open spec fn id_field(id: Seq<u8>) -> Seq<u8> {
    Seq::new(
        15,
        |i: int|
            if i < id.len() {
                id[i]
            } else {
                0u8
            },
    )
}

/// The dot between the parts of an address.
pub open spec fn dot() -> Seq<u8> {
    seq![0x2eu8]
}

/// The part of an address as a byte, where it writes a number up to 255.
pub open spec fn octet(part: Seq<u8>) -> Seq<u8> {
    match parse_decimal(part, 255) {
        Some(v) => seq![v as u8],
        None => Seq::empty(),
    }
}

/// The bytes that the dot-separated parts of a text write, leaving out the
/// parts that write none.
pub open spec fn octets(s: Seq<u8>) -> Seq<u8>
    decreases s.len(),
{
    match find(s, dot()) {
        Some(i) => if 0 <= i < s.len() {
            octet(s.subrange(0, i)) + octets(s.subrange(i + 1, s.len() as int))
        } else {
            Seq::empty()
        },
        None => octet(s),
    }
}

/// The address field: the four bytes that the address writes, or four zero
/// bytes where it does not write four.
pub open spec fn address_field(ip: Seq<u8>) -> Seq<u8> {
    if octets(ip).len() == 4 {
        octets(ip)
    } else {
        seq![0u8, 0u8, 0u8, 0u8]
    }
}

/// The XML that the device info packet carries.
pub open spec fn device_info_xml() -> Seq<u8> {
    "<?xml version=\"1.0\" encoding=\"utf-8\"?><DeviceInfo><CPUType Value=\"5\"/><ScreenOnOff Value=\"1\"/><ScreenR Value=\"0\"/><HardwareVersion Value=\"1.0\"/></DeviceInfo>".spec_bytes()
}

/// The XML that the status packet carries.
pub open spec fn ext1_xml() -> Seq<u8> {
    "<?xml version=\"1.0\" encoding=\"utf-8\"?><ext1><PlayStatus value=\"1\"/><ProgramIndex index=\"0\"/><ProgramCount count=\"1\" normalCount=\"1\" intercutCount=\"0\"/><DeviceLocker enable=\"0\"/><WifiApPasswd simple=\"1\"/></ext1>".spec_bytes()
}

/// The device info packet: identifier field, address field, the player's
/// name with a NUL byte behind it, the device info XML.
pub open spec fn device_info_packet(id: Seq<u8>, ip: Seq<u8>, name: Seq<u8>) -> Seq<u8> {
    id_field(id) + address_field(ip) + name + seq![0u8] + device_info_xml()
}

/// The status packet: identifier field and status XML.
pub open spec fn ext1_packet(id: Seq<u8>) -> Seq<u8> {
    id_field(id) + ext1_xml()
}

/// Appends the identifier field.
fn push_id_field(packet: &mut Vec<u8>, id: &[u8])
    ensures
        final(packet)@ == old(packet)@ + id_field(id@),
{
    let n: usize = id.len();
    let mut i: usize = 0;
    while i < DEVICE_ID_BYTES
        invariant
            i <= 15,
            n == id@.len(),
            packet@.len() == old(packet)@.len() + i,
            forall|j: int| 0 <= j < old(packet)@.len() ==> packet@[j] == old(packet)@[j],
            forall|j: int| 0 <= j < i ==> packet@[old(packet)@.len() + j] == id_field(id@)[j],
        decreases 15 - i,
    {
        if i < n {
            packet.push(id[i]);
        } else {
            packet.push(0);
        }
        i += 1;
    }
    assert(packet@ =~= old(packet)@ + id_field(id@));
}

/// The bytes that the dot-separated parts of a text write.
fn parse_octets(ip: &[u8]) -> (r: Vec<u8>)
    ensures
        r@ == octets(ip@),
{
    let sep: Vec<u8> = vec![0x2eu8];
    assert(sep@ =~= dot());
    let n: usize = ip.len();
    let mut r: Vec<u8> = Vec::new();
    let mut from: usize = 0;
    assert(ip@.subrange(0, n as int) =~= ip@);
    loop
        invariant_except_break
            octets(ip@) == r@ + octets(ip@.subrange(from as int, n as int)),
        invariant
            from <= n,
            n == ip@.len(),
            sep@ == dot(),
        ensures
            r@ == octets(ip@),
        decreases n - from,
    {
        let rest = slice_subrange(ip, from, n);
        let ghost before = r@;
        match find_bytes(rest, sep.as_slice()) {
            Some(i) => {
                proof {
                    lemma_find_from(rest@, sep@, 0);
                    assert(matches_at(rest@, sep@, i as int));
                    assert(rest@.subrange(i + 1, rest@.len() as int) =~= ip@.subrange(
                        from + i + 1,
                        n as int,
                    ));
                }
                match parse_number(slice_subrange(rest, 0, i), 255) {
                    Some(v) => {
                        r.push(v as u8);
                    },
                    None => {},
                }
                assert(r@ =~= before + octet(rest@.subrange(0, i as int)));
                assert(r@ + octets(ip@.subrange(from + i + 1, n as int)) =~= before + (octet(
                    rest@.subrange(0, i as int),
                ) + octets(rest@.subrange(i + 1, rest@.len() as int))));
                from = from + i + 1;
            },
            None => {
                match parse_number(rest, 255) {
                    Some(v) => {
                        r.push(v as u8);
                    },
                    None => {},
                }
                assert(r@ =~= before + octet(rest@));
                break ;
            },
        }
    }
    r
}

/// Builds the device info packet.
pub fn build_device_info_packet(info: &DeviceInfo) -> (packet: Vec<u8>)
    ensures
        packet@ == device_info_packet(
            encode_utf8(info.device_id@),
            encode_utf8(info.ip_address@),
            encode_utf8(info.player_name@),
        ),
{
    let mut packet: Vec<u8> = Vec::new();
    push_id_field(&mut packet, info.device_id.as_str().as_bytes());
    let parts = parse_octets(info.ip_address.as_str().as_bytes());
    if parts.len() == 4 {
        packet.extend_from_slice(parts.as_slice());
    } else {
        packet.push(0);
        packet.push(0);
        packet.push(0);
        packet.push(0);
    }
    packet.extend_from_slice(info.player_name.as_str().as_bytes());
    packet.push(0);
    packet.extend_from_slice(
        "<?xml version=\"1.0\" encoding=\"utf-8\"?><DeviceInfo><CPUType Value=\"5\"/><ScreenOnOff Value=\"1\"/><ScreenR Value=\"0\"/><HardwareVersion Value=\"1.0\"/></DeviceInfo>".as_bytes(),
    );
    assert(packet@ =~= device_info_packet(
        encode_utf8(info.device_id@),
        encode_utf8(info.ip_address@),
        encode_utf8(info.player_name@),
    ));
    packet
}

/// Builds the status packet.
pub fn build_ext1_packet(info: &DeviceInfo) -> (packet: Vec<u8>)
    ensures
        packet@ == ext1_packet(encode_utf8(info.device_id@)),
{
    let mut packet: Vec<u8> = Vec::new();
    push_id_field(&mut packet, info.device_id.as_str().as_bytes());
    packet.extend_from_slice(
        "<?xml version=\"1.0\" encoding=\"utf-8\"?><ext1><PlayStatus value=\"1\"/><ProgramIndex index=\"0\"/><ProgramCount count=\"1\" normalCount=\"1\" intercutCount=\"0\"/><DeviceLocker enable=\"0\"/><WifiApPasswd simple=\"1\"/></ext1>".as_bytes(),
    );
    packet
}

/// Where a packet of the discovery service goes.
#[derive(Debug, Clone, Copy, PartialEq, Eq, Structural)]
pub enum Destination {
    /// To the sender of the datagram that is being answered.
    Sender,
    /// To the broadcast address, on the discovery port.
    Broadcast,
}

/// What the discovery service reacts to.
#[derive(Debug, Clone, Copy, PartialEq, Eq, Structural)]
pub enum BeaconEvent {
    /// A datagram of a given length has arrived.
    Datagram { len: usize },
    /// The time between two broadcasts is over.
    Tick,
}

/// One step of what the discovery service does.
#[derive(Debug)]
pub enum BeaconStep {
    /// Send a packet.
    Send { packet: Vec<u8>, to: Destination },
    /// Wait for some milliseconds.
    Pause { ms: u64 },
}

/// A step with its packet as a byte sequence.
pub enum StepView {
    Send { packet: Seq<u8>, to: Destination },
    Pause { ms: u64 },
}

impl View for BeaconStep {
    type V = StepView;

    open spec fn view(&self) -> StepView {
        match *self {
            BeaconStep::Send { packet, to } => StepView::Send { packet: packet@, to },
            BeaconStep::Pause { ms } => StepView::Pause { ms },
        }
    }
}

/// Steps with their packets as byte sequences.
pub open spec fn step_views(steps: Seq<BeaconStep>) -> Seq<StepView> {
    Seq::new(steps.len(), |i: int| steps[i]@)
}

/// The discovery service of a device: its two packets, built once.
pub struct Beacon {
    device_info: Vec<u8>,
    ext1: Vec<u8>,
}

/// An announcement of the device to a destination: the device info packet,
/// a pause of 50 ms, the status packet.
pub open spec fn announcement(info: Seq<u8>, status: Seq<u8>, to: Destination) -> Seq<StepView> {
    seq![
        StepView::Send { packet: info, to },
        StepView::Pause { ms: PACKET_GAP_MS },
        StepView::Send { packet: status, to },
    ]
}

/// What the discovery service does on an event: a datagram of two bytes or
/// more is answered with an announcement to its sender, a shorter one is
/// not answered, and every tick brings an announcement to everyone.
pub open spec fn reaction(info: Seq<u8>, status: Seq<u8>, event: BeaconEvent) -> Seq<StepView> {
    match event {
        BeaconEvent::Datagram { len } => if len >= 2 {
            announcement(info, status, Destination::Sender)
        } else {
            Seq::empty()
        },
        BeaconEvent::Tick => announcement(info, status, Destination::Broadcast),
    }
}

impl Beacon {
    /// The device info packet of the service.
    pub closed spec fn info_packet(&self) -> Seq<u8> {
        self.device_info@
    }

    /// The status packet of the service.
    pub closed spec fn status_packet(&self) -> Seq<u8> {
        self.ext1@
    }

    /// The discovery service of a device, with both packets built.
    pub fn new(info: &DeviceInfo) -> (b: Beacon)
        ensures
            b.info_packet() == device_info_packet(
                encode_utf8(info.device_id@),
                encode_utf8(info.ip_address@),
                encode_utf8(info.player_name@),
            ),
            b.status_packet() == ext1_packet(encode_utf8(info.device_id@)),
    {
        Beacon { device_info: build_device_info_packet(info), ext1: build_ext1_packet(info) }
    }
}

/// One round of the discovery service: what it sends, to whom and with
/// which pause, on an event. Waiting for the events and sending are left to
/// the caller.
pub fn run(beacon: &Beacon, event: BeaconEvent) -> (steps: Vec<BeaconStep>)
    ensures
        step_views(steps@) == reaction(beacon.info_packet(), beacon.status_packet(), event),
{
    let mut steps: Vec<BeaconStep> = Vec::new();
    let to = match event {
        BeaconEvent::Datagram { len } => {
            if len < 2 {
                assert(step_views(steps@) =~= Seq::<StepView>::empty());
                return steps;
            }
            Destination::Sender
        },
        BeaconEvent::Tick => Destination::Broadcast,
    };
    steps.push(BeaconStep::Send { packet: beacon.device_info.clone(), to });
    steps.push(BeaconStep::Pause { ms: PACKET_GAP_MS });
    steps.push(BeaconStep::Send { packet: beacon.ext1.clone(), to });
    assert(step_views(steps@) =~= announcement(
        beacon.info_packet(),
        beacon.status_packet(),
        to,
    ));
    steps
}

} // verus!
