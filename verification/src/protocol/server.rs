//! The framed TCP dialect: packets, and what each packet of a connection
//! leads to.

use crate::protocol::session::complete;
use crate::protocol::session::feed;
use crate::protocol::session::FileTransfer;
use crate::protocol::session::Reassembly;
use crate::protocol::session::Session;
use crate::text::lemma_ascii_boundary;
use crate::text::substr;
use crate::text::text_between;
use byteorder::ByteOrder;
use byteorder::LittleEndian;
use byteorder::WriteBytesExt;
use vstd::prelude::*;
use vstd::slice::slice_subrange;
use vstd::string::*;
use vstd::utf8::*;

verus! {

/// A heartbeat from the client.
pub const CMD_TCP_HEARTBEAT_ASK: u16 = 0x005F;

/// The answer to a heartbeat.
pub const CMD_TCP_HEARTBEAT_ANSWER: u16 = 0x0060;

/// The version handshake from the client.
pub const CMD_SDK_SERVICE_ASK: u16 = 0x2001;

/// The answer to the version handshake.
pub const CMD_SDK_SERVICE_ANSWER: u16 = 0x2002;

/// A chunk of an SDK command.
pub const CMD_SDK_CMD_ASK: u16 = 0x2003;

/// The reply to an SDK command.
pub const CMD_SDK_CMD_ANSWER: u16 = 0x2004;

/// The start of a file transfer.
pub const CMD_FILE_START_ASK: u16 = 0x8001;

/// The answer to the start of a file transfer.
pub const CMD_FILE_START_ANSWER: u16 = 0x8002;

/// A chunk of a file.
pub const CMD_FILE_CONTENT_ASK: u16 = 0x8003;

/// The end of a file transfer.
pub const CMD_FILE_END_ASK: u16 = 0x8005;

/// The answer to the end of a file transfer.
pub const CMD_FILE_END_ANSWER: u16 = 0x8006;

/// The version of the transport that the device answers with.
pub const TRANSPORT_VERSION: u32 = 0x0100_0005;

/// The largest value of a packet's length field: command word and body.
pub const MAX_PACKET_SIZE: usize = 9216;

/// The longest command that is reassembled: 16 MiB.
pub const MAX_XML_BYTES: u32 = 0x0100_0000;

/// The `n` low bytes of a number, lowest first.
pub open spec fn le_bytes(v: nat, n: nat) -> Seq<u8>
    decreases n,
{
    if n == 0 {
        Seq::empty()
    } else {
        seq![(v % 256) as u8] + le_bytes(v / 256, (n - 1) as nat)
    }
}

/// The number that bytes write, lowest byte first.
pub open spec fn le_value(b: Seq<u8>) -> nat
    decreases b.len(),
{
    if b.len() == 0 {
        0
    } else {
        b[0] as nat + 256 * le_value(b.drop_first())
    }
}

/// Reading back what was written gives the number, as far as it fits.
pub proof fn lemma_le_round_trip(v: nat, n: nat)
    ensures
        le_bytes(v, n).len() == n,
        v < pow256(n) ==> le_value(le_bytes(v, n)) == v,
    decreases n,
{
    if n > 0 {
        lemma_le_round_trip(v / 256, (n - 1) as nat);
        assert(le_bytes(v, n).drop_first() =~= le_bytes(v / 256, (n - 1) as nat));
        if v < pow256(n) {
            assert(v / 256 < pow256((n - 1) as nat)) by (nonlinear_arith)
                requires
                    v < 256 * pow256((n - 1) as nat),
            ;
            assert(v == (v % 256) + 256 * (v / 256)) by (nonlinear_arith);
        }
    }
}

/// 256 to the power of `n`.
pub open spec fn pow256(n: nat) -> nat
    decreases n,
{
    if n == 0 {
        1
    } else {
        256 * pow256((n - 1) as nat)
    }
}

/// `byteorder::WriteBytesExt::write_u16` in little-endian order on a byte
/// vector: appends the two bytes of the number, low byte first.
#[verifier::external_body]
fn put_u16(out: &mut Vec<u8>, value: u16)
    ensures
        final(out)@ == old(out)@ + le_bytes(value as nat, 2),
{
    WriteBytesExt::write_u16::<LittleEndian>(out, value).unwrap();
}

/// `byteorder::WriteBytesExt::write_u32` in little-endian order on a byte
/// vector: appends the four bytes of the number, lowest first.
#[verifier::external_body]
fn put_u32(out: &mut Vec<u8>, value: u32)
    ensures
        final(out)@ == old(out)@ + le_bytes(value as nat, 4),
{
    WriteBytesExt::write_u32::<LittleEndian>(out, value).unwrap();
}

/// `byteorder::WriteBytesExt::write_u64` in little-endian order on a byte
/// vector: appends the eight bytes of the number, lowest first.
#[verifier::external_body]
fn put_u64(out: &mut Vec<u8>, value: u64)
    ensures
        final(out)@ == old(out)@ + le_bytes(value as nat, 8),
{
    WriteBytesExt::write_u64::<LittleEndian>(out, value).unwrap();
}

/// `byteorder::LittleEndian::read_u16`: the number that the first two bytes
/// write, low byte first. It needs two bytes.
#[verifier::external_body]
fn get_u16(bytes: &[u8]) -> (r: u16)
    requires
        bytes@.len() >= 2,
    ensures
        r == le_value(bytes@.subrange(0, 2)),
{
    LittleEndian::read_u16(bytes)
}

/// `byteorder::LittleEndian::read_u32`: the number that the first four
/// bytes write, lowest first. It needs four bytes.
#[verifier::external_body]
fn get_u32(bytes: &[u8]) -> (r: u32)
    requires
        bytes@.len() >= 4,
    ensures
        r == le_value(bytes@.subrange(0, 4)),
{
    LittleEndian::read_u32(bytes)
}

/// `byteorder::LittleEndian::read_u64`: the number that the first eight
/// bytes write, lowest first. It needs eight bytes.
#[verifier::external_body]
fn get_u64(bytes: &[u8]) -> (r: u64)
    requires
        bytes@.len() >= 8,
    ensures
        r == le_value(bytes@.subrange(0, 8)),
{
    LittleEndian::read_u64(bytes)
}

/// A packet: the length of command word and body, the command word, the
/// body. The length field holds the low 16 bits of the length.
pub open spec fn packet(cmd: u16, body: Seq<u8>) -> Seq<u8> {
    le_bytes(((body.len() + 2) % 0x10000) as nat, 2) + le_bytes(cmd as nat, 2) + body
}

/// Builds a packet: `[length: u16 LE] [command: u16 LE] [data...]`.
pub fn make_packet(cmd: u16, data: &[u8]) -> (r: Vec<u8>)
    ensures
        r@ == packet(cmd, data@),
{
    let length: u16 = ((data.len() % 0x10000 + 2) % 0x10000) as u16;
    let mut r: Vec<u8> = Vec::new();
    put_u16(&mut r, length);
    put_u16(&mut r, cmd);
    r.extend_from_slice(data);
    assert(r@ =~= packet(cmd, data@));
    r
}

/// Why bytes are not a packet.
#[derive(Debug, Clone, Copy, PartialEq, Eq, Structural)]
pub enum FrameError {
    /// The bytes end before the packet does.
    Truncated,
    /// The length field is below 2 or above 9216.
    BadLength,
}

/// A packet taken from the front of a byte stream.
#[derive(Debug)]
pub struct Packet {
    pub cmd: u16,
    pub body: Vec<u8>,
    /// How many bytes of the stream the packet took.
    pub consumed: usize,
}

/// The packet at the front of a byte stream: its command, its body and
/// how many bytes it takes.
pub open spec fn decode(bytes: Seq<u8>) -> Result<(u16, Seq<u8>, nat), FrameError> {
    if bytes.len() < 2 {
        Err(FrameError::Truncated)
    } else {
        let length = le_value(bytes.subrange(0, 2));
        if length < 2 || length > 9216 {
            Err(FrameError::BadLength)
        } else if bytes.len() < 2 + length {
            Err(FrameError::Truncated)
        } else {
            Ok(
                (
                    le_value(bytes.subrange(2, 4)) as u16,
                    bytes.subrange(4, (2 + length) as int),
                    (2 + length) as nat,
                ),
            )
        }
    }
}

/// Takes the packet at the front of a byte stream.
pub fn decode_packet(bytes: &[u8]) -> (r: Result<Packet, FrameError>)
    ensures
        match decode(bytes@) {
            Ok((cmd, body, consumed)) => r matches Ok(p) && p.cmd == cmd && p.body@ == body
                && p.consumed == consumed,
            Err(e) => r matches Err(f) && f == e,
        },
{
    if bytes.len() < 2 {
        return Err(FrameError::Truncated);
    }
    let length: usize = get_u16(bytes) as usize;
    if length < 2 || length > MAX_PACKET_SIZE {
        return Err(FrameError::BadLength);
    }
    if bytes.len() < 2 + length {
        return Err(FrameError::Truncated);
    }
    let cmd: u16 = get_u16(slice_subrange(bytes, 2, 4));
    assert(bytes@.subrange(2, 4).subrange(0, 2) =~= bytes@.subrange(2, 4));
    let mut body: Vec<u8> = Vec::new();
    body.extend_from_slice(slice_subrange(bytes, 4, 2 + length));
    Ok(Packet { cmd, body, consumed: 2 + length })
}

/// Framing round trip: a packet built from a command and a body of at most
/// 9214 bytes decodes to that command and that body, and takes all of the
/// packet's bytes.
pub proof fn lemma_framing_round_trip(cmd: u16, body: Seq<u8>)
    requires
        body.len() <= 9214,
    ensures
        decode(packet(cmd, body)) == Ok::<(u16, Seq<u8>, nat), FrameError>(
            (cmd, body, (body.len() + 4) as nat),
        ),
{
    let length = (body.len() + 2) as nat;
    let bytes = packet(cmd, body);
    lemma_le_round_trip(length, 2);
    lemma_le_round_trip(cmd as nat, 2);
    assert(pow256(2) == 65536) by {
        reveal_with_fuel(pow256, 3);
    }
    assert(bytes.subrange(0, 2) =~= le_bytes(length, 2));
    assert(bytes.subrange(2, 4) =~= le_bytes(cmd as nat, 2));
    assert(bytes.subrange(4, (2 + length) as int) =~= body);
}

/// What `String::from_utf8_lossy` makes of bytes that are not well-formed
/// UTF-8.
pub uninterp spec fn repaired_text(bytes: Seq<u8>) -> Seq<char>;

/// The text of bytes: what they encode, where they are well-formed UTF-8.
pub open spec fn lossy_text(bytes: Seq<u8>) -> Seq<char> {
    if valid_utf8(bytes) {
        decode_utf8(bytes)
    } else {
        repaired_text(bytes)
    }
}

/// `String::from_utf8_lossy`: the text that the bytes encode. Where the
/// bytes are not well-formed the result is named, not stated.
#[verifier::external_body]
fn from_utf8_lossy(bytes: &[u8]) -> (r: String)
    ensures
        valid_utf8(bytes@) ==> r@ == decode_utf8(bytes@),
        !valid_utf8(bytes@) ==> r@ == repaired_text(bytes@),
{
    String::from_utf8_lossy(bytes).into_owned()
}

/// The length of bytes without the NUL bytes at their end.
pub open spec fn unpadded_len(bytes: Seq<u8>) -> int
    decreases bytes.len(),
{
    if bytes.len() > 0 && bytes.last() == 0 {
        unpadded_len(bytes.drop_last())
    } else {
        bytes.len() as int
    }
}

/// A text without the NUL characters at its end.
pub open spec fn unpadded(text: Seq<char>) -> Seq<char> {
    text_between(encode_utf8(text), 0, unpadded_len(encode_utf8(text)))
}

/// A text without the NUL characters at its end.
fn trim_nuls(s: &str) -> (r: &str)
    ensures
        r@ == unpadded(s@),
{
    let bytes = s.as_bytes();
    let mut end: usize = bytes.len();
    assert(bytes@.subrange(0, end as int) =~= bytes@);
    while end > 0 && bytes[end - 1] == 0
        invariant
            end <= bytes@.len(),
            end < bytes@.len() ==> bytes@[end as int] == 0,
            unpadded_len(bytes@) == unpadded_len(bytes@.subrange(0, end as int)),
        decreases end,
    {
        assert(bytes@.subrange(0, end as int).drop_last() =~= bytes@.subrange(0, end - 1));
        end -= 1;
    }
    proof {
        encode_utf8_valid_utf8(s@);
        is_char_boundary_start_end_of_seq(bytes@);
        if end < bytes@.len() {
            lemma_ascii_boundary(bytes@, end as int);
        }
    }
    substr(s, 0, end)
}

/// Why a packet was dropped without an answer.
#[derive(Debug, Clone, Copy, PartialEq, Eq, Structural)]
pub enum DropReason {
    /// The command word is none of the dialect.
    UnknownCommand,
    /// An SDK command packet without its eight bytes of header.
    CommandTooShort,
    /// An SDK command that declares more than 16 MiB.
    CommandTooLong,
    /// A file start packet without its 42 bytes of header.
    FileStartTooShort,
}

/// What a packet leads to.
#[derive(Debug)]
pub enum PacketAction {
    /// Nothing to do or to answer.
    Nothing,
    /// The packet is dropped.
    Dropped(DropReason),
    /// Answer with this packet.
    Reply(Vec<u8>),
    /// A command has arrived in full: handle it and answer with what
    /// `sdk_answer` makes of the reply.
    Dispatch(String),
    /// A file has arrived: store the data under the name, then answer.
    SaveFile { filename: String, data: Vec<u8>, reply: Vec<u8> },
}

/// What a packet leads to, with texts and bytes as sequences.
pub enum ActionView {
    Nothing,
    Dropped(DropReason),
    Reply(Seq<u8>),
    Dispatch(Seq<char>),
    SaveFile { filename: Seq<char>, data: Seq<u8>, reply: Seq<u8> },
}

impl View for PacketAction {
    type V = ActionView;

    open spec fn view(&self) -> ActionView {
        match *self {
            PacketAction::Nothing => ActionView::Nothing,
            PacketAction::Dropped(reason) => ActionView::Dropped(reason),
            PacketAction::Reply(packet) => ActionView::Reply(packet@),
            PacketAction::Dispatch(xml) => ActionView::Dispatch(xml@),
            PacketAction::SaveFile { filename, data, reply } => ActionView::SaveFile {
                filename: filename@,
                data: data@,
                reply: reply@,
            },
        }
    }
}

/// The answer to a heartbeat.
pub open spec fn heartbeat_answer() -> Seq<u8> {
    packet(CMD_TCP_HEARTBEAT_ANSWER, Seq::empty())
}

/// The answer to the version handshake.
pub open spec fn service_answer() -> Seq<u8> {
    packet(CMD_SDK_SERVICE_ANSWER, le_bytes(TRANSPORT_VERSION as nat, 4))
}

/// The answer to the start of a file: no error, nothing there yet.
pub open spec fn file_start_answer() -> Seq<u8> {
    packet(CMD_FILE_START_ANSWER, le_bytes(0, 4) + le_bytes(0, 8))
}

/// The answer to the end of a file: no error.
pub open spec fn file_end_answer() -> Seq<u8> {
    packet(CMD_FILE_END_ANSWER, le_bytes(0, 4))
}

/// The packet that carries the reply to a command: the length of the
/// reply, a flags word of zero, the reply.
pub open spec fn sdk_answer_packet(reply: Seq<u8>) -> Seq<u8> {
    packet(
        CMD_SDK_CMD_ANSWER,
        le_bytes((reply.len() % 0x1_0000_0000) as nat, 4) + le_bytes(0, 4) + reply,
    )
}

/// The reassembly that an SDK command packet leads to.
pub open spec fn command_fed(before: Reassembly, body: Seq<u8>) -> Reassembly {
    feed(
        before,
        body.subrange(8, body.len() as int),
        le_value(body.subrange(0, 4)),
        le_value(body.subrange(4, 8)),
    )
}

/// The file transfer that a file start packet declares.
pub open spec fn declares(body: Seq<u8>, t: FileTransfer) -> bool {
    &&& t.md5@ == lossy_text(body.subrange(0, 32))
    &&& t.expected_size == le_value(body.subrange(32, 40))
    &&& t.file_type == le_value(body.subrange(40, 42))
    &&& t.filename@ == unpadded(lossy_text(body.subrange(42, body.len() as int)))
    &&& t.data@ == Seq::<u8>::empty()
}

/// What a packet leads to, given the session it arrives in.
pub open spec fn action_for(session: Session, cmd: u16, body: Seq<u8>) -> ActionView {
    if cmd == CMD_TCP_HEARTBEAT_ASK {
        ActionView::Reply(heartbeat_answer())
    } else if cmd == CMD_SDK_SERVICE_ASK {
        ActionView::Reply(service_answer())
    } else if cmd == CMD_SDK_CMD_ASK {
        if body.len() < 8 {
            ActionView::Dropped(DropReason::CommandTooShort)
        } else if le_value(body.subrange(0, 4)) > MAX_XML_BYTES {
            ActionView::Dropped(DropReason::CommandTooLong)
        } else if complete(command_fed(session.reassembly(), body)) {
            ActionView::Dispatch(lossy_text(command_fed(session.reassembly(), body).buffer))
        } else {
            ActionView::Nothing
        }
    } else if cmd == CMD_FILE_START_ASK {
        if body.len() < 42 {
            ActionView::Dropped(DropReason::FileStartTooShort)
        } else {
            ActionView::Reply(file_start_answer())
        }
    } else if cmd == CMD_FILE_CONTENT_ASK {
        ActionView::Nothing
    } else if cmd == CMD_FILE_END_ASK {
        match session.transfer() {
            Some(t) => ActionView::SaveFile {
                filename: t.filename@,
                data: t.data@,
                reply: file_end_answer(),
            },
            None => ActionView::Reply(file_end_answer()),
        }
    } else {
        ActionView::Dropped(DropReason::UnknownCommand)
    }
}

/// The reassembly of a session after a packet.
pub open spec fn reassembly_after(session: Session, cmd: u16, body: Seq<u8>) -> Reassembly {
    if cmd == CMD_SDK_CMD_ASK && body.len() >= 8 && le_value(body.subrange(0, 4))
        <= MAX_XML_BYTES {
        if complete(command_fed(session.reassembly(), body)) {
            Reassembly { buffer: Seq::empty(), total: 0 }
        } else {
            command_fed(session.reassembly(), body)
        }
    } else {
        session.reassembly()
    }
}

/// The file transfer of a session after a packet.
pub open spec fn transfer_after(
    before: Session,
    cmd: u16,
    body: Seq<u8>,
    after: Option<FileTransfer>,
) -> bool {
    if cmd == CMD_FILE_START_ASK && body.len() >= 42 {
        after matches Some(t) && declares(body, t)
    } else if cmd == CMD_FILE_CONTENT_ASK && before.wants_data() {
        after matches Some(u) && before.transfer() matches Some(t) && u.filename == t.filename
            && u.expected_size == t.expected_size && u.file_type == t.file_type && u.md5 == t.md5
            && u.data@ == t.data@ + body
    } else if cmd == CMD_FILE_END_ASK {
        after is None
    } else {
        after == before.transfer()
    }
}

/// Builds the packet that carries the reply to a command.
pub fn sdk_answer(reply: &str) -> (r: Vec<u8>)
    ensures
        r@ == sdk_answer_packet(reply.spec_bytes()),
{
    let xml = reply.as_bytes();
    let mut data: Vec<u8> = Vec::new();
    put_u32(&mut data, (xml.len() as u64 % 0x1_0000_0000) as u32);
    put_u32(&mut data, 0);
    data.extend_from_slice(xml);
    make_packet(CMD_SDK_CMD_ANSWER, data.as_slice())
}

/// Handles one packet of a connection: changes the session as the packet
/// asks and says what is to be done and answered.
///
/// An SDK command is taken in chunk by chunk and handed out once all of it
/// has arrived. A file transfer takes data as long as it has received fewer
/// bytes than it declared, so that it never holds more than the declared
/// size and one chunk.
pub fn handle_packet(session: &mut Session, cmd: u16, body: &[u8]) -> (action: PacketAction)
    ensures
        action@ == action_for(*old(session), cmd, body@),
        final(session).id() == old(session).id(),
        final(session).reassembly() == reassembly_after(*old(session), cmd, body@),
        transfer_after(*old(session), cmd, body@, final(session).transfer()),
{
    let n: usize = body.len();
    if cmd == CMD_TCP_HEARTBEAT_ASK {
        let empty: Vec<u8> = Vec::new();
        PacketAction::Reply(make_packet(CMD_TCP_HEARTBEAT_ANSWER, empty.as_slice()))
    } else if cmd == CMD_SDK_SERVICE_ASK {
        let mut data: Vec<u8> = Vec::new();
        put_u32(&mut data, TRANSPORT_VERSION);
        assert(data@ =~= le_bytes(TRANSPORT_VERSION as nat, 4));
        PacketAction::Reply(make_packet(CMD_SDK_SERVICE_ANSWER, data.as_slice()))
    } else if cmd == CMD_SDK_CMD_ASK {
        if n < 8 {
            return PacketAction::Dropped(DropReason::CommandTooShort);
        }
        let total: u32 = get_u32(body);
        let index: u32 = get_u32(slice_subrange(body, 4, 8));
        assert(body@.subrange(4, 8).subrange(0, 4) =~= body@.subrange(4, 8));
        if total > MAX_XML_BYTES {
            return PacketAction::Dropped(DropReason::CommandTooLong);
        }
        session.accumulate_xml(slice_subrange(body, 8, n), total as usize, index as usize);
        if session.xml_complete() {
            let xml = session.take_xml();
            PacketAction::Dispatch(from_utf8_lossy(xml.as_slice()))
        } else {
            PacketAction::Nothing
        }
    } else if cmd == CMD_FILE_START_ASK {
        if n < 42 {
            return PacketAction::Dropped(DropReason::FileStartTooShort);
        }
        let md5 = from_utf8_lossy(slice_subrange(body, 0, 32));
        let size: u64 = get_u64(slice_subrange(body, 32, 40));
        let file_type: u16 = get_u16(slice_subrange(body, 40, 42));
        assert(body@.subrange(32, 40).subrange(0, 8) =~= body@.subrange(32, 40));
        assert(body@.subrange(40, 42).subrange(0, 2) =~= body@.subrange(40, 42));
        let padded = from_utf8_lossy(slice_subrange(body, 42, n));
        let filename = trim_nuls(padded.as_str()).to_owned();
        session.start_file_transfer(filename, size, file_type, md5);
        let mut data: Vec<u8> = Vec::new();
        put_u32(&mut data, 0);
        put_u64(&mut data, 0);
        assert(data@ =~= le_bytes(0, 4) + le_bytes(0, 8));
        PacketAction::Reply(make_packet(CMD_FILE_START_ANSWER, data.as_slice()))
    } else if cmd == CMD_FILE_CONTENT_ASK {
        if session.file_transfer_wants_data() {
            session.append_file_data(body);
        }
        PacketAction::Nothing
    } else if cmd == CMD_FILE_END_ASK {
        let mut data: Vec<u8> = Vec::new();
        put_u32(&mut data, 0);
        assert(data@ =~= le_bytes(0, 4));
        let reply = make_packet(CMD_FILE_END_ANSWER, data.as_slice());
        match session.complete_file_transfer() {
            Some(transfer) => PacketAction::SaveFile {
                filename: transfer.filename,
                data: transfer.data,
                reply,
            },
            None => PacketAction::Reply(reply),
        }
    } else {
        PacketAction::Dropped(DropReason::UnknownCommand)
    }
}

} // verus!
