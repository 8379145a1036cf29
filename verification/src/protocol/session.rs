//! Per-connection state: the session identifier, the XML reassembly buffer
//! and the file transfer in flight.

use vstd::prelude::*;
use vstd::string::*;

verus! {

/// The most bytes that a new file transfer reserves ahead of its data.
pub const MAX_RESERVED_BYTES: u64 = 0x1000_0000;

/// State of one connected client.
pub struct Session {
    /// Unique identifier of the session.
    pub guid: String,
    xml_buffer: Vec<u8>,
    xml_total_len: usize,
    file_transfer: Option<FileTransfer>,
}

/// A file on its way from the client.
pub struct FileTransfer {
    pub filename: String,
    pub expected_size: u64,
    pub file_type: u16,
    pub md5: String,
    pub data: Vec<u8>,
}

/// The reassembly of a command that arrives in chunks: what has arrived and
/// how long the whole is declared to be.
pub struct Reassembly {
    pub buffer: Seq<u8>,
    pub total: nat,
}

/// The reassembly after one more chunk: the chunk with index 0 starts over
/// and records the declared length, every chunk is appended.
pub open spec fn feed(r: Reassembly, chunk: Seq<u8>, total: nat, index: nat) -> Reassembly {
    if index == 0 {
        Reassembly { buffer: chunk, total: total }
    } else {
        Reassembly { buffer: r.buffer + chunk, total: r.total }
    }
}

/// Whether all of the declared length has arrived.
pub open spec fn complete(r: Reassembly) -> bool {
    r.buffer.len() >= r.total
}

/// The reassembly after the chunks were fed in order, numbered from 0, each
/// with the same declared length.
pub open spec fn fed(start: Reassembly, chunks: Seq<Seq<u8>>, total: nat) -> Reassembly
    decreases chunks.len(),
{
    if chunks.len() == 0 {
        start
    } else {
        feed(
            fed(start, chunks.drop_last(), total),
            chunks.last(),
            total,
            (chunks.len() - 1) as nat,
        )
    }
}

/// The chunks laid end to end.
pub open spec fn joined(chunks: Seq<Seq<u8>>) -> Seq<u8>
    decreases chunks.len(),
{
    if chunks.len() == 0 {
        Seq::empty()
    } else {
        joined(chunks.drop_last()) + chunks.last()
    }
}

/// Whatever a session held before, after the chunks of a command were fed
/// from index 0 on it holds exactly those chunks, end to end.
pub proof fn lemma_fed_holds_chunks(start: Reassembly, chunks: Seq<Seq<u8>>, total: nat)
    requires
        chunks.len() > 0,
    ensures
        fed(start, chunks, total).buffer == joined(chunks),
        fed(start, chunks, total).total == total,
    decreases chunks.len(),
{
    if chunks.len() == 1 {
        assert(joined(chunks.drop_last()) =~= Seq::<u8>::empty());
        assert(joined(chunks) =~= chunks.last());
    } else {
        lemma_fed_holds_chunks(start, chunks.drop_last(), total);
    }
}

/// The first chunks of a sequence, laid end to end, are the start of the
/// whole laid end to end.
pub proof fn lemma_joined_prefix(chunks: Seq<Seq<u8>>, k: int)
    requires
        0 <= k <= chunks.len(),
    ensures
        joined(chunks.take(k)).len() <= joined(chunks).len(),
        joined(chunks.take(k)) == joined(chunks).take(joined(chunks.take(k)).len() as int),
    decreases chunks.len() - k,
{
    if k == chunks.len() {
        assert(chunks.take(k) =~= chunks);
        assert(joined(chunks).take(joined(chunks).len() as int) =~= joined(chunks));
    } else {
        lemma_joined_prefix(chunks, k + 1);
        assert(chunks.take(k + 1).drop_last() =~= chunks.take(k));
        let longer = joined(chunks.take(k + 1));
        let shorter = joined(chunks.take(k));
        assert(longer == shorter + chunks.take(k + 1).last());
        assert(shorter =~= joined(chunks).take(shorter.len() as int));
    }
}

/// Reassembly: for any split of a byte sequence into ordered chunks, feeding
/// the chunks numbered from 0 with the length of the whole as the declared
/// total gives back the whole as soon as the reassembly is complete, and it
/// is complete once the last chunk is in.
pub proof fn lemma_reassembly(start: Reassembly, chunks: Seq<Seq<u8>>, k: int)
    requires
        0 < k <= chunks.len(),
    ensures
        complete(fed(start, chunks.take(k), joined(chunks).len())) ==> fed(
            start,
            chunks.take(k),
            joined(chunks).len(),
        ).buffer == joined(chunks),
        complete(fed(start, chunks, joined(chunks).len())),
        fed(start, chunks, joined(chunks).len()).buffer == joined(chunks),
{
    let total = joined(chunks).len();
    lemma_fed_holds_chunks(start, chunks.take(k), total);
    lemma_fed_holds_chunks(start, chunks, total);
    lemma_joined_prefix(chunks, k);
    let got = joined(chunks.take(k));
    if got.len() >= total {
        assert(joined(chunks).take(total as int) =~= joined(chunks));
    }
}

/// What every fresh session identifier looks like: 36 characters in five
/// groups of lower-case hexadecimal digits, joined by hyphens, of which the
/// third begins with the version digit 4.
pub open spec fn is_session_guid(s: Seq<char>) -> bool {
    &&& s.len() == 36
    &&& forall|i: int|
        0 <= i < 36 ==> if i == 8 || i == 13 || i == 18 || i == 23 {
            #[trigger] s[i] == '-'
        } else {
            ('0' <= s[i] <= '9') || ('a' <= s[i] <= 'f')
        }
    &&& s[14] == '4'
}

/// A fresh random identifier from `uuid::Uuid::new_v4`, in the hyphenated
/// lower-case form that `Uuid`'s `Display` writes. The value is random; the
/// contract states only the shape that every such identifier has.
#[verifier::external_body]
fn fresh_guid() -> (r: String)
    ensures
        is_session_guid(r@),
{
    uuid::Uuid::new_v4().to_string()
}

impl Session {
    /// The bytes of the command that is being reassembled.
    pub closed spec fn buffer(&self) -> Seq<u8> {
        self.xml_buffer@
    }

    /// The declared length of the command that is being reassembled.
    pub closed spec fn total(&self) -> nat {
        self.xml_total_len as nat
    }

    /// The identifier of the session.
    pub closed spec fn id(&self) -> Seq<char> {
        self.guid@
    }

    /// The identifier of the session.
    pub fn guid(&self) -> (r: &str)
        ensures
            r@ == self.id(),
    {
        self.guid.as_str()
    }

    /// The reassembly state of the session.
    pub open spec fn reassembly(&self) -> Reassembly {
        Reassembly { buffer: self.buffer(), total: self.total() }
    }

    /// The file transfer in flight, if any.
    pub closed spec fn transfer(&self) -> Option<FileTransfer> {
        self.file_transfer
    }

    /// A session with a fresh identifier, nothing buffered and no transfer.
    pub fn new() -> (s: Session)
        ensures
            is_session_guid(s.id()),
            s.buffer() == Seq::<u8>::empty(),
            s.total() == 0,
            s.transfer() is None,
    {
        Session {
            guid: fresh_guid(),
            xml_buffer: Vec::new(),
            xml_total_len: 0,
            file_transfer: None,
        }
    }

    /// A session with the given identifier, nothing buffered and no transfer.
    pub fn with_guid(guid: String) -> (s: Session)
        ensures
            s.id() == guid@,
            s.buffer() == Seq::<u8>::empty(),
            s.total() == 0,
            s.transfer() is None,
    {
        Session { guid, xml_buffer: Vec::new(), xml_total_len: 0, file_transfer: None }
    }

    /// Takes in one chunk of a command. The chunk with index 0 discards what
    /// was buffered and records the declared total; every chunk is appended.
    pub fn accumulate_xml(&mut self, chunk: &[u8], total_len: usize, index: usize)
        ensures
            final(self).reassembly() == feed(
                old(self).reassembly(),
                chunk@,
                total_len as nat,
                index as nat,
            ),
            final(self).id() == old(self).id(),
            final(self).transfer() == old(self).transfer(),
    {
        if index == 0 {
            self.xml_buffer.clear();
            self.xml_total_len = total_len;
        }
        self.xml_buffer.extend_from_slice(chunk);
        proof {
            let want = feed(old(self).reassembly(), chunk@, total_len as nat, index as nat);
            assert(self.xml_buffer@ =~= want.buffer);
            assert(self.reassembly().total == want.total);
        }
    }

    /// Whether all of the declared length has arrived.
    pub fn xml_complete(&self) -> (r: bool)
        ensures
            r == complete(self.reassembly()),
    {
        self.xml_buffer.len() >= self.xml_total_len
    }

    /// Hands out the buffered command and resets the reassembly.
    pub fn take_xml(&mut self) -> (xml: Vec<u8>)
        ensures
            xml@ == old(self).buffer(),
            final(self).buffer() == Seq::<u8>::empty(),
            final(self).total() == 0,
            final(self).id() == old(self).id(),
            final(self).transfer() == old(self).transfer(),
    {
        self.xml_total_len = 0;
        let mut xml: Vec<u8> = Vec::new();
        std::mem::swap(&mut self.xml_buffer, &mut xml);
        xml
    }

    /// Starts a file transfer, replacing any that was in flight.
    pub fn start_file_transfer(&mut self, filename: String, size: u64, file_type: u16, md5: String)
        ensures
            final(self).transfer() matches Some(t) && t.filename == filename && t.expected_size
                == size && t.file_type == file_type && t.md5 == md5 && t.data@ == Seq::<
                u8,
            >::empty(),
            final(self).id() == old(self).id(),
            final(self).reassembly() == old(self).reassembly(),
    {
        let reserve: u64 = if size < MAX_RESERVED_BYTES {
            size
        } else {
            MAX_RESERVED_BYTES
        };
        self.file_transfer = Some(
            FileTransfer {
                filename,
                expected_size: size,
                file_type,
                md5,
                data: Vec::with_capacity(reserve as usize),
            },
        );
    }

    /// Appends data to the transfer in flight; without one, does nothing.
    pub fn append_file_data(&mut self, data: &[u8])
        ensures
            match old(self).transfer() {
                Some(t) => final(self).transfer() matches Some(u) && u.filename == t.filename
                    && u.expected_size == t.expected_size && u.file_type == t.file_type && u.md5
                    == t.md5 && u.data@ == t.data@ + data@,
                None => final(self).transfer() is None,
            },
            final(self).id() == old(self).id(),
            final(self).reassembly() == old(self).reassembly(),
    {
        let mut current: Option<FileTransfer> = None;
        std::mem::swap(&mut self.file_transfer, &mut current);
        if let Some(mut transfer) = current {
            transfer.data.extend_from_slice(data);
            self.file_transfer = Some(transfer);
        }
    }

    /// Whether a transfer is in flight that has not yet received as many
    /// bytes as it declared.
    pub open spec fn wants_data(&self) -> bool {
        self.transfer() matches Some(t) && t.data@.len() < t.expected_size
    }

    /// Whether a transfer is in flight that has not yet received as many
    /// bytes as it declared.
    pub fn file_transfer_wants_data(&self) -> (r: bool)
        ensures
            r == self.wants_data(),
    {
        match &self.file_transfer {
            Some(t) => (t.data.len() as u64) < t.expected_size,
            None => false,
        }
    }

    /// Ends the transfer in flight and hands it out.
    pub fn complete_file_transfer(&mut self) -> (r: Option<FileTransfer>)
        ensures
            r == old(self).transfer(),
            final(self).transfer() is None,
            final(self).id() == old(self).id(),
            final(self).reassembly() == old(self).reassembly(),
    {
        let mut current: Option<FileTransfer> = None;
        std::mem::swap(&mut self.file_transfer, &mut current);
        current
    }
}

} // verus!
