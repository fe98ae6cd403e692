//! Data entries: one log record of header, key and value bytes.

use vstd::prelude::*;
use crate::bytes::{le_to_u32, lemma_u32_le_round, push_u32_le, read_u32_le, u32_le};
use crate::crc::{checksum, hash};
use crate::err::FormatError;
use crate::io::{EntryIO, ReadOutcome};
use crate::stream::{lemma_overwrite_append, lemma_overwrite_concat, overwrite, Stream};

verus! {

/// Size in bytes of an encoded data-entry header.
pub const HEADER_SIZE: usize = 16;

/// The fixed metadata of a data entry: integrity code, write timestamp, and
/// the declared byte lengths of key and value.
#[derive(Clone, Copy, Debug, PartialEq, Eq, Structural)]
pub struct Header {
    pub crc: u32,
    pub timestamp: u32,
    pub key_sz: u32,
    pub value_sz: u32,
}

/// The 16 on-stream bytes of a header: little-endian fields in order.
pub open spec fn header_bytes(h: Header) -> Seq<u8> {
    u32_le(h.crc) + u32_le(h.timestamp) + u32_le(h.key_sz) + u32_le(h.value_sz)
}

/// The header stored in 16 bytes.
pub open spec fn parse_header(b: Seq<u8>) -> Header
    recommends
        b.len() == HEADER_SIZE,
{
    Header {
        crc: le_to_u32(b.subrange(0, 4)),
        timestamp: le_to_u32(b.subrange(4, 8)),
        key_sz: le_to_u32(b.subrange(8, 12)),
        value_sz: le_to_u32(b.subrange(12, 16)),
    }
}

/// Decoding an encoded header gives the header back.
pub proof fn lemma_header_round(h: Header)
    ensures
        header_bytes(h).len() == HEADER_SIZE,
        parse_header(header_bytes(h)) == h,
{
    assert(header_bytes(h).subrange(0, 4) =~= u32_le(h.crc));
    assert(header_bytes(h).subrange(4, 8) =~= u32_le(h.timestamp));
    assert(header_bytes(h).subrange(8, 12) =~= u32_le(h.key_sz));
    assert(header_bytes(h).subrange(12, 16) =~= u32_le(h.value_sz));
    lemma_u32_le_round(h.crc);
    lemma_u32_le_round(h.timestamp);
    lemma_u32_le_round(h.key_sz);
    lemma_u32_le_round(h.value_sz);
}

impl Header {
    pub fn new(crc: u32, timestamp: u32, key_sz: u32, value_sz: u32) -> (r: Self)
        ensures
            r.crc == crc,
            r.timestamp == timestamp,
            r.key_sz == key_sz,
            r.value_sz == value_sz,
    {
        Header { crc, timestamp, key_sz, value_sz }
    }

    pub fn crc(&self) -> (r: u32)
        ensures
            r == self.crc,
    {
        self.crc
    }

    pub fn timestamp(&self) -> (r: u32)
        ensures
            r == self.timestamp,
    {
        self.timestamp
    }

    pub fn key_sz(&self) -> (r: u32)
        ensures
            r == self.key_sz,
    {
        self.key_sz
    }

    pub fn value_sz(&self) -> (r: u32)
        ensures
            r == self.value_sz,
    {
        self.value_sz
    }

    /// The header's 16 on-stream bytes.
    pub fn encode(&self) -> (r: Vec<u8>)
        ensures
            r@ == header_bytes(*self),
    {
        let mut v: Vec<u8> = Vec::new();
        push_u32_le(&mut v, self.crc);
        push_u32_le(&mut v, self.timestamp);
        push_u32_le(&mut v, self.key_sz);
        push_u32_le(&mut v, self.value_sz);
        proof {
            assert(v@ =~= header_bytes(*self));
        }
        v
    }

    /// The header stored in 16 bytes.
    pub fn decode(b: &Vec<u8>) -> (r: Header)
        requires
            b@.len() == HEADER_SIZE,
        ensures
            r == parse_header(b@),
    {
        Header {
            crc: read_u32_le(b, 0),
            timestamp: read_u32_le(b, 4),
            key_sz: read_u32_le(b, 8),
            value_sz: read_u32_le(b, 12),
        }
    }
}

/// Relies on chrono::Utc::now and chrono::DateTime::timestamp: the current
/// wall-clock time as whole unix seconds. Nothing is promised of the value:
/// it depends on the clock.
#[verifier::external_body]
fn now_unix_seconds() -> i64 {
    chrono::Utc::now().timestamp()
}

/// The wall clock truncated to 32-bit unix seconds: the seconds modulo
/// `2^32`, and zero for a clock set before 1970.
fn current_timestamp() -> u32 {
    let s = now_unix_seconds();
    if s >= 0 {
        ((s as u64) % 0x1_0000_0000) as u32
    } else {
        0
    }
}

/// One log record: header plus key and value bytes, and placement metadata
/// (`offset`, `file_id`) that the owning caller assigns once the record is
/// durably on a stream.
#[derive(Clone, Debug)]
pub struct DiskEntry {
    /// header of the disk entry.
    pub header: Header,
    /// key of the disk entry.
    pub key: Vec<u8>,
    /// value of the disk entry.
    pub value: Vec<u8>,
    /// offset of the disk entry in its stream, once placed.
    pub offset: Option<u64>,
    /// identifier of the segment file holding the entry, once placed.
    pub file_id: Option<u64>,
}

/// The mathematical content of a `DiskEntry`.
pub struct DiskEntryModel {
    pub header: Header,
    pub key: Seq<u8>,
    pub value: Seq<u8>,
    pub offset: Option<u64>,
    pub file_id: Option<u64>,
}

impl View for DiskEntry {
    type V = DiskEntryModel;

    open spec fn view(&self) -> DiskEntryModel {
        DiskEntryModel {
            header: self.header,
            key: self.key@,
            value: self.value@,
            offset: self.offset,
            file_id: self.file_id,
        }
    }
}

/// The bytes a data entry puts on a stream: header, then key, then value.
pub open spec fn data_entry_bytes(m: DiskEntryModel) -> Seq<u8> {
    header_bytes(m.header) + m.key + m.value
}

/// What decoding a data entry finds at `offset` of `data`: nothing at a
/// clean end of stream, a truncation when a record starts but its declared
/// bytes run out, and otherwise the record, unplaced.
pub open spec fn parse_data_entry(data: Seq<u8>, offset: int) -> ReadOutcome<DiskEntryModel>
    recommends
        0 <= offset,
{
    if offset >= data.len() {
        ReadOutcome::End
    } else if offset + HEADER_SIZE > data.len() {
        ReadOutcome::Truncated
    } else {
        let h = parse_header(data.subrange(offset, offset + HEADER_SIZE));
        if offset + HEADER_SIZE + h.key_sz + h.value_sz > data.len() {
            ReadOutcome::Truncated
        } else {
            ReadOutcome::Entry(DiskEntryModel {
                header: h,
                key: data.subrange(offset + HEADER_SIZE, offset + HEADER_SIZE + h.key_sz),
                value: data.subrange(
                    offset + HEADER_SIZE + h.key_sz,
                    offset + HEADER_SIZE + h.key_sz + h.value_sz,
                ),
                offset: None,
                file_id: None,
            })
        }
    }
}

impl DiskEntry {
    /// Construct an unplaced entry from a key and a value: the integrity
    /// code is computed over both, the timestamp is the wall clock truncated
    /// to 32-bit unix seconds, and the declared sizes are the actual lengths.
    pub fn new(key: Vec<u8>, value: Vec<u8>) -> (r: Self)
        requires
            key@.len() <= u32::MAX,
            value@.len() <= u32::MAX,
        ensures
            r.header.crc == checksum(key@, value@),
            r.header.key_sz == key@.len(),
            r.header.value_sz == value@.len(),
            r.key@ == key@,
            r.value@ == value@,
            r.offset is None,
            r.file_id is None,
    {
        let crc = hash(&key, &value);
        let timestamp = current_timestamp();
        let key_sz = key.len() as u32;
        let value_sz = value.len() as u32;
        let header = Header::new(crc, timestamp, key_sz, value_sz);
        DiskEntry { header, key, value, offset: None, file_id: None }
    }

    /// The integrity code stored in the header.
    pub fn crc(&self) -> (r: u32)
        ensures
            r == self.header.crc,
    {
        self.header.crc()
    }

    /// The timestamp stored in the header.
    pub fn timestamp(&self) -> (r: u32)
        ensures
            r == self.header.timestamp,
    {
        self.header.timestamp()
    }

    /// The entry's full on-stream size: header plus key plus value bytes.
    pub fn size(&self) -> (r: u64)
        requires
            HEADER_SIZE + self.key@.len() + self.value@.len() <= u64::MAX,
        ensures
            r == HEADER_SIZE + self.key@.len() + self.value@.len(),
    {
        HEADER_SIZE as u64 + self.key.len() as u64 + self.value.len() as u64
    }

    /// The on-stream size of an entry holding this key and value.
    pub fn entry_size(k: &[u8], v: &[u8]) -> (r: u64)
        requires
            HEADER_SIZE + k@.len() + v@.len() <= u64::MAX,
        ensures
            r == HEADER_SIZE + k@.len() + v@.len(),
    {
        HEADER_SIZE as u64 + k.len() as u64 + v.len() as u64
    }

    /// Record the stream offset the caller placed the entry at.
    pub fn offset(self, offset: u64) -> (r: Self)
        ensures
            r.header == self.header,
            r.key@ == self.key@,
            r.value@ == self.value@,
            r.offset == Some(offset),
            r.file_id == self.file_id,
    {
        let mut this = self;
        this.offset = Some(offset);
        this
    }

    /// Record the segment file the caller placed the entry in.
    pub fn file_id(self, file_id: u64) -> (r: Self)
        ensures
            r.header == self.header,
            r.key@ == self.key@,
            r.value@ == self.value@,
            r.offset == self.offset,
            r.file_id == Some(file_id),
    {
        let mut this = self;
        this.file_id = Some(file_id);
        this
    }

    /// Recompute the integrity code over the stored key and value and compare
    /// it with the header's: false reports corruption, it never fails.
    pub fn is_validate(&self) -> (r: bool)
        ensures
            r == (self.header.crc == checksum(self.key@, self.value@)),
    {
        let actual = hash(&self.key, &self.value);
        self.header.crc == actual
    }

    /// The integrity code the header claims.
    pub fn crc_expected(&self) -> (r: u32)
        ensures
            r == self.header.crc,
    {
        self.header.crc()
    }

    /// The integrity code the stored key and value actually have.
    pub fn crc_actual(&self) -> (r: u32)
        ensures
            r == checksum(self.key@, self.value@),
    {
        hash(&self.key, &self.value)
    }
}

impl EntryIO for DiskEntry {
    open spec fn encoding(&self) -> Seq<u8> {
        data_entry_bytes(self@)
    }

    open spec fn parse(data: Seq<u8>, offset: int) -> ReadOutcome<DiskEntryModel> {
        parse_data_entry(data, offset)
    }

    fn write_to(&self, w: &mut Stream) -> (r: Result<u64, FormatError>) {
        let ghost d0 = w.data@;
        let ghost p = w.pos as int;
        let offset = w.position();
        let hdr = self.header.encode();
        w.write_all(&hdr);
        w.write_all(&self.key);
        w.write_all(&self.value);
        proof {
            lemma_overwrite_concat(d0, p, hdr@, self.key@);
            lemma_overwrite_concat(d0, p, hdr@ + self.key@, self.value@);
            assert((hdr@ + self.key@) + self.value@ =~= self.encoding());
        }
        Ok(offset)
    }

    fn read_from(r: &mut Stream, offset: u64) -> (res: Result<Option<DiskEntry>, FormatError>) {
        r.seek(offset);
        let hb = r.read_up_to(HEADER_SIZE);
        if hb.len() == 0 {
            return Ok(None);
        }
        if hb.len() < HEADER_SIZE {
            return Err(FormatError::Truncated);
        }
        let header = Header::decode(&hb);
        let key = match r.read_exact(header.key_sz() as usize) {
            Ok(k) => k,
            Err(e) => {
                return Err(e);
            },
        };
        let value = match r.read_exact(header.value_sz() as usize) {
            Ok(v) => v,
            Err(e) => {
                return Err(e);
            },
        };
        Ok(Some(DiskEntry { header, key, value, offset: None, file_id: None }))
    }
}

/// Law: for an entry whose stored code is the checksum of its key and value
/// (`is_validate` answers true), changing any single byte of the value makes
/// the stored code and the recomputed checksum differ, so `is_validate`
/// answers false; an unchanged value keeps them equal.
pub proof fn lemma_validity_value_sensitive(e: DiskEntryModel, v2: Seq<u8>, i: int)
    requires
        e.header.crc == checksum(e.key, e.value),
        v2.len() == e.value.len(),
        0 <= i < v2.len(),
        v2[i] != e.value[i],
        forall|j: int| 0 <= j < v2.len() && j != i ==> v2[j] == e.value[j],
    ensures
        e.header.crc != checksum(e.key, v2),
{
    crate::crc::lemma_checksum_value_sensitive(e.key, e.value, v2, i);
}

/// Law: as `lemma_validity_value_sensitive`, for a single changed key byte.
pub proof fn lemma_validity_key_sensitive(e: DiskEntryModel, k2: Seq<u8>, i: int)
    requires
        e.header.crc == checksum(e.key, e.value),
        k2.len() == e.key.len(),
        0 <= i < k2.len(),
        k2[i] != e.key[i],
        forall|j: int| 0 <= j < k2.len() && j != i ==> k2[j] == e.key[j],
    ensures
        e.header.crc != checksum(k2, e.value),
{
    crate::crc::lemma_checksum_key_sensitive(e.key, k2, e.value, i);
}

/// Law: a data entry whose declared sizes match its key and value reads back
/// intact from the offset it was appended at — the parse yields its header
/// (checksum included), key and value, with placement left unset.
pub proof fn lemma_data_entry_round_trip(data: Seq<u8>, m: DiskEntryModel)
    requires
        m.header.key_sz == m.key.len(),
        m.header.value_sz == m.value.len(),
    ensures
        parse_data_entry(data + data_entry_bytes(m), data.len() as int) == ReadOutcome::Entry(
            DiskEntryModel {
                header: m.header,
                key: m.key,
                value: m.value,
                offset: None,
                file_id: None,
            },
        ),
        parse_data_entry(
            overwrite(data, data.len() as int, data_entry_bytes(m)),
            data.len() as int,
        ) == parse_data_entry(data + data_entry_bytes(m), data.len() as int),
{
    lemma_overwrite_append(data, data_entry_bytes(m));
    let all = data + data_entry_bytes(m);
    let off = data.len() as int;
    lemma_header_round(m.header);
    assert(all.subrange(off, off + HEADER_SIZE) =~= header_bytes(m.header));
    assert(all.subrange(off + HEADER_SIZE, off + HEADER_SIZE + m.key.len()) =~= m.key);
    assert(all.subrange(
        off + HEADER_SIZE + m.key.len(),
        off + HEADER_SIZE + m.key.len() + m.value.len(),
    ) =~= m.value);
}

} // verus!
