//! Hint entries: the compact, value-less counterpart of a data entry, used
//! to rebuild an index without reading values.

use vstd::prelude::*;
use crate::bytes::{
    le_to_u32, le_to_u64, lemma_u32_le_round, lemma_u64_le_round, push_u32_le, push_u64_le,
    read_u32_le, read_u64_le, u32_le, u64_le,
};
use crate::data::{DiskEntry, HEADER_SIZE};
use crate::err::FormatError;
use crate::io::{EntryIO, ReadOutcome};
use crate::stream::{lemma_overwrite_append, lemma_overwrite_concat, overwrite, Stream};

verus! {

/// Size in bytes of an encoded hint-entry header.
pub const HINT_HEADER_SIZE: usize = 20;

/// The fixed metadata of a hint entry: where the data entry lies, the sizes
/// it declares, and its timestamp.
#[derive(Clone, Copy, Debug, PartialEq, Eq, Structural)]
pub struct HintHeader {
    pub offset: u64,
    pub key_sz: u32,
    pub value_sz: u32,
    pub timestamp: u32,
}

/// The 20 on-stream bytes of a hint header: little-endian fields in order.
pub open spec fn hint_header_bytes(h: HintHeader) -> Seq<u8> {
    u64_le(h.offset) + u32_le(h.key_sz) + u32_le(h.value_sz) + u32_le(h.timestamp)
}

/// The hint header stored in 20 bytes.
pub open spec fn parse_hint_header(b: Seq<u8>) -> HintHeader
    recommends
        b.len() == HINT_HEADER_SIZE,
{
    HintHeader {
        offset: le_to_u64(b.subrange(0, 8)),
        key_sz: le_to_u32(b.subrange(8, 12)),
        value_sz: le_to_u32(b.subrange(12, 16)),
        timestamp: le_to_u32(b.subrange(16, 20)),
    }
}

/// Decoding an encoded hint header gives the header back.
pub proof fn lemma_hint_header_round(h: HintHeader)
    ensures
        hint_header_bytes(h).len() == HINT_HEADER_SIZE,
        parse_hint_header(hint_header_bytes(h)) == h,
{
    assert(hint_header_bytes(h).subrange(0, 8) =~= u64_le(h.offset));
    assert(hint_header_bytes(h).subrange(8, 12) =~= u32_le(h.key_sz));
    assert(hint_header_bytes(h).subrange(12, 16) =~= u32_le(h.value_sz));
    assert(hint_header_bytes(h).subrange(16, 20) =~= u32_le(h.timestamp));
    lemma_u64_le_round(h.offset);
    lemma_u32_le_round(h.key_sz);
    lemma_u32_le_round(h.value_sz);
    lemma_u32_le_round(h.timestamp);
}

impl HintHeader {
    pub fn new(offset: u64, key_sz: u32, value_sz: u32, timestamp: u32) -> (r: Self)
        ensures
            r.offset == offset,
            r.key_sz == key_sz,
            r.value_sz == value_sz,
            r.timestamp == timestamp,
    {
        HintHeader { offset, key_sz, value_sz, timestamp }
    }

    pub fn offset(&self) -> (r: u64)
        ensures
            r == self.offset,
    {
        self.offset
    }

    pub fn key_sz(&self) -> (r: usize)
        ensures
            r == self.key_sz,
    {
        self.key_sz as usize
    }

    pub fn value_sz(&self) -> (r: usize)
        ensures
            r == self.value_sz,
    {
        self.value_sz as usize
    }

    pub fn timestamp(&self) -> (r: u32)
        ensures
            r == self.timestamp,
    {
        self.timestamp
    }

    /// The hint header's 20 on-stream bytes.
    pub fn encode(&self) -> (r: Vec<u8>)
        ensures
            r@ == hint_header_bytes(*self),
    {
        let mut v: Vec<u8> = Vec::new();
        push_u64_le(&mut v, self.offset);
        push_u32_le(&mut v, self.key_sz);
        push_u32_le(&mut v, self.value_sz);
        push_u32_le(&mut v, self.timestamp);
        proof {
            assert(v@ =~= hint_header_bytes(*self));
        }
        v
    }

    /// The hint header stored in 20 bytes.
    pub fn decode(b: &Vec<u8>) -> (r: HintHeader)
        requires
            b@.len() == HINT_HEADER_SIZE,
        ensures
            r == parse_hint_header(b@),
    {
        HintHeader {
            offset: read_u64_le(b, 0),
            key_sz: read_u32_le(b, 8),
            value_sz: read_u32_le(b, 12),
            timestamp: read_u32_le(b, 16),
        }
    }
}

/// One hint record: the location metadata of an already placed data entry,
/// plus the key, so an index can be rebuilt without reading values.
#[derive(Clone, Debug)]
pub struct HintEntry {
    /// header of the hint entry.
    pub header: HintHeader,
    /// key of the data entry the hint points at.
    pub key: Vec<u8>,
    /// identifier of the segment file holding the data entry.
    pub file_id: Option<u64>,
}

/// The mathematical content of a `HintEntry`.
pub struct HintEntryModel {
    pub header: HintHeader,
    pub key: Seq<u8>,
    pub file_id: Option<u64>,
}

impl View for HintEntry {
    type V = HintEntryModel;

    open spec fn view(&self) -> HintEntryModel {
        HintEntryModel { header: self.header, key: self.key@, file_id: self.file_id }
    }
}

/// The bytes a hint entry puts on a stream: hint header, then the key.
/// No value bytes ever appear in a hint stream.
pub open spec fn hint_entry_bytes(m: HintEntryModel) -> Seq<u8> {
    hint_header_bytes(m.header) + m.key
}

/// What decoding a hint entry finds at `offset` of `data`.
pub open spec fn parse_hint_entry(data: Seq<u8>, offset: int) -> ReadOutcome<HintEntryModel>
    recommends
        0 <= offset,
{
    if offset >= data.len() {
        ReadOutcome::End
    } else if offset + HINT_HEADER_SIZE > data.len() {
        ReadOutcome::Truncated
    } else {
        let h = parse_hint_header(data.subrange(offset, offset + HINT_HEADER_SIZE));
        if offset + HINT_HEADER_SIZE + h.key_sz > data.len() {
            ReadOutcome::Truncated
        } else {
            ReadOutcome::Entry(HintEntryModel {
                header: h,
                key: data.subrange(offset + HINT_HEADER_SIZE, offset + HINT_HEADER_SIZE + h.key_sz),
                file_id: None,
            })
        }
    }
}

impl HintEntry {
    /// Construct a hint for a data entry of total on-stream size `size`
    /// placed at `offset`: the declared value size is what remains of `size`
    /// after the data-entry header and the key. A `size` too small to hold
    /// them, or a remainder too large for the format, is an explicit
    /// `InvalidSize` error, never a wrapped subtraction.
    pub fn new(key: Vec<u8>, offset: u64, size: u64, timestamp: u32) -> (r: Result<
        Self,
        FormatError,
    >)
        requires
            key@.len() <= u32::MAX,
        ensures
            HEADER_SIZE + key@.len() <= size && size - HEADER_SIZE - key@.len() <= u32::MAX
                ==> (r matches Ok(h)
                && h.header.offset == offset
                && h.header.key_sz == key@.len()
                && h.header.value_sz == size - HEADER_SIZE - key@.len()
                && h.header.timestamp == timestamp
                && h.key@ == key@
                && h.file_id is None),
            !(HEADER_SIZE + key@.len() <= size && size - HEADER_SIZE - key@.len() <= u32::MAX)
                ==> (r matches Err(e) && e == FormatError::InvalidSize),
    {
        let key_sz = key.len() as u32;
        if size < HEADER_SIZE as u64 + key_sz as u64 {
            return Err(FormatError::InvalidSize);
        }
        let value_sz64 = size - HEADER_SIZE as u64 - key_sz as u64;
        if value_sz64 > u32::MAX as u64 {
            return Err(FormatError::InvalidSize);
        }
        let header = HintHeader::new(offset, key_sz, value_sz64 as u32, timestamp);
        Ok(HintEntry { header, key, file_id: None })
    }

    /// Derive the hint for a placed data entry, copying its offset, sizes,
    /// timestamp and segment id. An entry with no assigned offset has no
    /// meaningful hint: that is an explicit `NotPlaced` error.
    pub fn derive_from(e: &DiskEntry) -> (r: Result<Self, FormatError>)
        requires
            e.key@.len() <= u32::MAX,
            e.value@.len() <= u32::MAX,
        ensures
            e.offset is None ==> (r matches Err(err) && err == FormatError::NotPlaced),
            e.offset matches Some(off) ==> (r matches Ok(h)
                && h.header.offset == off
                && h.header.key_sz == e.key@.len()
                && h.header.value_sz == e.value@.len()
                && h.header.timestamp == e.header.timestamp
                && h.key@ == e.key@
                && h.file_id == e.file_id),
    {
        let offset = match e.offset {
            Some(off) => off,
            None => {
                return Err(FormatError::NotPlaced);
            },
        };
        let header = HintHeader::new(
            offset,
            e.key.len() as u32,
            e.value.len() as u32,
            e.timestamp(),
        );
        Ok(HintEntry { header, key: e.key.clone(), file_id: e.file_id })
    }

    /// The offset of the data entry this hint points at.
    pub fn offset(&self) -> (r: u64)
        ensures
            r == self.header.offset,
    {
        self.header.offset()
    }

    /// The total on-stream size of the data entry this hint points at —
    /// not of the hint record itself.
    pub fn size(&self) -> (r: u64)
        ensures
            r == HEADER_SIZE + self.header.key_sz + self.header.value_sz,
    {
        HEADER_SIZE as u64 + self.header.key_sz as u64 + self.header.value_sz as u64
    }

    /// The timestamp copied from the data entry.
    pub fn timestamp(&self) -> (r: u32)
        ensures
            r == self.header.timestamp,
    {
        self.header.timestamp()
    }

    /// The footprint of this hint record in the hint stream.
    pub fn hint_size(&self) -> (r: u64)
        requires
            HINT_HEADER_SIZE + self.key@.len() <= u64::MAX,
        ensures
            r == HINT_HEADER_SIZE + self.key@.len(),
    {
        HINT_HEADER_SIZE as u64 + self.key.len() as u64
    }

    /// Record the segment file the data entry lies in.
    pub fn file_id(self, file_id: u64) -> (r: Self)
        ensures
            r.header == self.header,
            r.key@ == self.key@,
            r.file_id == Some(file_id),
    {
        let mut this = self;
        this.file_id = Some(file_id);
        this
    }

    /// The key length the hint declares.
    pub fn key_sz(&self) -> (r: usize)
        ensures
            r == self.header.key_sz,
    {
        self.header.key_sz()
    }

    /// The value length the hint declares.
    pub fn value_sz(&self) -> (r: usize)
        ensures
            r == self.header.value_sz,
    {
        self.header.value_sz()
    }
}

impl EntryIO for HintEntry {
    open spec fn encoding(&self) -> Seq<u8> {
        hint_entry_bytes(self@)
    }

    open spec fn parse(data: Seq<u8>, offset: int) -> ReadOutcome<HintEntryModel> {
        parse_hint_entry(data, offset)
    }

    fn write_to(&self, w: &mut Stream) -> (r: Result<u64, FormatError>) {
        let ghost d0 = w.data@;
        let ghost p = w.pos as int;
        let offset = w.position();
        let hdr = self.header.encode();
        w.write_all(&hdr);
        w.write_all(&self.key);
        proof {
            lemma_overwrite_concat(d0, p, hdr@, self.key@);
        }
        Ok(offset)
    }

    fn read_from(r: &mut Stream, offset: u64) -> (res: Result<Option<HintEntry>, FormatError>) {
        r.seek(offset);
        let hb = r.read_up_to(HINT_HEADER_SIZE);
        if hb.len() == 0 {
            return Ok(None);
        }
        if hb.len() < HINT_HEADER_SIZE {
            return Err(FormatError::Truncated);
        }
        let header = HintHeader::decode(&hb);
        let key = match r.read_exact(header.key_sz()) {
            Ok(k) => k,
            Err(e) => {
                return Err(e);
            },
        };
        Ok(Some(HintEntry { header, key, file_id: None }))
    }
}

/// Law: a hint entry whose declared key size matches its key reads back
/// intact from the offset it was appended at — the parse preserves offset,
/// declared sizes, timestamp and key.
pub proof fn lemma_hint_entry_round_trip(data: Seq<u8>, m: HintEntryModel)
    requires
        m.header.key_sz == m.key.len(),
    ensures
        parse_hint_entry(data + hint_entry_bytes(m), data.len() as int) == ReadOutcome::Entry(
            HintEntryModel { header: m.header, key: m.key, file_id: None },
        ),
        parse_hint_entry(
            overwrite(data, data.len() as int, hint_entry_bytes(m)),
            data.len() as int,
        ) == parse_hint_entry(data + hint_entry_bytes(m), data.len() as int),
{
    lemma_overwrite_append(data, hint_entry_bytes(m));
    let all = data + hint_entry_bytes(m);
    let off = data.len() as int;
    lemma_hint_header_round(m.header);
    assert(all.subrange(off, off + HINT_HEADER_SIZE) =~= hint_header_bytes(m.header));
    assert(all.subrange(off + HINT_HEADER_SIZE, off + HINT_HEADER_SIZE + m.key.len()) =~= m.key);
}

} // verus!
