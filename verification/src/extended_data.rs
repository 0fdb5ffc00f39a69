//! The extended-data record attached to a status code report.
//!
//! A record is a 20-byte header followed at once by the payload:
//!
//! ```text
//! offset 0  : header_size   (2 bytes, little-endian, always 20)
//! offset 2  : payload_size  (2 bytes, little-endian)
//! offset 4  : type_id       (16-byte GUID)
//! offset 20 : payload       (payload_size bytes)
//! ```
//!
//! The layout is byte-packed: it does not depend on how the host would lay
//! out or align either part in memory.

use crate::error::Error;
use crate::guid::Guid;
use crate::le::{
    get_le, le_bytes, le_value, lemma_le_bytes_len, lemma_le_roundtrip_bytes,
    lemma_le_roundtrip_value, lemma_le_value_bound, lemma_pow256_values, put_le,
};
use vstd::prelude::*;

verus! {

/// Encoded size of the header, which is also the offset of the payload.
pub const HEADER_SIZE: usize = 20;

/// Longest payload whose size the header can state.
pub const MAX_PAYLOAD_SIZE: usize = 0xFFFF;

/// The fixed header that precedes a payload.
#[derive(Clone, Copy, Debug, PartialEq, Eq)]
pub struct ExtendedDataHeader {
    /// Encoded size of this header; 20 in every record.
    pub header_size: u16,
    /// Exact number of payload bytes that follow the header.
    pub payload_size: u16,
    /// The GUID that tells what kind of payload follows.
    pub type_id: Guid,
}

impl ExtendedDataHeader {
    /// Whether this is the header that belongs in front of `payload`.
    pub open spec fn describes(self, payload: Seq<u8>) -> bool {
        &&& self.header_size == HEADER_SIZE
        &&& self.payload_size == payload.len()
    }

    /// The twenty bytes of the header on the wire.
    pub open spec fn wire(self) -> Seq<u8> {
        le_bytes(self.header_size as nat, 2) + le_bytes(self.payload_size as nat, 2)
            + self.type_id@
    }
}

/// A record taken apart: the header, and the payload that followed it.
#[derive(Clone, Debug, PartialEq, Eq)]
pub struct ExtendedDataRecord {
    pub header: ExtendedDataHeader,
    pub payload: Vec<u8>,
}

impl ExtendedDataRecord {
    /// Validity: the header is the one that belongs in front of the payload.
    pub open spec fn wf(self) -> bool {
        self.header.describes(self.payload@)
    }

    /// The bytes of the record on the wire: the header, then the payload.
    pub open spec fn wire(self) -> Seq<u8> {
        self.header.wire() + self.payload@
    }
}

/// The record that carries `payload` under `type_id`.
pub open spec fn record_wire(type_id: Seq<u8>, payload: Seq<u8>) -> Seq<u8> {
    le_bytes(HEADER_SIZE as nat, 2) + le_bytes(payload.len(), 2) + type_id + payload
}

/// Whether `bytes` is a record: long enough for a header that states its own
/// size as 20 and the size of the rest as what is there.
pub open spec fn is_record(bytes: Seq<u8>) -> bool {
    &&& bytes.len() >= HEADER_SIZE
    &&& le_value(bytes.subrange(0, 2)) == HEADER_SIZE
    &&& le_value(bytes.subrange(2, 4)) == bytes.len() - HEADER_SIZE
}

/// The type identifier that a record states.
pub open spec fn record_type_id(bytes: Seq<u8>) -> Seq<u8> {
    bytes.subrange(4, HEADER_SIZE as int)
}

/// The payload that a record carries.
pub open spec fn record_payload(bytes: Seq<u8>) -> Seq<u8> {
    bytes.subrange(HEADER_SIZE as int, bytes.len() as int)
}

/// Serializes `payload` under `type_id` into one contiguous record.
///
/// Fails with `InvalidArgument`, and only then, when the payload is longer
/// than the header's 16-bit size field can state.
pub fn encode(type_id: &Guid, payload: &[u8]) -> (result: Result<Vec<u8>, Error>)
    ensures
        payload@.len() > MAX_PAYLOAD_SIZE ==> result == Err::<Vec<u8>, Error>(
            Error::InvalidArgument,
        ),
        payload@.len() <= MAX_PAYLOAD_SIZE ==> result is Ok,
        result matches Ok(record) ==> {
            &&& record@ == record_wire(type_id@, payload@)
            &&& record@.len() == HEADER_SIZE + payload@.len()
            &&& le_value(record@.subrange(0, 2)) == HEADER_SIZE
            &&& le_value(record@.subrange(2, 4)) == payload@.len()
            &&& record@.subrange(4, 20) == type_id@
            &&& record@.subrange(20, record@.len() as int) == payload@
        },
{
    let size: usize = payload.len();
    if size > MAX_PAYLOAD_SIZE {
        return Err(Error::InvalidArgument);
    }
    let mut record: Vec<u8> = Vec::new();
    put_le(&mut record, HEADER_SIZE as u64, 2);
    put_le(&mut record, size as u64, 2);
    type_id.put(&mut record);
    let mut index: usize = 0;
    let ghost head = record@;
    while index < size
        invariant
            index <= size == payload@.len(),
            record@ == head + payload@.subrange(0, index as int),
        decreases size - index,
    {
        record.push(payload[index]);
        assert(record@ =~= head + payload@.subrange(0, index + 1));
        index = index + 1;
    }
    proof {
        assert(payload@.subrange(0, size as int) =~= payload@);
        assert(record@ =~= record_wire(type_id@, payload@));
        lemma_record_layout(type_id@, payload@);
    }
    Ok(record)
}

/// Splits a record at the 20-byte boundary and reads the header fields at
/// their fixed offsets.
///
/// Succeeds exactly on records; anything else is `InvalidArgument`.
pub fn decode(bytes: &[u8]) -> (result: Result<ExtendedDataRecord, Error>)
    ensures
        is_record(bytes@) <==> result is Ok,
        result is Err ==> result == Err::<ExtendedDataRecord, Error>(Error::InvalidArgument),
        result matches Ok(record) ==> {
            &&& record.wf()
            &&& record.header.type_id@ == record_type_id(bytes@)
            &&& record.payload@ == record_payload(bytes@)
            &&& record.wire() == bytes@
        },
{
    let total: usize = bytes.len();
    if total < HEADER_SIZE {
        return Err(Error::InvalidArgument);
    }
    let header_size: u64 = get_le(bytes, 0, 2);
    let payload_size: u64 = get_le(bytes, 2, 2);
    proof {
        lemma_pow256_values();
        lemma_le_value_bound(bytes@.subrange(2, 4));
    }
    if header_size != HEADER_SIZE as u64 || payload_size != (total - HEADER_SIZE) as u64 {
        return Err(Error::InvalidArgument);
    }
    let type_id = Guid::get(bytes, 4);
    let mut payload: Vec<u8> = Vec::new();
    let mut index: usize = HEADER_SIZE;
    while index < total
        invariant
            HEADER_SIZE <= index <= total == bytes@.len(),
            payload@ == bytes@.subrange(HEADER_SIZE as int, index as int),
        decreases total - index,
    {
        payload.push(bytes[index]);
        assert(payload@ =~= bytes@.subrange(HEADER_SIZE as int, index + 1));
        index = index + 1;
    }
    let header = ExtendedDataHeader {
        header_size: header_size as u16,
        payload_size: payload_size as u16,
        type_id,
    };
    proof {
        lemma_le_roundtrip_bytes(bytes@.subrange(0, 2));
        lemma_le_roundtrip_bytes(bytes@.subrange(2, 4));
        assert(header.wire() + payload@ =~= bytes@);
    }
    Ok(ExtendedDataRecord { header, payload })
}

/// Where each part of a record lies: the header states 20 and the payload's
/// length, the type identifier fills bytes 4 to 20, and the payload follows
/// with nothing in between.
pub proof fn lemma_record_layout(type_id: Seq<u8>, payload: Seq<u8>)
    requires
        type_id.len() == 16,
        payload.len() <= MAX_PAYLOAD_SIZE,
    ensures
        record_wire(type_id, payload).len() == HEADER_SIZE + payload.len(),
        record_wire(type_id, payload).subrange(0, 2) == le_bytes(HEADER_SIZE as nat, 2),
        record_wire(type_id, payload).subrange(2, 4) == le_bytes(payload.len(), 2),
        le_value(record_wire(type_id, payload).subrange(0, 2)) == HEADER_SIZE,
        le_value(record_wire(type_id, payload).subrange(2, 4)) == payload.len(),
        record_wire(type_id, payload).subrange(4, 20) == type_id,
        record_wire(type_id, payload).subrange(20, 20 + payload.len() as int) == payload,
        record_wire(type_id, payload)[0] == 20,
        record_wire(type_id, payload)[1] == 0,
        record_wire(type_id, payload)[2] == payload.len() % 256,
        record_wire(type_id, payload)[3] == payload.len() / 256,
{
    let record = record_wire(type_id, payload);
    let first = le_bytes(HEADER_SIZE as nat, 2);
    let second = le_bytes(payload.len(), 2);
    lemma_le_bytes_len(HEADER_SIZE as nat, 2);
    lemma_le_bytes_len(payload.len(), 2);
    lemma_pow256_values();
    lemma_le_roundtrip_value(HEADER_SIZE as nat, 2);
    lemma_le_roundtrip_value(payload.len(), 2);
    assert(record.subrange(0, 2) =~= first);
    assert(record.subrange(2, 4) =~= second);
    assert(record.subrange(4, 20) =~= type_id);
    assert(record.subrange(20, 20 + payload.len() as int) =~= payload);
    reveal_with_fuel(le_bytes, 3);
}

/// Decoding is the exact inverse of encoding: an encoded record is a record,
/// and it states the type identifier and carries the payload it was made of.
pub proof fn lemma_decode_inverts_encode(type_id: Seq<u8>, payload: Seq<u8>)
    requires
        type_id.len() == 16,
        payload.len() <= MAX_PAYLOAD_SIZE,
    ensures
        is_record(record_wire(type_id, payload)),
        record_type_id(record_wire(type_id, payload)) == type_id,
        record_payload(record_wire(type_id, payload)) == payload,
{
    lemma_record_layout(type_id, payload);
}

/// Encoding is the exact inverse of decoding: what a record states and
/// carries encodes to the very same bytes.
pub proof fn lemma_encode_inverts_decode(bytes: Seq<u8>)
    requires
        is_record(bytes),
    ensures
        record_type_id(bytes).len() == 16,
        record_payload(bytes).len() <= MAX_PAYLOAD_SIZE,
        record_wire(record_type_id(bytes), record_payload(bytes)) == bytes,
{
    let size = bytes.subrange(2, 4);
    lemma_le_value_bound(size);
    lemma_pow256_values();
    lemma_le_roundtrip_bytes(bytes.subrange(0, 2));
    lemma_le_roundtrip_bytes(size);
    assert(record_wire(record_type_id(bytes), record_payload(bytes)) =~= bytes);
}

} // verus!
