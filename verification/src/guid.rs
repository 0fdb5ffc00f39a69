//! 128-bit identifiers in their 16-byte wire representation.
//!
//! A GUID names a service in the platform's directory and tags the type of
//! an extended-data payload. Only its binary form is stable, so that is what
//! the type holds: the first three fields little-endian, the rest as written.

use crate::le::{le_bytes, lemma_le_bytes_len};
use vstd::prelude::*;
use vstd::std_specs::cmp::PartialEqSpecImpl;

verus! {

/// Number of bytes a GUID occupies on the wire.
pub const GUID_SIZE: usize = 16;

/// A GUID, held as the sixteen bytes that go on the wire.
#[derive(Clone, Copy, Debug, Eq)]
pub struct Guid {
    pub bytes: [u8; 16],
}

impl View for Guid {
    type V = Seq<u8>;

    open spec fn view(&self) -> Seq<u8> {
        self.bytes@
    }
}

/// Wire bytes of the all-zero GUID, the sentinel for "not applicable".
pub open spec fn zero_wire() -> Seq<u8> {
    Seq::new(16, |i: int| 0u8)
}

/// Wire bytes of a GUID given by its fields: the three leading integers
/// little-endian, then the two clock-sequence bytes and the six node bytes.
pub open spec fn fields_wire(
    time_low: u32,
    time_mid: u16,
    time_hi_and_version: u16,
    clk_seq_hi_res: u8,
    clk_seq_low: u8,
    node: Seq<u8>,
) -> Seq<u8> {
    le_bytes(time_low as nat, 4) + le_bytes(time_mid as nat, 2) + le_bytes(
        time_hi_and_version as nat,
        2,
    ) + seq![clk_seq_hi_res, clk_seq_low] + node
}

impl Guid {
    /// The all-zero GUID.
    pub fn zero() -> (g: Guid)
        ensures
            g@ == zero_wire(),
    {
        let g = Guid { bytes: [0u8; 16] };
        assert(g@ =~= zero_wire());
        g
    }

    /// Wraps sixteen wire bytes.
    pub fn from_bytes(bytes: [u8; 16]) -> (g: Guid)
        ensures
            g@ == bytes@,
    {
        Guid { bytes }
    }

    /// The sixteen wire bytes.
    pub fn as_bytes(&self) -> (bytes: &[u8; 16])
        ensures
            bytes@ == self@,
    {
        &self.bytes
    }

    /// Builds a GUID from the fields of its textual form
    /// `time_low-time_mid-time_hi_and_version-clk_seq-node`.
    pub fn from_fields(
        time_low: u32,
        time_mid: u16,
        time_hi_and_version: u16,
        clk_seq_hi_res: u8,
        clk_seq_low: u8,
        node: &[u8; 6],
    ) -> (g: Guid)
        ensures
            g@ == fields_wire(
                time_low,
                time_mid,
                time_hi_and_version,
                clk_seq_hi_res,
                clk_seq_low,
                node@,
            ),
    {
        let g = Guid {
            bytes: [
                (time_low % 256) as u8,
                (time_low / 0x100 % 256) as u8,
                (time_low / 0x1_0000 % 256) as u8,
                (time_low / 0x100_0000 % 256) as u8,
                (time_mid % 256) as u8,
                (time_mid / 0x100 % 256) as u8,
                (time_hi_and_version % 256) as u8,
                (time_hi_and_version / 0x100 % 256) as u8,
                clk_seq_hi_res,
                clk_seq_low,
                node[0],
                node[1],
                node[2],
                node[3],
                node[4],
                node[5],
            ],
        };
        proof {
            reveal_with_fuel(le_bytes, 5);
            assert(g@ =~= fields_wire(
                time_low,
                time_mid,
                time_hi_and_version,
                clk_seq_hi_res,
                clk_seq_low,
                node@,
            ));
        }
        g
    }

    /// Appends the sixteen wire bytes to `buffer`.
    pub fn put(&self, buffer: &mut Vec<u8>)
        ensures
            final(buffer)@ == old(buffer)@ + self@,
    {
        let mut index: usize = 0;
        while index < 16
            invariant
                index <= 16,
                buffer@ == old(buffer)@ + self@.subrange(0, index as int),
            decreases 16 - index,
        {
            buffer.push(self.bytes[index]);
            assert(buffer@ =~= old(buffer)@ + self@.subrange(0, index + 1));
            index = index + 1;
        }
        assert(self@.subrange(0, 16) =~= self@);
    }

    /// Reads the GUID that occupies the sixteen bytes of `bytes` from
    /// `offset` on.
    pub fn get(bytes: &[u8], offset: usize) -> (g: Guid)
        requires
            offset + 16 <= bytes@.len(),
        ensures
            g@ == bytes@.subrange(offset as int, offset + 16),
    {
        let total: usize = bytes.len();
        let mut raw = [0u8; 16];
        let mut index: usize = 0;
        while index < 16
            invariant
                index <= 16,
                offset + 16 <= total == bytes@.len(),
                forall|k: int| 0 <= k < index ==> raw@[k] == bytes@[offset + k],
            decreases 16 - index,
        {
            let ghost before = raw@;
            raw[index] = bytes[offset + index];
            assert(raw@ == before.update(index as int, bytes@[offset + index]));
            index = index + 1;
        }
        assert(raw@ =~= bytes@.subrange(offset as int, offset + 16));
        Guid { bytes: raw }
    }

    /// Whether this is the all-zero GUID.
    pub fn is_zero(&self) -> (zero: bool)
        ensures
            zero == (self@ == zero_wire()),
    {
        let mut index: usize = 0;
        while index < 16
            invariant
                index <= 16,
                forall|k: int| 0 <= k < index ==> self@[k] == 0,
            decreases 16 - index,
        {
            if self.bytes[index] != 0 {
                assert(zero_wire()[index as int] == 0);
                return false;
            }
            index = index + 1;
        }
        assert(self@ =~= zero_wire());
        true
    }
}

impl PartialEq for Guid {
    /// Two GUIDs are equal when their wire bytes are.
    fn eq(&self, other: &Guid) -> (equal: bool) {
        let mut index: usize = 0;
        while index < 16
            invariant
                index <= 16,
                forall|k: int| 0 <= k < index ==> self@[k] == other@[k],
            decreases 16 - index,
        {
            if self.bytes[index] != other.bytes[index] {
                return false;
            }
            index = index + 1;
        }
        assert(self@ =~= other@);
        true
    }
}

impl PartialEqSpecImpl for Guid {
    open spec fn obeys_eq_spec() -> bool {
        true
    }

    open spec fn eq_spec(&self, other: &Guid) -> bool {
        self@ == other@
    }
}

/// A GUID given by its fields takes sixteen bytes.
pub proof fn lemma_fields_wire_len(
    time_low: u32,
    time_mid: u16,
    time_hi_and_version: u16,
    clk_seq_hi_res: u8,
    clk_seq_low: u8,
    node: Seq<u8>,
)
    requires
        node.len() == 6,
    ensures
        fields_wire(
            time_low,
            time_mid,
            time_hi_and_version,
            clk_seq_hi_res,
            clk_seq_low,
            node,
        ).len() == 16,
{
    lemma_le_bytes_len(time_low as nat, 4);
    lemma_le_bytes_len(time_mid as nat, 2);
    lemma_le_bytes_len(time_hi_and_version as nat, 2);
}

/// GUIDs with the same wire bytes are the same value.
pub proof fn lemma_guid_ext(a: Guid, b: Guid)
    requires
        a@ == b@,
    ensures
        a == b,
{
    assert(a.bytes =~= b.bytes);
}

} // verus!
