//! Status code events and the diagnostic payload they put on the wire.

use crate::error::Error;
use crate::guid::{zero_wire, Guid};
use crate::le::{
    get_le, le_bytes, le_value, lemma_le_bytes_len, lemma_le_roundtrip_bytes,
    lemma_le_roundtrip_value, lemma_pow256_values, put_le,
};
use vstd::prelude::*;

verus! {

/// Status code type and status code value, as the reporting service takes them.
pub type EfiStatusCodeType = u32;

pub type EfiStatusCodeValue = u32;

/// Kind bits of a status code type: the code reports an error.
pub const EFI_ERROR_CODE: EfiStatusCodeType = 0x0000_0002;

/// Severity bits of a status code type: a minor error.
pub const EFI_ERROR_MINOR: EfiStatusCodeType = 0x4000_0000;

/// Severity bits of a status code type: a major error.
pub const EFI_ERROR_MAJOR: EfiStatusCodeType = 0x8000_0000;

/// Status code type of an informational telemetry event.
pub const MS_WHEA_ERROR_STATUS_TYPE_INFO: EfiStatusCodeType = 0x4000_0002;

/// Status code type of a fatal telemetry event.
pub const MS_WHEA_ERROR_STATUS_TYPE_FATAL: EfiStatusCodeType = 0x8000_0002;

/// Size of the diagnostic payload on the wire: two GUIDs and two 64-bit
/// integers, byte-packed.
pub const PAYLOAD_SIZE: usize = 48;

/// Size of a whole diagnostic record: header and payload.
pub const RECORD_SIZE: usize = 68;

/// The two status code types are a severity flag joined with the error kind.
pub proof fn lemma_status_types()
    ensures
        MS_WHEA_ERROR_STATUS_TYPE_INFO == EFI_ERROR_MINOR | EFI_ERROR_CODE,
        MS_WHEA_ERROR_STATUS_TYPE_FATAL == EFI_ERROR_MAJOR | EFI_ERROR_CODE,
{
    assert(0x4000_0002u32 == 0x4000_0000u32 | 0x0000_0002u32) by (bit_vector);
    assert(0x8000_0002u32 == 0x8000_0000u32 | 0x0000_0002u32) by (bit_vector);
}

/// GUID that tags the diagnostic payload inside an extended-data record.
pub fn ms_whea_rsc_data_type_guid() -> (g: Guid)
    ensures
        g@ == ms_whea_rsc_data_type_wire(),
{
    Guid::from_fields(0x91DEEA05, 0x8C0A, 0x4DCD, 0xB9, 0x1E, &[0xF2, 0x1C, 0xA0, 0xC6, 0x84, 0x05])
}

/// Wire bytes of the GUID `91DEEA05-8C0A-4DCD-B91E-F21CA0C68405`.
pub open spec fn ms_whea_rsc_data_type_wire() -> Seq<u8> {
    crate::guid::fields_wire(
        0x91DEEA05,
        0x8C0A,
        0x4DCD,
        0xB9,
        0x1E,
        seq![0xF2u8, 0x1Cu8, 0xA0u8, 0xC6u8, 0x84u8, 0x05u8],
    )
}

/// The payload's type identifier takes sixteen bytes, as every GUID does.
pub proof fn lemma_ms_whea_rsc_data_type_len()
    ensures
        ms_whea_rsc_data_type_wire().len() == 16,
{
    crate::guid::lemma_fields_wire_len(
        0x91DEEA05,
        0x8C0A,
        0x4DCD,
        0xB9,
        0x1E,
        seq![0xF2u8, 0x1Cu8, 0xA0u8, 0xC6u8, 0x84u8, 0x05u8],
    );
}

/// How grave an event is.
#[derive(Clone, Copy, Debug, PartialEq, Eq, Structural)]
pub enum Severity {
    Info,
    Fatal,
}

impl Severity {
    /// The status code type that stands for this severity on the wire.
    pub open spec fn spec_code_type(self) -> EfiStatusCodeType {
        match self {
            Severity::Info => MS_WHEA_ERROR_STATUS_TYPE_INFO,
            Severity::Fatal => MS_WHEA_ERROR_STATUS_TYPE_FATAL,
        }
    }

    /// The status code type that stands for this severity on the wire.
    #[verifier::when_used_as_spec(spec_code_type)]
    pub fn code_type(self) -> (code: EfiStatusCodeType)
        ensures
            code == self.spec_code_type(),
    {
        match self {
            Severity::Info => MS_WHEA_ERROR_STATUS_TYPE_INFO,
            Severity::Fatal => MS_WHEA_ERROR_STATUS_TYPE_FATAL,
        }
    }

    /// `Fatal` when the flag is set, `Info` otherwise.
    pub fn from_fatal(is_fatal: bool) -> (severity: Severity)
        ensures
            severity == if is_fatal {
                Severity::Fatal
            } else {
                Severity::Info
            },
    {
        if is_fatal {
            Severity::Fatal
        } else {
            Severity::Info
        }
    }
}

/// The diagnostic payload of a telemetry record.
///
/// On the wire: the library's GUID, the partner's GUID, then the two
/// 64-bit values little-endian, 48 bytes with no padding.
#[derive(Clone, Copy, Debug, PartialEq, Eq)]
pub struct MsWheaRscInternalErrorData {
    /// The library that reports; all zero when the report is not from one.
    pub library_id: Guid,
    /// The partner to share the report with; all zero when there is none.
    pub ihv_sharing_guid: Guid,
    /// First value the caller attaches to the event.
    pub additional_info_1: u64,
    /// Second value the caller attaches to the event.
    pub additional_info_2: u64,
}

/// The 48 payload bytes that hold the given parts.
pub open spec fn payload_wire(
    library_id: Seq<u8>,
    ihv_sharing_guid: Seq<u8>,
    additional_info_1: u64,
    additional_info_2: u64,
) -> Seq<u8> {
    library_id + ihv_sharing_guid + le_bytes(additional_info_1 as nat, 8) + le_bytes(
        additional_info_2 as nat,
        8,
    )
}

impl MsWheaRscInternalErrorData {
    /// The 48 bytes of this payload on the wire.
    pub open spec fn wire(self) -> Seq<u8> {
        payload_wire(
            self.library_id@,
            self.ihv_sharing_guid@,
            self.additional_info_1,
            self.additional_info_2,
        )
    }

    /// Serializes the payload field by field.
    pub fn to_bytes(&self) -> (bytes: Vec<u8>)
        ensures
            bytes@ == self.wire(),
            bytes@.len() == PAYLOAD_SIZE,
    {
        let mut bytes: Vec<u8> = Vec::new();
        self.library_id.put(&mut bytes);
        self.ihv_sharing_guid.put(&mut bytes);
        put_le(&mut bytes, self.additional_info_1, 8);
        put_le(&mut bytes, self.additional_info_2, 8);
        proof {
            lemma_le_bytes_len(self.additional_info_1 as nat, 8);
            lemma_le_bytes_len(self.additional_info_2 as nat, 8);
            assert(bytes@ =~= self.wire());
        }
        bytes
    }

    /// Reads a payload back from its 48 wire bytes.
    ///
    /// Fails with `InvalidArgument`, and only then, when `bytes` is not
    /// exactly 48 bytes long.
    pub fn from_bytes(bytes: &[u8]) -> (result: Result<MsWheaRscInternalErrorData, Error>)
        ensures
            bytes@.len() == PAYLOAD_SIZE <==> result is Ok,
            result is Err ==> result == Err::<MsWheaRscInternalErrorData, Error>(
                Error::InvalidArgument,
            ),
            result matches Ok(data) ==> {
                &&& data.wire() == bytes@
                &&& data.library_id@ == bytes@.subrange(0, 16)
                &&& data.ihv_sharing_guid@ == bytes@.subrange(16, 32)
                &&& data.additional_info_1 == le_value(bytes@.subrange(32, 40))
                &&& data.additional_info_2 == le_value(bytes@.subrange(40, 48))
            },
    {
        if bytes.len() != PAYLOAD_SIZE {
            return Err(Error::InvalidArgument);
        }
        let data = MsWheaRscInternalErrorData {
            library_id: Guid::get(bytes, 0),
            ihv_sharing_guid: Guid::get(bytes, 16),
            additional_info_1: get_le(bytes, 32, 8),
            additional_info_2: get_le(bytes, 40, 8),
        };
        proof {
            lemma_le_roundtrip_bytes(bytes@.subrange(32, 40));
            lemma_le_roundtrip_bytes(bytes@.subrange(40, 48));
            assert(data.wire() =~= bytes@);
        }
        Ok(data)
    }
}

/// Where each part of a payload lies on the wire, and that reading the two
/// integers back little-endian gives the values that were written.
pub proof fn lemma_payload_layout(
    library_id: Seq<u8>,
    ihv_sharing_guid: Seq<u8>,
    additional_info_1: u64,
    additional_info_2: u64,
)
    requires
        library_id.len() == 16,
        ihv_sharing_guid.len() == 16,
    ensures
        payload_wire(library_id, ihv_sharing_guid, additional_info_1, additional_info_2).len()
            == PAYLOAD_SIZE,
        payload_wire(
            library_id,
            ihv_sharing_guid,
            additional_info_1,
            additional_info_2,
        ).subrange(0, 16) == library_id,
        payload_wire(
            library_id,
            ihv_sharing_guid,
            additional_info_1,
            additional_info_2,
        ).subrange(16, 32) == ihv_sharing_guid,
        le_value(
            payload_wire(
                library_id,
                ihv_sharing_guid,
                additional_info_1,
                additional_info_2,
            ).subrange(32, 40),
        ) == additional_info_1,
        le_value(
            payload_wire(
                library_id,
                ihv_sharing_guid,
                additional_info_1,
                additional_info_2,
            ).subrange(40, 48),
        ) == additional_info_2,
{
    let wire = payload_wire(library_id, ihv_sharing_guid, additional_info_1, additional_info_2);
    let first = le_bytes(additional_info_1 as nat, 8);
    let second = le_bytes(additional_info_2 as nat, 8);
    lemma_le_bytes_len(additional_info_1 as nat, 8);
    lemma_le_bytes_len(additional_info_2 as nat, 8);
    lemma_pow256_values();
    lemma_le_roundtrip_value(additional_info_1 as nat, 8);
    lemma_le_roundtrip_value(additional_info_2 as nat, 8);
    assert(wire.subrange(0, 16) =~= library_id);
    assert(wire.subrange(16, 32) =~= ihv_sharing_guid);
    assert(wire.subrange(32, 40) =~= first);
    assert(wire.subrange(40, 48) =~= second);
}

/// A diagnostic event, as a component of the driver states it.
#[derive(Clone, Copy, Debug, PartialEq, Eq)]
pub struct StatusCodeEvent {
    /// How grave the event is.
    pub severity: Severity,
    /// What happened; unique enough to find the reporting code.
    pub class_id: EfiStatusCodeValue,
    /// First value that describes the cause.
    pub extra1: u64,
    /// Second value that describes the cause.
    pub extra2: u64,
    /// The module that emits the event; `None` stands for the module that
    /// owns the telemetry service.
    pub component_id: Option<Guid>,
    /// The library that emits the event, if it is from one.
    pub library_id: Option<Guid>,
    /// The partner that the event concerns, if any.
    pub partner_id: Option<Guid>,
}

/// The wire bytes that an optional GUID resolves to: its own, or all zero
/// where it is absent. The wire has no encoding for absence.
pub open spec fn wire_or_zero(id: Option<Guid>) -> Seq<u8> {
    match id {
        Some(g) => g@,
        None => zero_wire(),
    }
}

/// The GUID that an optional GUID resolves to: itself, or all zero where it
/// is absent.
pub fn guid_or_zero(id: Option<Guid>) -> (g: Guid)
    ensures
        g@ == wire_or_zero(id),
{
    match id {
        Some(g) => g,
        None => Guid::zero(),
    }
}

impl StatusCodeEvent {
    /// The payload bytes that this event puts on the wire.
    pub open spec fn payload_wire(self) -> Seq<u8> {
        payload_wire(
            wire_or_zero(self.library_id),
            wire_or_zero(self.partner_id),
            self.extra1,
            self.extra2,
        )
    }

    /// The identity under which this event is reported by a module whose own
    /// identity is `module_id`: the event's component, passed through as it
    /// is, or the module where the event names none.
    pub open spec fn caller_wire(self, module_id: Seq<u8>) -> Seq<u8> {
        match self.component_id {
            Some(g) => g@,
            None => module_id,
        }
    }

    /// Builds the payload: absent identifiers become the all-zero GUID.
    pub fn payload(&self) -> (data: MsWheaRscInternalErrorData)
        ensures
            data.wire() == self.payload_wire(),
            data.library_id@ == wire_or_zero(self.library_id),
            data.ihv_sharing_guid@ == wire_or_zero(self.partner_id),
            data.additional_info_1 == self.extra1,
            data.additional_info_2 == self.extra2,
    {
        MsWheaRscInternalErrorData {
            library_id: guid_or_zero(self.library_id),
            ihv_sharing_guid: guid_or_zero(self.partner_id),
            additional_info_1: self.extra1,
            additional_info_2: self.extra2,
        }
    }

    /// Resolves the identity under which the event is reported.
    pub fn caller_id(&self, module_id: &Guid) -> (caller: Guid)
        ensures
            caller@ == self.caller_wire(module_id@),
    {
        match self.component_id {
            Some(g) => g,
            None => *module_id,
        }
    }
}

} // verus!
