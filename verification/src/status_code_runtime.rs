//! The status code runtime service, seen from the module that calls it.
//!
//! The service itself lives in the platform firmware. Nothing here reaches
//! it: the functions of this module decide what is to be handed to the
//! service and what its answer means, and leave the call to the host.

use crate::error::Error;
use crate::extended_data::{encode, record_wire, MAX_PAYLOAD_SIZE};
use crate::guid::{fields_wire, Guid};
use crate::status_code::{EfiStatusCodeType, EfiStatusCodeValue};
use vstd::prelude::*;

verus! {

/// A session-scoped reference to the located reporting service.
///
/// The token is whatever the host's service directory handed out. It means
/// something only during the boot session in which it was obtained.
#[derive(Clone, Copy, Debug, PartialEq, Eq, Structural)]
pub struct ServiceHandle {
    pub token: usize,
}

/// One invocation of the reporting service, ready to be made.
#[derive(Clone, Debug, PartialEq, Eq)]
pub struct ServiceCall {
    /// The service to invoke.
    pub service: ServiceHandle,
    /// Status code type: severity and kind.
    pub code_type: EfiStatusCodeType,
    /// Status code value: what happened.
    pub value: EfiStatusCodeValue,
    /// Instance of the reporting component.
    pub instance: u32,
    /// Identity of the reporting module.
    pub caller_id: Guid,
    /// The extended-data record that goes with the report.
    pub data: Vec<u8>,
}

/// Marker for the status code runtime protocol in the service directory.
#[derive(Clone, Copy, Debug)]
pub struct StatusCodeRuntimeProtocol;

/// Wire bytes of the GUID `D2B2B828-0826-48A7-B3DF-983C006024F0`, under which
/// the service directory lists the status code runtime protocol.
pub open spec fn protocol_guid_wire() -> Seq<u8> {
    fields_wire(
        0xD2B2B828,
        0x0826,
        0x48A7,
        0xB3,
        0xDF,
        seq![0x98u8, 0x3Cu8, 0x00u8, 0x60u8, 0x24u8, 0xF0u8],
    )
}

impl StatusCodeRuntimeProtocol {
    /// The identifier by which the protocol is looked up.
    pub fn protocol_guid(&self) -> (g: Guid)
        ensures
            g@ == protocol_guid_wire(),
    {
        Guid::from_fields(
            0xD2B2B828,
            0x0826,
            0x48A7,
            0xB3,
            0xDF,
            &[0x98, 0x3C, 0x00, 0x60, 0x24, 0xF0],
        )
    }
}

/// The identity a report is made under: the caller's, passed through as it
/// is, or the module's own where the caller names none.
pub open spec fn resolved_caller(caller_id: Option<&Guid>, module_id: Seq<u8>) -> Seq<u8> {
    match caller_id {
        Some(g) => g@,
        None => module_id,
    }
}

/// Prepares status code reports for a located reporting service.
pub trait ReportStatusCode {
    /// Prepares the report of a status code with `data` as its extended data
    /// of type `data_type`.
    ///
    /// `protocol` is what the lookup of the reporting service gave. Without
    /// a service there is nothing to prepare: the result is `NotFound` and
    /// no record is built. Data too long for a record is `InvalidArgument`.
    /// Otherwise the result is the one call to make: the arguments as given,
    /// the caller's identity or else `module_id`, and the encoded record.
    fn report_status_code(
        protocol: Option<ServiceHandle>,
        module_id: &Guid,
        status_code_type: EfiStatusCodeType,
        status_code_value: EfiStatusCodeValue,
        instance: u32,
        caller_id: Option<&Guid>,
        data_type: Guid,
        data: &[u8],
    ) -> (result: Result<ServiceCall, Error>)
        ensures
            protocol is None ==> result == Err::<ServiceCall, Error>(Error::NotFound),
            protocol is Some && data@.len() > MAX_PAYLOAD_SIZE ==> result == Err::<
                ServiceCall,
                Error,
            >(Error::InvalidArgument),
            protocol is Some && data@.len() <= MAX_PAYLOAD_SIZE ==> result is Ok,
            result matches Ok(call) ==> {
                &&& protocol == Some(call.service)
                &&& call.code_type == status_code_type
                &&& call.value == status_code_value
                &&& call.instance == instance
                &&& call.caller_id@ == resolved_caller(caller_id, module_id@)
                &&& call.data@ == record_wire(data_type@, data@)
            },
    ;
}

impl ReportStatusCode for StatusCodeRuntimeProtocol {
    fn report_status_code(
        protocol: Option<ServiceHandle>,
        module_id: &Guid,
        status_code_type: EfiStatusCodeType,
        status_code_value: EfiStatusCodeValue,
        instance: u32,
        caller_id: Option<&Guid>,
        data_type: Guid,
        data: &[u8],
    ) -> (result: Result<ServiceCall, Error>) {
        let service = match protocol {
            Some(handle) => handle,
            None => {
                return Err(Error::NotFound);
            },
        };
        let record = match encode(&data_type, data) {
            Ok(record) => record,
            Err(error) => {
                return Err(error);
            },
        };
        let caller = match caller_id {
            Some(g) => *g,
            None => *module_id,
        };
        Ok(
            ServiceCall {
                service,
                code_type: status_code_type,
                value: status_code_value,
                instance,
                caller_id: caller,
                data: record,
            },
        )
    }
}

/// What the status returned by the reporting service means: zero is
/// success, anything else is a failure to record, kept with its status.
pub fn report_result(status: usize) -> (result: Result<(), Error>)
    ensures
        status == 0 ==> result == Ok::<(), Error>(()),
        status != 0 ==> result == Err::<(), Error>(Error::RecordingFailed { status }),
{
    if status == 0 {
        Ok(())
    } else {
        Err(Error::RecordingFailed { status })
    }
}

} // verus!
