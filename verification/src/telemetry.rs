//! The telemetry service: diagnostic events turned into calls of the
//! platform's reporting service.
//!
//! The service is an explicit value that a module creates once and hands to
//! whatever reports through it. It remembers, for the boot session, what the
//! one lookup of the reporting service gave. The lookup and the call are the
//! host's to make; what to look up, what to call with, and what the answer
//! means is decided here.

use crate::error::Error;
use crate::extended_data::{
    is_record, lemma_decode_inverts_encode, lemma_record_layout, record_payload, record_type_id,
    record_wire,
};
use crate::guid::Guid;
use crate::le::le_value;
use crate::status_code::{
    lemma_ms_whea_rsc_data_type_len, lemma_payload_layout, ms_whea_rsc_data_type_guid,
    ms_whea_rsc_data_type_wire, wire_or_zero, EfiStatusCodeValue, Severity, StatusCodeEvent,
    PAYLOAD_SIZE, RECORD_SIZE,
};
use crate::status_code_runtime::{
    protocol_guid_wire, ReportStatusCode, ServiceCall, ServiceHandle, StatusCodeRuntimeProtocol,
};
use vstd::prelude::*;

verus! {

/// What is known of the reporting service in this boot session.
#[derive(Clone, Copy, Debug, PartialEq, Eq, Structural)]
pub enum ServiceLookup {
    /// The service directory has not been asked yet.
    Pending,
    /// The directory listed the service.
    Found(ServiceHandle),
    /// The directory did not list the service. It is not asked again.
    Absent,
}

impl ServiceLookup {
    /// The state after the directory answered `located`. Only the first
    /// answer counts: the service is located once per boot session.
    pub open spec fn resolved_with(self, located: Option<ServiceHandle>) -> ServiceLookup {
        match self {
            ServiceLookup::Pending => match located {
                Some(handle) => ServiceLookup::Found(handle),
                None => ServiceLookup::Absent,
            },
            _ => self,
        }
    }

    /// The handle to report through, where there is one.
    pub open spec fn handle(self) -> Option<ServiceHandle> {
        match self {
            ServiceLookup::Found(handle) => Some(handle),
            _ => None,
        }
    }
}

/// The service is located once per boot session: after the directory has
/// answered, whatever it answers later changes nothing. In particular an
/// absent service stays absent.
pub proof fn lemma_first_answer_is_kept(
    lookup: ServiceLookup,
    first: Option<ServiceHandle>,
    later: Option<ServiceHandle>,
)
    ensures
        lookup.resolved_with(first).resolved_with(later) == lookup.resolved_with(first),
        lookup.resolved_with(first) != ServiceLookup::Pending,
        ServiceLookup::Pending.resolved_with(None).resolved_with(later) == ServiceLookup::Absent,
{
}

/// Reports diagnostic events on behalf of one module.
#[derive(Debug)]
pub struct TelemetryService {
    module_id: Guid,
    lookup: ServiceLookup,
}

/// Whether `call` is the invocation that reports `event` through `service`
/// on behalf of the module `module_id`: the severity's status code type, the
/// event's class, instance 0, the resolved caller identity, and the 68-byte
/// record that carries the event's payload.
pub open spec fn is_report_of(
    call: ServiceCall,
    service: ServiceHandle,
    module_id: Seq<u8>,
    event: StatusCodeEvent,
) -> bool {
    &&& call.service == service
    &&& call.code_type == event.severity.spec_code_type()
    &&& call.value == event.class_id
    &&& call.instance == 0
    &&& call.caller_id@ == event.caller_wire(module_id)
    &&& call.data@ == record_wire(ms_whea_rsc_data_type_wire(), event.payload_wire())
    &&& call.data@.len() == RECORD_SIZE
}

/// What the reporting service is handed can be taken apart again: the
/// record is one of the diagnostic payload type, and its payload holds the
/// event's library, partner and two values, each at its place.
pub proof fn lemma_report_decodes(
    call: ServiceCall,
    service: ServiceHandle,
    module_id: Seq<u8>,
    event: StatusCodeEvent,
)
    requires
        is_report_of(call, service, module_id, event),
    ensures
        is_record(call.data@),
        record_type_id(call.data@) == ms_whea_rsc_data_type_wire(),
        record_payload(call.data@) == event.payload_wire(),
        record_payload(call.data@).len() == PAYLOAD_SIZE,
        record_payload(call.data@).subrange(0, 16) == wire_or_zero(event.library_id),
        record_payload(call.data@).subrange(16, 32) == wire_or_zero(event.partner_id),
        le_value(record_payload(call.data@).subrange(32, 40)) == event.extra1,
        le_value(record_payload(call.data@).subrange(40, 48)) == event.extra2,
{
    lemma_ms_whea_rsc_data_type_len();
    lemma_payload_layout(
        wire_or_zero(event.library_id),
        wire_or_zero(event.partner_id),
        event.extra1,
        event.extra2,
    );
    lemma_decode_inverts_encode(ms_whea_rsc_data_type_wire(), event.payload_wire());
}

impl TelemetryService {
    /// Wire bytes of the identity of the module this service reports for.
    pub closed spec fn module_wire(&self) -> Seq<u8> {
        self.module_id@
    }

    /// What is known of the reporting service.
    pub closed spec fn lookup(&self) -> ServiceLookup {
        self.lookup
    }

    /// A service for the module `module_id`, with the lookup still to come.
    pub fn new(module_id: Guid) -> (service: TelemetryService)
        ensures
            service.module_wire() == module_id@,
            service.lookup() == ServiceLookup::Pending,
    {
        TelemetryService { module_id, lookup: ServiceLookup::Pending }
    }

    /// The identity of the module this service reports for.
    pub fn module_id(&self) -> (id: Guid)
        ensures
            id@ == self.module_wire(),
    {
        self.module_id
    }

    /// The cached handle of the reporting service, where it was found.
    pub fn handle(&self) -> (handle: Option<ServiceHandle>)
        ensures
            handle == self.lookup().handle(),
    {
        match self.lookup {
            ServiceLookup::Found(handle) => Some(handle),
            _ => None,
        }
    }

    /// The identifier to look up in the service directory, as long as the
    /// directory has not been asked; `None` once it has answered.
    pub fn lookup_needed(&self) -> (protocol: Option<Guid>)
        ensures
            protocol is Some <==> self.lookup() == ServiceLookup::Pending,
            protocol matches Some(g) ==> g@ == protocol_guid_wire(),
    {
        match self.lookup {
            ServiceLookup::Pending => Some(StatusCodeRuntimeProtocol.protocol_guid()),
            _ => None,
        }
    }

    /// Takes the directory's answer to the lookup. The first answer is kept
    /// for the session, found or not; a later one changes nothing.
    pub fn resolve(&mut self, located: Option<ServiceHandle>)
        ensures
            final(self).module_wire() == old(self).module_wire(),
            final(self).lookup() == old(self).lookup().resolved_with(located),
    {
        match self.lookup {
            ServiceLookup::Pending => {
                self.lookup = match located {
                    Some(handle) => ServiceLookup::Found(handle),
                    None => ServiceLookup::Absent,
                };
            },
            _ => {},
        }
    }

    /// Prepares the report of `event`.
    ///
    /// Before the directory was asked the result is `Uninitialized`; where
    /// it did not list the service, `NotFound`. In both cases no record is
    /// built. Otherwise the result is the one call to make.
    pub fn report(&self, event: &StatusCodeEvent) -> (result: Result<ServiceCall, Error>)
        ensures
            self.lookup() == ServiceLookup::Pending ==> result == Err::<ServiceCall, Error>(
                Error::Uninitialized,
            ),
            self.lookup() == ServiceLookup::Absent ==> result == Err::<ServiceCall, Error>(
                Error::NotFound,
            ),
            self.lookup() matches ServiceLookup::Found(service) ==> result is Ok,
            result matches Ok(call) ==> self.lookup() matches ServiceLookup::Found(service)
                && is_report_of(call, service, self.module_wire(), *event),
    {
        let service = match self.lookup {
            ServiceLookup::Pending => {
                return Err(Error::Uninitialized);
            },
            ServiceLookup::Absent => {
                return Err(Error::NotFound);
            },
            ServiceLookup::Found(handle) => handle,
        };
        let payload = event.payload().to_bytes();
        proof {
            lemma_ms_whea_rsc_data_type_len();
            lemma_record_layout(ms_whea_rsc_data_type_wire(), event.payload_wire());
        }
        StatusCodeRuntimeProtocol::report_status_code(
            Some(service),
            &self.module_id,
            event.severity.code_type(),
            event.class_id,
            0,
            event.component_id.as_ref(),
            ms_whea_rsc_data_type_guid(),
            payload.as_slice(),
        )
    }
}

/// The event that the arguments of `log_telemetry` describe.
pub open spec fn telemetry_event(
    is_fatal: bool,
    class_id: EfiStatusCodeValue,
    extra_data1: u64,
    extra_data2: u64,
    component_id: Option<&Guid>,
    library_id: Option<&Guid>,
    ihv_id: Option<&Guid>,
) -> StatusCodeEvent {
    StatusCodeEvent {
        severity: if is_fatal {
            Severity::Fatal
        } else {
            Severity::Info
        },
        class_id,
        extra1: extra_data1,
        extra2: extra_data2,
        component_id: match component_id {
            Some(g) => Some(*g),
            None => None,
        },
        library_id: match library_id {
            Some(g) => Some(*g),
            None => None,
        },
        partner_id: match ihv_id {
            Some(g) => Some(*g),
            None => None,
        },
    }
}

/// Creates the telemetry service of the module `module_id`.
pub fn init_telemetry(module_id: Guid) -> (service: TelemetryService)
    ensures
        service.module_wire() == module_id@,
        service.lookup() == ServiceLookup::Pending,
{
    TelemetryService::new(module_id)
}

/// Prepares the report of a telemetry event.
///
/// `class_id` says what happened and the two extra values describe the
/// cause. `component_id` names the emitting module, and defaults to the
/// module that owns `service`; `library_id` and `ihv_id` name the emitting
/// library and the partner concerned, and default to the all-zero GUID.
pub fn log_telemetry(
    service: &TelemetryService,
    is_fatal: bool,
    class_id: EfiStatusCodeValue,
    extra_data1: u64,
    extra_data2: u64,
    component_id: Option<&Guid>,
    library_id: Option<&Guid>,
    ihv_id: Option<&Guid>,
) -> (result: Result<ServiceCall, Error>)
    ensures
        service.lookup() == ServiceLookup::Pending ==> result == Err::<ServiceCall, Error>(
            Error::Uninitialized,
        ),
        service.lookup() == ServiceLookup::Absent ==> result == Err::<ServiceCall, Error>(
            Error::NotFound,
        ),
        service.lookup() matches ServiceLookup::Found(handle) ==> result is Ok,
        result matches Ok(call) ==> service.lookup() matches ServiceLookup::Found(handle)
            && is_report_of(
            call,
            handle,
            service.module_wire(),
            telemetry_event(
                is_fatal,
                class_id,
                extra_data1,
                extra_data2,
                component_id,
                library_id,
                ihv_id,
            ),
        ),
{
    let event = StatusCodeEvent {
        severity: Severity::from_fatal(is_fatal),
        class_id,
        extra1: extra_data1,
        extra2: extra_data2,
        component_id: match component_id {
            Some(g) => Some(*g),
            None => None,
        },
        library_id: match library_id {
            Some(g) => Some(*g),
            None => None,
        },
        partner_id: match ihv_id {
            Some(g) => Some(*g),
            None => None,
        },
    };
    service.report(&event)
}

} // verus!
