use mu_pi::protocols::status_code::EfiStatusCodeData;
use std::mem::size_of;
use uefi_hid_core::error::Error;
use uefi_hid_core::extended_data::{decode, HEADER_SIZE};
use uefi_hid_core::guid::Guid;
use uefi_hid_core::status_code::{
    ms_whea_rsc_data_type_guid, MsWheaRscInternalErrorData, Severity, StatusCodeEvent,
    MS_WHEA_ERROR_STATUS_TYPE_FATAL, MS_WHEA_ERROR_STATUS_TYPE_INFO, PAYLOAD_SIZE, RECORD_SIZE,
};
use uefi_hid_core::status_code_runtime::{
    report_result, ReportStatusCode, ServiceCall, ServiceHandle, StatusCodeRuntimeProtocol,
};
use uefi_hid_core::telemetry::{init_telemetry, log_telemetry, TelemetryService};

const MOCK_STATUS_CODE_VALUE: u32 = 0xa0a1a2a3;

fn guid(text: &str) -> Guid {
    Guid::from_bytes(uuid::Uuid::parse_str(text).unwrap().to_bytes_le())
}

fn mock_caller_id() -> Guid {
    guid("d0d1d2d3-d4d5-d6d7-d8d9-dadbdcdddedf")
}

fn mock_report_status_code(
    code_type: u32,
    value: u32,
    instance: u32,
    caller_id: &Guid,
    _data: &[u8],
) -> usize {
    assert_eq!(code_type, MS_WHEA_ERROR_STATUS_TYPE_FATAL);
    assert_eq!(value, MOCK_STATUS_CODE_VALUE);
    assert_eq!(instance, 0);
    assert_eq!(*caller_id, mock_caller_id());
    r_efi::efi::Status::SUCCESS.as_usize()
}

fn failing_report_status_code(
    _code_type: u32,
    _value: u32,
    _instance: u32,
    _caller_id: &Guid,
    data: &[u8],
) -> usize {
    assert_eq!(data.len(), 68);
    r_efi::efi::Status::OUT_OF_RESOURCES.as_usize()
}

fn invoke(call: &ServiceCall, service: fn(u32, u32, u32, &Guid, &[u8]) -> usize) -> usize {
    service(call.code_type, call.value, call.instance, &call.caller_id, &call.data)
}

fn located_service() -> TelemetryService {
    let mut service = init_telemetry(guid("11111111-2222-3333-4444-555555555555"));
    service.resolve(Some(ServiceHandle { token: 7 }));
    service
}

#[test]
fn try_log_telemetry() {
    let mut service = init_telemetry(Guid::zero());
    assert_eq!(
        service.lookup_needed(),
        Some(guid("D2B2B828-0826-48A7-B3DF-983C006024F0"))
    );
    service.resolve(Some(ServiceHandle { token: 1 }));

    let payload = MsWheaRscInternalErrorData {
        library_id: Guid::zero(),
        ihv_sharing_guid: Guid::zero(),
        additional_info_1: 0,
        additional_info_2: 0,
    };
    assert_eq!(payload.to_bytes().len(), 48);
    assert_eq!(size_of::<[u8; 68]>(), size_of::<EfiStatusCodeData>() + PAYLOAD_SIZE);

    let prepared = log_telemetry(
        &service,
        true,
        MOCK_STATUS_CODE_VALUE,
        0xb0b1b2b3b4b5b6b7,
        0xc0c1c2c3c4c5c6c7,
        Some(&mock_caller_id()),
        Some(&guid("e0e1e2e3-e4e5-e6e7-e8e9-eaebecedeeef")),
        Some(&guid("f0f1f2f3-f4f5-f6f7-f8f9-fafbfcfdfeff")),
    );
    let call = prepared.unwrap();
    assert_eq!(Ok(()), report_result(invoke(&call, mock_report_status_code)));
}

#[test]
fn rejected_report_is_recording_failed() {
    let service = located_service();
    let call = log_telemetry(
        &service,
        true,
        MOCK_STATUS_CODE_VALUE,
        0xb0b1b2b3b4b5b6b7,
        0xc0c1c2c3c4c5c6c7,
        Some(&mock_caller_id()),
        None,
        None,
    )
    .unwrap();
    assert_eq!(report_result(invoke(&call, mock_report_status_code)), Ok(()));
    assert_eq!(
        report_result(invoke(&call, failing_report_status_code)),
        Err(Error::RecordingFailed { status: r_efi::efi::Status::OUT_OF_RESOURCES.as_usize() })
    );
}

#[test]
fn fatal_report_end_to_end() {
    let service = located_service();
    let x = guid("d0d1d2d3-d4d5-d6d7-d8d9-dadbdcdddedf");
    let y = guid("e0e1e2e3-e4e5-e6e7-e8e9-eaebecedeeef");
    let z = guid("f0f1f2f3-f4f5-f6f7-f8f9-fafbfcfdfeff");
    let event = StatusCodeEvent {
        severity: Severity::Fatal,
        class_id: 0xA0A1A2A3,
        extra1: 0xB0B1B2B3B4B5B6B7,
        extra2: 0xC0C1C2C3C4C5C6C7,
        component_id: Some(x),
        library_id: Some(y),
        partner_id: Some(z),
    };
    let call = service.report(&event).unwrap();
    assert_eq!(call.service, ServiceHandle { token: 7 });
    assert_eq!(call.code_type, 0x8000_0002);
    assert_eq!(call.value, 0xA0A1A2A3);
    assert_eq!(call.instance, 0);
    assert_eq!(call.caller_id, x);
    assert_eq!(call.data.len(), 68);

    let record = decode(&call.data).unwrap();
    assert_eq!(record.header.header_size, 20);
    assert_eq!(record.header.payload_size, 48);
    assert_eq!(record.header.type_id, guid("91DEEA05-8C0A-4DCD-B91E-F21CA0C68405"));
    let data = MsWheaRscInternalErrorData::from_bytes(&record.payload).unwrap();
    assert_eq!(data.library_id, y);
    assert_eq!(data.ihv_sharing_guid, z);
    assert_eq!(data.additional_info_1, 0xB0B1B2B3B4B5B6B7);
    assert_eq!(data.additional_info_2, 0xC0C1C2C3C4C5C6C7);

    assert_eq!(report_result(0), Ok(()));
    assert_eq!(
        report_result(r_efi::efi::Status::DEVICE_ERROR.as_usize()),
        Err(Error::RecordingFailed { status: r_efi::efi::Status::DEVICE_ERROR.as_usize() })
    );
}

#[test]
fn fatal_record_bytes_are_exact() {
    let service = located_service();
    let call = log_telemetry(
        &service,
        true,
        0xA0A1A2A3,
        0xB0B1B2B3B4B5B6B7,
        0xC0C1C2C3C4C5C6C7,
        None,
        Some(&guid("e0e1e2e3-e4e5-e6e7-e8e9-eaebecedeeef")),
        Some(&guid("f0f1f2f3-f4f5-f6f7-f8f9-fafbfcfdfeff")),
    )
    .unwrap();
    let expected: Vec<u8> = vec![
        0x14, 0x00, 0x30, 0x00, // header size 20, payload size 48
        0x05, 0xEA, 0xDE, 0x91, 0x0A, 0x8C, 0xCD, 0x4D, 0xB9, 0x1E, 0xF2, 0x1C, 0xA0, 0xC6, 0x84,
        0x05, // payload type
        0xE3, 0xE2, 0xE1, 0xE0, 0xE5, 0xE4, 0xE7, 0xE6, 0xE8, 0xE9, 0xEA, 0xEB, 0xEC, 0xED, 0xEE,
        0xEF, // library
        0xF3, 0xF2, 0xF1, 0xF0, 0xF5, 0xF4, 0xF7, 0xF6, 0xF8, 0xF9, 0xFA, 0xFB, 0xFC, 0xFD, 0xFE,
        0xFF, // partner
        0xB7, 0xB6, 0xB5, 0xB4, 0xB3, 0xB2, 0xB1, 0xB0, // first value
        0xC7, 0xC6, 0xC5, 0xC4, 0xC3, 0xC2, 0xC1, 0xC0, // second value
    ];
    assert_eq!(call.data, expected);
    assert_eq!(call.data.len(), RECORD_SIZE);
}

#[test]
fn report_before_lookup_is_uninitialized() {
    let service = init_telemetry(Guid::zero());
    let result = log_telemetry(&service, false, 1, 2, 3, None, None, None);
    assert_eq!(result, Err(Error::Uninitialized));
    assert_eq!(service.handle(), None);
}

#[test]
fn report_without_service_is_not_found() {
    let mut service = init_telemetry(Guid::zero());
    service.resolve(None);
    assert_eq!(service.lookup_needed(), None);
    assert_eq!(service.handle(), None);
    let result = log_telemetry(&service, true, 1, 2, 3, None, None, None);
    assert_eq!(result, Err(Error::NotFound));
}

#[test]
fn absence_is_terminal_for_the_session() {
    let mut service = init_telemetry(Guid::zero());
    service.resolve(None);
    service.resolve(Some(ServiceHandle { token: 9 }));
    assert_eq!(service.handle(), None);
    let result = log_telemetry(&service, true, 1, 2, 3, None, None, None);
    assert_eq!(result, Err(Error::NotFound));
}

#[test]
fn first_located_handle_is_kept() {
    let mut service = init_telemetry(Guid::zero());
    service.resolve(Some(ServiceHandle { token: 4 }));
    service.resolve(Some(ServiceHandle { token: 5 }));
    service.resolve(None);
    assert_eq!(service.handle(), Some(ServiceHandle { token: 4 }));
    let call = log_telemetry(&service, false, 1, 2, 3, None, None, None).unwrap();
    assert_eq!(call.service, ServiceHandle { token: 4 });
}

#[test]
fn absent_component_resolves_to_module_identity() {
    let service = located_service();
    let call = log_telemetry(&service, false, 1, 2, 3, None, None, None).unwrap();
    assert_eq!(call.caller_id, guid("11111111-2222-3333-4444-555555555555"));
    assert_eq!(service.module_id(), guid("11111111-2222-3333-4444-555555555555"));
}

#[test]
fn given_component_is_passed_through() {
    let service = located_service();
    let component = guid("8116C328-3DDD-4BB5-A7B0-2098E5E32979");
    let call = log_telemetry(&service, false, 1, 2, 3, Some(&component), None, None).unwrap();
    assert_eq!(call.caller_id, component);
    let zero = Guid::zero();
    let call = log_telemetry(&service, false, 1, 2, 3, Some(&zero), None, None).unwrap();
    assert_eq!(call.caller_id, zero);
}

#[test]
fn absent_library_and_partner_are_zero_on_the_wire() {
    let service = located_service();
    let call = log_telemetry(
        &service,
        false,
        0xA1A2A3A4,
        0xB1B2B3B4B5B6B7B8,
        0xC1C2C3C4C5C6C7C8,
        None,
        None,
        None,
    )
    .unwrap();
    assert_eq!(call.code_type, 0x4000_0002);
    assert_eq!(call.code_type, MS_WHEA_ERROR_STATUS_TYPE_INFO);
    assert_eq!(call.value, 0xA1A2A3A4);
    let payload = decode(&call.data).unwrap().payload;
    assert_eq!(payload.len(), 48);
    assert_eq!(&payload[0..32], &[0u8; 32][..]);
    let data = MsWheaRscInternalErrorData::from_bytes(&payload).unwrap();
    assert!(data.library_id.is_zero());
    assert!(data.ihv_sharing_guid.is_zero());
    assert_eq!(data.additional_info_1, 0xB1B2B3B4B5B6B7B8);
    assert_eq!(data.additional_info_2, 0xC1C2C3C4C5C6C7C8);
}

#[test]
fn severity_maps_to_status_code_type() {
    assert_eq!(Severity::Info.code_type(), 0x4000_0002);
    assert_eq!(Severity::Fatal.code_type(), 0x8000_0002);
    assert_eq!(Severity::from_fatal(true), Severity::Fatal);
    assert_eq!(Severity::from_fatal(false), Severity::Info);
}

#[test]
fn status_code_types_match_the_platform_constants() {
    assert_eq!(uefi_hid_core::status_code::EFI_ERROR_CODE, mu_pi::status_code::EFI_ERROR_CODE);
    assert_eq!(uefi_hid_core::status_code::EFI_ERROR_MINOR, mu_pi::status_code::EFI_ERROR_MINOR);
    assert_eq!(uefi_hid_core::status_code::EFI_ERROR_MAJOR, mu_pi::status_code::EFI_ERROR_MAJOR);
    assert_eq!(
        MS_WHEA_ERROR_STATUS_TYPE_INFO,
        mu_pi::status_code::EFI_ERROR_MINOR | mu_pi::status_code::EFI_ERROR_CODE
    );
    assert_eq!(
        MS_WHEA_ERROR_STATUS_TYPE_FATAL,
        mu_pi::status_code::EFI_ERROR_MAJOR | mu_pi::status_code::EFI_ERROR_CODE
    );
    assert_eq!(HEADER_SIZE, size_of::<EfiStatusCodeData>());
    assert_eq!(HEADER_SIZE + PAYLOAD_SIZE, RECORD_SIZE);
}

#[test]
fn well_known_guids_match_the_platform_constants() {
    assert_eq!(
        StatusCodeRuntimeProtocol.protocol_guid().as_bytes(),
        mu_pi::protocols::status_code::PROTOCOL_GUID.as_bytes()
    );
    assert_eq!(
        ms_whea_rsc_data_type_guid(),
        guid("91DEEA05-8C0A-4DCD-B91E-F21CA0C68405")
    );
    assert_eq!(Guid::zero().as_bytes(), mu_rust_helpers::guid::ZERO.as_bytes());
}

#[test]
fn payload_round_trips() {
    let data = MsWheaRscInternalErrorData {
        library_id: guid("8116C328-3DDD-4BB5-A7B0-2098E5E32979"),
        ihv_sharing_guid: guid("347DFE49-9998-4BB1-A152-536FBEDAB6AD"),
        additional_info_1: 0xE1E2E3E4E5E6E7E8,
        additional_info_2: 0xF1F2F3F4F5F6F7F8,
    };
    let bytes = data.to_bytes();
    assert_eq!(bytes.len(), 48);
    assert_eq!(&bytes[32..40], &0xE1E2E3E4E5E6E7E8u64.to_le_bytes()[..]);
    assert_eq!(&bytes[40..48], &0xF1F2F3F4F5F6F7F8u64.to_le_bytes()[..]);
    assert_eq!(MsWheaRscInternalErrorData::from_bytes(&bytes), Ok(data));
}

#[test]
fn payload_of_wrong_length_is_refused() {
    assert_eq!(
        MsWheaRscInternalErrorData::from_bytes(&[0u8; 47]),
        Err(Error::InvalidArgument)
    );
    assert_eq!(
        MsWheaRscInternalErrorData::from_bytes(&[0u8; 49]),
        Err(Error::InvalidArgument)
    );
    assert_eq!(MsWheaRscInternalErrorData::from_bytes(&[]), Err(Error::InvalidArgument));
}

#[test]
fn report_result_maps_every_status() {
    assert_eq!(report_result(r_efi::efi::Status::SUCCESS.as_usize()), Ok(()));
    assert_eq!(report_result(1), Err(Error::RecordingFailed { status: 1 }));
    let not_found: usize = r_efi::efi::Status::NOT_FOUND.as_usize();
    assert_eq!(report_result(not_found), Err(Error::RecordingFailed { status: not_found }));
    assert_eq!(report_result(usize::MAX), Err(Error::RecordingFailed { status: usize::MAX }));
}

#[test]
fn report_status_code_without_protocol_is_not_found() {
    let result = StatusCodeRuntimeProtocol::report_status_code(
        None,
        &Guid::zero(),
        MS_WHEA_ERROR_STATUS_TYPE_FATAL,
        1,
        0,
        None,
        ms_whea_rsc_data_type_guid(),
        &[0u8; 48],
    );
    assert_eq!(result, Err(Error::NotFound));
    let result = StatusCodeRuntimeProtocol::report_status_code(
        None,
        &Guid::zero(),
        MS_WHEA_ERROR_STATUS_TYPE_FATAL,
        1,
        0,
        None,
        ms_whea_rsc_data_type_guid(),
        &vec![0u8; 70000],
    );
    assert_eq!(result, Err(Error::NotFound));
}

#[test]
fn report_status_code_passes_its_arguments_on() {
    let module = guid("347DFE49-9998-4BB1-A152-536FBEDAB6AD");
    let data_type = guid("8116C328-3DDD-4BB5-A7B0-2098E5E32979");
    let call = StatusCodeRuntimeProtocol::report_status_code(
        Some(ServiceHandle { token: 3 }),
        &module,
        0x12345678,
        0x9ABCDEF0,
        5,
        None,
        data_type,
        &[1, 2, 3],
    )
    .unwrap();
    assert_eq!(call.service, ServiceHandle { token: 3 });
    assert_eq!(call.code_type, 0x12345678);
    assert_eq!(call.value, 0x9ABCDEF0);
    assert_eq!(call.instance, 5);
    assert_eq!(call.caller_id, module);
    assert_eq!(call.data.len(), 23);
    assert_eq!(&call.data[0..4], &[20, 0, 3, 0][..]);
    assert_eq!(&call.data[4..20], &data_type.as_bytes()[..]);
    assert_eq!(&call.data[20..], &[1, 2, 3][..]);
}

#[test]
fn report_status_code_refuses_oversized_data() {
    let result = StatusCodeRuntimeProtocol::report_status_code(
        Some(ServiceHandle { token: 3 }),
        &Guid::zero(),
        1,
        2,
        0,
        None,
        Guid::zero(),
        &vec![0u8; 0x10000],
    );
    assert_eq!(result, Err(Error::InvalidArgument));
}
