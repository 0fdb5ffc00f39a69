use uefi_hid_core::guid::{Guid, GUID_SIZE};
use uefi_hid_core::le::{get_le, put_le};

#[test]
fn from_fields_agrees_with_the_firmware_type() {
    let ours = Guid::from_fields(
        0x434f695c,
        0xef26,
        0x4a12,
        0x9e,
        0xba,
        &[0xdd, 0xef, 0x00, 0x97, 0x49, 0x7c],
    );
    let theirs = r_efi::efi::Guid::from_fields(
        0x434f695c,
        0xef26,
        0x4a12,
        0x9e,
        0xba,
        &[0xdd, 0xef, 0x00, 0x97, 0x49, 0x7c],
    );
    assert_eq!(ours.as_bytes(), theirs.as_bytes());
    assert_eq!(
        ours.as_bytes(),
        &[
            0x5c, 0x69, 0x4f, 0x43, 0x26, 0xef, 0x12, 0x4a, 0x9e, 0xba, 0xdd, 0xef, 0x00, 0x97,
            0x49, 0x7c
        ]
    );
}

#[test]
fn from_fields_agrees_with_the_textual_form() {
    let ours = Guid::from_fields(
        0x00112233,
        0x4455,
        0x6677,
        0x88,
        0x99,
        &[0xaa, 0xbb, 0xcc, 0xdd, 0xee, 0xff],
    );
    let text = uuid::Uuid::parse_str("00112233-4455-6677-8899-aabbccddeeff").unwrap();
    assert_eq!(ours.as_bytes(), &text.to_bytes_le());
    assert_eq!(
        ours.as_bytes(),
        &[
            0x33, 0x22, 0x11, 0x00, 0x55, 0x44, 0x77, 0x66, 0x88, 0x99, 0xaa, 0xbb, 0xcc, 0xdd,
            0xee, 0xff
        ]
    );
}

#[test]
fn from_fields_at_the_extremes() {
    let low = Guid::from_fields(0, 0, 0, 0, 0, &[0; 6]);
    assert!(low.is_zero());
    assert_eq!(low, Guid::zero());
    let high = Guid::from_fields(u32::MAX, u16::MAX, u16::MAX, 0xff, 0xff, &[0xff; 6]);
    assert_eq!(high.as_bytes(), &[0xff; 16]);
    assert!(!high.is_zero());
}

#[test]
fn equality_is_that_of_the_bytes() {
    let a = Guid::from_bytes([1; 16]);
    let b = Guid::from_bytes([1; 16]);
    let mut raw = [1u8; 16];
    raw[15] = 2;
    let c = Guid::from_bytes(raw);
    assert_eq!(a, b);
    assert_ne!(a, c);
    assert_ne!(c, Guid::zero());
}

#[test]
fn put_and_get_round_trip() {
    let g = Guid::from_fields(0x91DEEA05, 0x8C0A, 0x4DCD, 0xB9, 0x1E, &[0xF2, 0x1C, 0xA0, 0xC6, 0x84, 0x05]);
    let mut buffer: Vec<u8> = vec![0xEE, 0xFF];
    g.put(&mut buffer);
    assert_eq!(buffer.len(), 2 + GUID_SIZE);
    assert_eq!(&buffer[0..2], &[0xEE, 0xFF][..]);
    assert_eq!(&buffer[2..], &g.as_bytes()[..]);
    assert_eq!(Guid::get(&buffer, 2), g);
}

#[test]
fn little_endian_helpers_agree_with_std() {
    let mut buffer: Vec<u8> = Vec::new();
    put_le(&mut buffer, 0x0102030405060708, 8);
    assert_eq!(buffer, 0x0102030405060708u64.to_le_bytes().to_vec());
    assert_eq!(get_le(&buffer, 0, 8), 0x0102030405060708);
    assert_eq!(get_le(&buffer, 0, 2), 0x0708);
    assert_eq!(get_le(&buffer, 6, 2), 0x0102);
    assert_eq!(get_le(&buffer, 3, 0), 0);

    let mut narrow: Vec<u8> = vec![9];
    put_le(&mut narrow, 0xABCD, 2);
    assert_eq!(narrow, vec![9, 0xCD, 0xAB]);
    put_le(&mut narrow, 0x1FF, 1);
    assert_eq!(narrow, vec![9, 0xCD, 0xAB, 0xFF]);
    put_le(&mut narrow, 7, 0);
    assert_eq!(narrow.len(), 4);
    put_le(&mut narrow, u64::MAX, 10);
    assert_eq!(&narrow[4..], &[0xFF, 0xFF, 0xFF, 0xFF, 0xFF, 0xFF, 0xFF, 0xFF, 0, 0][..]);
}
