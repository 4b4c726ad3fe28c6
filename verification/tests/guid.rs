use spb2xml24::guid::{to_braced_upper, to_lower};

const BYTES: [u8; 16] = [
    0x44, 0x33, 0x22, 0x11, 0x66, 0x55, 0x88, 0x77, 0x99, 0xAA, 0xBB, 0xCC, 0xDD, 0xEE, 0xFF, 0x00,
];

#[test]
fn formats_dotnet_byte_order() {
    assert_eq!(to_lower(&BYTES), "11223344-5566-7788-99aa-bbccddeeff00");
}

#[test]
fn formats_braced_upper() {
    assert_eq!(to_braced_upper(&BYTES), "{11223344-5566-7788-99AA-BBCCDDEEFF00}");
    assert_eq!(to_braced_upper(&[0u8; 16]), "{00000000-0000-0000-0000-000000000000}");
}
