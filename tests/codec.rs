use license_core::codec::{base64_decode, decode_telemetry, decompress};
use license_core::error::Error;

#[test]
fn base64_decodes_standard_text() {
    assert_eq!(base64_decode("aGVsbG8=").unwrap(), b"hello".to_vec());
    assert_eq!(base64_decode("aGVsbG8").unwrap(), b"hello".to_vec());
    assert_eq!(base64_decode("Zm9vYmFy").unwrap(), b"foobar".to_vec());
    assert_eq!(base64_decode("Zm8=").unwrap(), b"fo".to_vec());
    assert_eq!(base64_decode("+/+/").unwrap(), vec![0xfb, 0xff, 0xbf]);
    assert_eq!(base64_decode("").unwrap(), Vec::<u8>::new());
    assert_eq!(base64_decode("====").unwrap(), Vec::<u8>::new());
}

#[test]
fn base64_rejects_foreign_characters() {
    assert!(base64_decode("aGV sbG8").is_err());
    assert!(base64_decode("aG=Vs").is_err());
    assert!(base64_decode("-_").is_err());
}

#[test]
fn decompress_rejects_non_gzip() {
    assert!(matches!(decompress(b"hello"), Err(Error::Decode)));
}

#[test]
fn telemetry_round_trip() {
    // gzip of "hi" (no name, no mtime)
    let gz: [u8; 22] = [
        0x1f, 0x8b, 0x08, 0x00, 0x00, 0x00, 0x00, 0x00, 0x02, 0xff, 0xcb, 0xc8, 0x04, 0x00, 0xac, 0x2a, 0x93, 0xd8,
        0x02, 0x00, 0x00, 0x00,
    ];
    assert_eq!(decompress(&gz).unwrap(), b"hi".to_vec());
    assert_eq!(decode_telemetry("H4sIAAAAAAAC/8vIBACsKpPYAgAAAA==").unwrap(), b"hi".to_vec());
    assert!(matches!(decode_telemetry("!!"), Err(Error::Decode)));
    assert!(matches!(decode_telemetry("aGVsbG8="), Err(Error::Decode)));
}
