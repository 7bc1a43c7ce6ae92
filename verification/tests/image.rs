use liminescreen::error::Error;
use liminescreen::image::validate_image;

#[test]
fn image_validation_rejects_wrong_architecture_and_truncation() {
    let mut data = vec![0; 256];
    data[..2].copy_from_slice(b"MZ");
    data[0x3c..0x40].copy_from_slice(&64u32.to_le_bytes());
    data[64..68].copy_from_slice(b"PE\0\0");
    data[68..70].copy_from_slice(&0x8664u16.to_le_bytes());
    data[88..90].copy_from_slice(&0x20bu16.to_le_bytes());
    data[156..158].copy_from_slice(&10u16.to_le_bytes());
    assert!(validate_image(&data).is_ok());
    assert!(validate_image(&data[..100]).is_err());
    data[68] = 0;
    assert!(validate_image(&data).is_err());
    data[0x3c..0x40].copy_from_slice(&u32::MAX.to_le_bytes());
    assert!(validate_image(&data).is_err());
}

fn valid_image() -> Vec<u8> {
    let mut data = vec![0; 256];
    data[..2].copy_from_slice(b"MZ");
    data[0x3c..0x40].copy_from_slice(&64u32.to_le_bytes());
    data[64..68].copy_from_slice(b"PE\0\0");
    data[68..70].copy_from_slice(&0x8664u16.to_le_bytes());
    data[88..90].copy_from_slice(&0x20bu16.to_le_bytes());
    data[156..158].copy_from_slice(&10u16.to_le_bytes());
    data
}

#[test]
fn each_image_error_has_its_cause() {
    assert_eq!(validate_image(&valid_image()), Ok(()));
    let mut no_mz = valid_image();
    no_mz[1] = b'X';
    assert_eq!(validate_image(&no_mz), Err(Error::NotPe));
    assert_eq!(validate_image(&valid_image()[..127]), Err(Error::NotPe));
    let mut far = valid_image();
    far[0x3c..0x40].copy_from_slice(&163u32.to_le_bytes());
    assert_eq!(validate_image(&far), Err(Error::InvalidPeHeader));
    let mut unsigned = valid_image();
    unsigned[66] = 1;
    assert_eq!(validate_image(&unsigned), Err(Error::InvalidPeHeader));
    let mut pe32 = valid_image();
    pe32[88..90].copy_from_slice(&0x10bu16.to_le_bytes());
    assert_eq!(validate_image(&pe32), Err(Error::WrongImageKind));
    let mut driver = valid_image();
    driver[156..158].copy_from_slice(&11u16.to_le_bytes());
    assert_eq!(validate_image(&driver), Err(Error::WrongImageKind));
}

#[test]
fn the_header_may_end_at_the_last_byte() {
    // Offset 162 leaves exactly the 94 bytes the fields need in 256.
    let mut data = vec![0; 256];
    data[..2].copy_from_slice(b"MZ");
    data[0x3c..0x40].copy_from_slice(&162u32.to_le_bytes());
    data[162..166].copy_from_slice(b"PE\0\0");
    data[166..168].copy_from_slice(&0x8664u16.to_le_bytes());
    data[186..188].copy_from_slice(&0x20bu16.to_le_bytes());
    data[254..256].copy_from_slice(&10u16.to_le_bytes());
    assert_eq!(validate_image(&data), Ok(()));
}
