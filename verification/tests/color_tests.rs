use elements_build::color::{Color, HexColorError, HexDecodeError};

#[test]
fn hex_color() {
    assert_eq!(Color::hex("FFF").unwrap(), Color::rgb_u8(255, 255, 255));
    assert_eq!(Color::hex("000").unwrap(), Color::rgb_u8(0, 0, 0));
    assert!(Color::hex("---").is_err());

    assert_eq!(Color::hex("FFFF").unwrap(), Color::rgba_u8(255, 255, 255, 255));
    assert_eq!(Color::hex("0000").unwrap(), Color::rgba_u8(0, 0, 0, 0));
    assert!(Color::hex("----").is_err());

    assert_eq!(Color::hex("FFFFFF").unwrap(), Color::rgb_u8(255, 255, 255));
    assert_eq!(Color::hex("000000").unwrap(), Color::rgb_u8(0, 0, 0));
    assert!(Color::hex("------").is_err());

    assert_eq!(Color::hex("FFFFFFFF").unwrap(), Color::rgba_u8(255, 255, 255, 255));
    assert_eq!(Color::hex("00000000").unwrap(), Color::rgba_u8(0, 0, 0, 0));
    assert!(Color::hex("--------").is_err());

    assert!(Color::hex("1234567890").is_err());
}

#[test]
fn hex_exact_channels() {
    assert_eq!(Color::hex("4080C0").unwrap(), Color::rgb_u8(64, 128, 192));
    assert_eq!(Color::hex("4080C07F").unwrap(), Color::rgba_u8(64, 128, 192, 127));
    assert_eq!(Color::hex("ff00aa").unwrap(), Color::rgb_u8(255, 0, 170));
    assert_eq!(Color::hex("Ff00Aa").unwrap(), Color::rgb_u8(255, 0, 170));
    assert_eq!(Color::hex("19a").unwrap(), Color::rgb_u8(0x11, 0x99, 0xaa));
}

#[test]
fn hex_length_error() {
    assert_eq!(Color::hex(""), Err(HexColorError::Length));
    assert_eq!(Color::hex("12345"), Err(HexColorError::Length));
    assert_eq!(Color::hex("1234567"), Err(HexColorError::Length));
    assert_eq!(Color::hex("123456789"), Err(HexColorError::Length));
}

#[test]
fn hex_invalid_character_error() {
    assert_eq!(
        Color::hex("GGG"),
        Err(HexColorError::Hex(HexDecodeError::InvalidHexCharacter { c: 'G', index: 0 }))
    );
    assert_eq!(
        Color::hex("00000g"),
        Err(HexColorError::Hex(HexDecodeError::InvalidHexCharacter { c: 'g', index: 5 }))
    );
}

#[test]
fn default_is_white() {
    assert_eq!(Color::default(), Color::rgba_u8(255, 255, 255, 255));
}
