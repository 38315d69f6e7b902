//! Colors with 8-bit sRGBA channels, and parsing them from hex strings.
//!
//! A color string is accepted in four forms — `RGB`, `RGBA`, `RRGGBB`,
//! `RRGGBBAA` — where a short form stands for the long form with every
//! digit doubled. The digit pairs are decoded through the `hex` crate.

use vstd::prelude::*;
use vstd::string::StringSliceAdditionalSpecFns;

verus! {

/// An sRGBA color with 8-bit channels.
#[derive(Debug, Clone, Copy, PartialEq, Eq, Structural)]
pub struct Color {
    pub red: u8,
    pub green: u8,
    pub blue: u8,
    pub alpha: u8,
}

/// Why a hex byte string failed to decode.
#[derive(Debug, Clone, Copy, PartialEq, Eq, Structural)]
pub enum HexDecodeError {
    /// A character outside `0-9`, `a-f`, `A-F`, with its position.
    InvalidHexCharacter { c: char, index: usize },
    /// An odd number of digits cannot form whole bytes.
    OddLength,
    /// The digit count does not match the expected decoded size.
    InvalidStringLength,
}

/// Why a string is not a color.
#[derive(Debug, Clone, Copy, PartialEq, Eq, Structural)]
pub enum HexColorError {
    /// The string's length fits none of the four accepted forms.
    Length,
    /// A digit pair failed to decode.
    Hex(HexDecodeError),
}

/// The value of one hex digit (the bytes of `0-9`, `a-f` and `A-F`), or
/// `None` for any other byte.
pub open spec fn hex_digit_value(b: u8) -> Option<u8> {
    if 48 <= b <= 57 {
        Some((b - 48) as u8)
    } else if 97 <= b <= 102 {
        Some((b - 97 + 10) as u8)
    } else if 65 <= b <= 70 {
        Some((b - 65 + 10) as u8)
    } else {
        None
    }
}

/// Index of the first byte that is not a hex digit, scanning left to right.
pub open spec fn first_invalid(data: Seq<u8>) -> Option<int>
    decreases data.len(),
{
    if data.len() == 0 {
        None
    } else if hex_digit_value(data[0]) is None {
        Some(0)
    } else {
        match first_invalid(data.drop_first()) {
            Option::Some(j) => Some(j + 1),
            Option::None => None,
        }
    }
}

/// The bytes an even-length string of hex digits decodes to, two digits
/// per byte; meaningful only when every byte is a digit.
pub open spec fn hex_decoded(data: Seq<u8>) -> Seq<u8> {
    Seq::new(
        data.len() / 2,
        |i: int|
            ((hex_digit_value(data[2 * i])->Some_0 * 16 + hex_digit_value(
                data[2 * i + 1],
            )->Some_0) as u8),
    )
}

/// What the hex-decoding wrapper hands back: the decoded bytes, or why
/// the input is not hex.
pub type HexDecoded = Result<Vec<u8>, HexDecodeError>;

/// Exactly what `hex::decode_to_slice` does with an input of `data` and an
/// output of `n` bytes: an even-length input of hex digits is decoded two
/// digits per byte; otherwise the error names the first offending byte and
/// its position, `OddLength` for an odd input, or `InvalidStringLength`
/// for a mismatched output size.
pub open spec fn hex_decode_post(data: Seq<u8>, n: int, r: HexDecoded) -> bool {
    if data.len() % 2 != 0 {
        r matches Err(e) && e == HexDecodeError::OddLength
    } else if data.len() != 2 * n {
        r matches Err(e) && e == HexDecodeError::InvalidStringLength
    } else {
        match first_invalid(data) {
            Option::None => r is Ok && r->Ok_0@ == hex_decoded(data),
            Option::Some(j) => r matches Err(e) && e == (HexDecodeError::InvalidHexCharacter {
                c: data[j] as char,
                index: j as usize,
            }),
        }
    }
}

/// Relies on `hex::decode_to_slice`, whose behavior [`hex_decode_post`]
/// states in full.
#[verifier::external_body]
fn hex_decode_slice(data: &Vec<u8>, n: usize) -> (r: HexDecoded)
    ensures
        hex_decode_post(data@, n as int, r),
{
    let mut buf: Vec<u8> = vec![0u8; n];
    match hex::decode_to_slice(data.as_slice(), &mut buf) {
        Ok(()) => Ok(buf),
        Err(hex::FromHexError::InvalidHexCharacter { c, index }) => Err(
            HexDecodeError::InvalidHexCharacter { c, index },
        ),
        Err(hex::FromHexError::OddLength) => Err(HexDecodeError::OddLength),
        Err(hex::FromHexError::InvalidStringLength) => Err(HexDecodeError::InvalidStringLength),
    }
}

/// The color a 6-digit `RRGGBB` byte string decodes to.
pub open spec fn spec_decode_rgb(data: Seq<u8>) -> Result<Color, HexColorError> {
    match first_invalid(data) {
        Option::Some(j) => Result::Err(
            HexColorError::Hex(
                HexDecodeError::InvalidHexCharacter { c: data[j] as char, index: j as usize },
            ),
        ),
        Option::None => Result::Ok(
            Color {
                red: hex_decoded(data)[0],
                green: hex_decoded(data)[1],
                blue: hex_decoded(data)[2],
                alpha: 255u8,
            },
        ),
    }
}

/// The color an 8-digit `RRGGBBAA` byte string decodes to.
pub open spec fn spec_decode_rgba(data: Seq<u8>) -> Result<Color, HexColorError> {
    match first_invalid(data) {
        Option::Some(j) => Result::Err(
            HexColorError::Hex(
                HexDecodeError::InvalidHexCharacter { c: data[j] as char, index: j as usize },
            ),
        ),
        Option::None => Result::Ok(
            Color {
                red: hex_decoded(data)[0],
                green: hex_decoded(data)[1],
                blue: hex_decoded(data)[2],
                alpha: hex_decoded(data)[3],
            },
        ),
    }
}

fn decode_rgb(data: &Vec<u8>) -> (r: Result<Color, HexColorError>)
    requires
        data@.len() == 6,
    ensures
        r == spec_decode_rgb(data@),
{
    match hex_decode_slice(data, 3) {
        Result::Ok(buf) => {
            assert(buf@.len() == 3);
            Ok(Color { red: buf[0], green: buf[1], blue: buf[2], alpha: 255 })
        },
        Result::Err(e) => Err(HexColorError::Hex(e)),
    }
}

fn decode_rgba(data: &Vec<u8>) -> (r: Result<Color, HexColorError>)
    requires
        data@.len() == 8,
    ensures
        r == spec_decode_rgba(data@),
{
    match hex_decode_slice(data, 4) {
        Result::Ok(buf) => {
            assert(buf@.len() == 4);
            Ok(Color { red: buf[0], green: buf[1], blue: buf[2], alpha: buf[3] })
        },
        Result::Err(e) => Err(HexColorError::Hex(e)),
    }
}

/// A short form's bytes with every digit doubled.
pub open spec fn doubled(b: Seq<u8>) -> Seq<u8> {
    Seq::new(2 * b.len(), |i: int| b[i / 2])
}

/// What [`Color::hex`] yields for a string with the given bytes.
pub open spec fn spec_hex_color(b: Seq<u8>) -> Result<Color, HexColorError> {
    if b.len() == 3 {
        spec_decode_rgb(doubled(b))
    } else if b.len() == 4 {
        spec_decode_rgba(doubled(b))
    } else if b.len() == 6 {
        spec_decode_rgb(b)
    } else if b.len() == 8 {
        spec_decode_rgba(b)
    } else {
        Result::Err(HexColorError::Length)
    }
}

fn double_bytes(b: &Vec<u8>) -> (r: Vec<u8>)
    ensures
        r@ == doubled(b@),
{
    let mut out: Vec<u8> = Vec::new();
    let mut i: usize = 0;
    while i < b.len()
        invariant
            i <= b.len(),
            out@ =~= doubled(b@).take(2 * (i as int)),
        decreases b.len() - i,
    {
        out.push(b[i]);
        out.push(b[i]);
        assert(out@ =~= doubled(b@).take(2 * (i as int + 1)));
        i = i + 1;
    }
    assert(out@ =~= doubled(b@));
    out
}

impl Color {
    /// New fully opaque `Color` from 8-bit sRGB channels.
    pub fn rgb_u8(r: u8, g: u8, b: u8) -> (c: Color)
        ensures
            c == (Color { red: r, green: g, blue: b, alpha: 255u8 }),
    {
        Color::rgba_u8(r, g, b, 255)
    }

    /// New `Color` from 8-bit sRGBA channels.
    pub fn rgba_u8(r: u8, g: u8, b: u8, a: u8) -> (c: Color)
        ensures
            c == (Color { red: r, green: g, blue: b, alpha: a }),
    {
        Color { red: r, green: g, blue: b, alpha: a }
    }

    /// Parses a color from a hex string: `RGB`, `RGBA`, `RRGGBB` or
    /// `RRGGBBAA`, a short form standing for the long form with every
    /// digit doubled. Any other length is a length error; a stray
    /// character is a decode error naming it.
    pub fn hex(hex: &str) -> (r: Result<Color, HexColorError>)
        ensures
            r == spec_hex_color(hex.spec_bytes()),
    {
        let bytes = hex.as_bytes_vec();
        if bytes.len() == 3 {
            let data = double_bytes(&bytes);
            decode_rgb(&data)
        } else if bytes.len() == 4 {
            let data = double_bytes(&bytes);
            decode_rgba(&data)
        } else if bytes.len() == 6 {
            decode_rgb(&bytes)
        } else if bytes.len() == 8 {
            decode_rgba(&bytes)
        } else {
            Err(HexColorError::Length)
        }
    }
}

impl Default for Color {
    /// White, fully opaque.
    fn default() -> (c: Self)
        ensures
            c == (Color { red: 255u8, green: 255u8, blue: 255u8, alpha: 255u8 }),
    {
        Color::rgb_u8(255, 255, 255)
    }
}

} // verus!
