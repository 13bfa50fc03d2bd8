//! Pictures as a caller gets them: PNG or JPEG, in base64.

use base64::Engine;
use image::ImageEncoder;
use vstd::prelude::*;

use crate::picture::{Picture, PictureView};
use crate::wire::{self, Failure, FailureView};

verus! {

/// What the PNG encoder makes of RGBA bytes: the file, or the sentence the failure is
/// described by.
pub uninterp spec fn png_file(bytes: Seq<u8>, width: u32, height: u32) -> Result<
    Seq<u8>,
    Seq<char>,
>;

/// What the JPEG encoder makes of RGB bytes: the file, or the sentence the failure is
/// described by.
pub uninterp spec fn jpeg_file(bytes: Seq<u8>, width: u32, height: u32, quality: u8) -> Result<
    Seq<u8>,
    Seq<char>,
>;

/// `PngEncoder::new` and `write_image` on RGBA bytes: what is written depends on the
/// bytes and the size alone.
#[verifier::external_body]
fn write_png(bytes: &Vec<u8>, width: u32, height: u32) -> (r: Result<Vec<u8>, String>)
    requires
        bytes@.len() == 4 * width * height,
    ensures
        match r {
            Ok(file) => png_file(bytes@, width, height) == Ok::<Seq<u8>, Seq<char>>(file@),
            Err(sentence) => png_file(bytes@, width, height) == Err::<Seq<u8>, Seq<char>>(
                sentence@,
            ),
        },
{
    let mut file = Vec::new();
    image::codecs::png::PngEncoder::new(&mut file)
        .write_image(bytes, width, height, image::ExtendedColorType::Rgba8)
        .map_err(|e| e.to_string())?;
    Ok(file)
}

/// `JpegEncoder::new_with_quality` and `write_image` on RGB bytes: what is written
/// depends on the bytes, the size and the quality alone.
#[verifier::external_body]
fn write_jpeg(bytes: &Vec<u8>, width: u32, height: u32, quality: u8) -> (r: Result<Vec<u8>, String>)
    requires
        3 * width <= usize::MAX,
        bytes@.len() == 3 * width * height,
    ensures
        match r {
            Ok(file) => jpeg_file(bytes@, width, height, quality) == Ok::<Seq<u8>, Seq<char>>(
                file@,
            ),
            Err(sentence) => jpeg_file(bytes@, width, height, quality) == Err::<
                Seq<u8>,
                Seq<char>,
            >(sentence@),
        },
{
    let mut file = Vec::new();
    image::codecs::jpeg::JpegEncoder::new_with_quality(&mut file, quality)
        .write_image(bytes, width, height, image::ExtendedColorType::Rgb8)
        .map_err(|e| e.to_string())?;
    Ok(file)
}

/// The bytes of a picture without its alpha channel: three of every four.
pub open spec fn without_alpha(bytes: Seq<u8>) -> Seq<u8> {
    Seq::new((bytes.len() / 4 * 3) as nat, |k: int| bytes[k / 3 * 4 + k % 3])
}

/// Drops the alpha channel, which a JPEG has none of.
fn drop_alpha(bytes: &Vec<u8>) -> (r: Vec<u8>)
    requires
        bytes@.len() % 4 == 0,
    ensures
        r@ == without_alpha(bytes@),
{
    let mut out: Vec<u8> = Vec::new();
    let mut i: usize = 0;
    let size: usize = bytes.len();
    while i < size
        invariant
            i <= size,
            size == bytes@.len(),
            i % 4 == 0,
            size % 4 == 0,
            out@.len() == i / 4 * 3,
            forall|k: int| 0 <= k < out@.len() ==> #[trigger] out@[k] == bytes@[k / 3 * 4 + k % 3],
        decreases size - i,
    {
        out.push(bytes[i]);
        out.push(bytes[i + 1]);
        out.push(bytes[i + 2]);
        i += 4;
    }
    assert(out@ =~= without_alpha(bytes@));
    out
}

/// What an encoded picture is called.
pub open spec fn mime_of(jpeg_quality: Option<u8>) -> Seq<char> {
    match jpeg_quality {
        Some(_) => "image/jpeg"@,
        None => "image/png"@,
    }
}

/// What an encoder's answer is to a caller: the file, or the failure named by its
/// format.
pub open spec fn file_of(jpeg_quality: Option<u8>, written: Result<Seq<u8>, Seq<char>>) -> Result<
    Seq<u8>,
    FailureView,
> {
    match written {
        Ok(file) => Ok(file),
        Err(sentence) => Err(
            wire::coded(
                (if jpeg_quality is Some {
                    "encode jpeg: "@
                } else {
                    "encode png: "@
                }) + sentence,
            ),
        ),
    }
}

/// A picture as a file: JPEG where a quality was asked for, and PNG, which loses
/// nothing, otherwise.
pub open spec fn encoded(picture: PictureView, jpeg_quality: Option<u8>) -> Result<
    Seq<u8>,
    FailureView,
> {
    let (width, height) = (picture.width as u32, picture.height as u32);
    file_of(
        jpeg_quality,
        match jpeg_quality {
            Some(quality) => jpeg_file(without_alpha(picture.bytes), width, height, quality),
            None => png_file(picture.bytes, width, height),
        },
    )
}

/// An encoder's file with what it is called, or its failure named by its format.
pub fn encoded_as(jpeg_quality: Option<u8>, written: Result<Vec<u8>, String>) -> (r: Result<
    (Vec<u8>, &'static str),
    Failure,
>)
    ensures
        (match r {
            Ok((file, _)) => Ok(file@),
            Err(failure) => Err(failure@),
        }) == file_of(
            jpeg_quality,
            match written {
                Ok(file) => Ok(file@),
                Err(sentence) => Err(sentence@),
            },
        ),
        r matches Ok((_, mime)) ==> mime@ == mime_of(jpeg_quality),
{
    match written {
        Ok(file) => Ok(
            (
                file,
                match jpeg_quality {
                    Some(_) => "image/jpeg",
                    None => "image/png",
                },
            ),
        ),
        Err(sentence) => {
            let mut code = match jpeg_quality {
                Some(_) => "encode jpeg: ".to_owned(),
                None => "encode png: ".to_owned(),
            };
            code.append(sentence.as_str());
            Err(Failure { code, detail: None })
        },
    }
}

/// Encodes a picture. The quality changes how many bytes it takes and never its size
/// in pixels, which is what coordinates are read in.
pub fn encode_image(picture: &Picture, jpeg_quality: Option<u8>) -> (r: Result<
    (Vec<u8>, &'static str),
    Failure,
>)
    ensures
        (match r {
            Ok((file, _)) => Ok(file@),
            Err(failure) => Err(failure@),
        }) == encoded(picture@, jpeg_quality),
        r matches Ok((_, mime)) ==> mime@ == mime_of(jpeg_quality),
{
    let width: u32 = picture.width();
    let height: u32 = picture.height();
    let bytes = picture.bytes();
    let written = match jpeg_quality {
        Some(quality) => {
            proof {
                let pixels = width * height;
                assert(4 * width * height == 4 * pixels && 3 * width * height == 3 * pixels)
                    by (nonlinear_arith)
                    requires
                        pixels == width * height,
                ;
            }
            let rgb = drop_alpha(bytes);
            write_jpeg(&rgb, width, height, quality)
        },
        None => write_png(bytes, width, height),
    };
    encoded_as(jpeg_quality, written)
}

/// The character of base64's standard alphabet for six bits.
pub open spec fn symbol(bits: int) -> char {
    "ABCDEFGHIJKLMNOPQRSTUVWXYZabcdefghijklmnopqrstuvwxyz0123456789+/"@[bits]
}

/// Bytes in base64, with padding: four characters for every three bytes.
pub open spec fn base64_text(bytes: Seq<u8>) -> Seq<char>
    decreases bytes.len(),
{
    if bytes.len() == 0 {
        Seq::empty()
    } else if bytes.len() == 1 {
        let n = bytes[0] * 0x1_0000;
        seq![symbol(n / 0x4_0000), symbol(n / 0x1000 % 64), '=', '=']
    } else if bytes.len() == 2 {
        let n = bytes[0] * 0x1_0000 + bytes[1] * 0x100;
        seq![symbol(n / 0x4_0000), symbol(n / 0x1000 % 64), symbol(n / 64 % 64), '=']
    } else {
        let n = bytes[0] * 0x1_0000 + bytes[1] * 0x100 + bytes[2];
        seq![
            symbol(n / 0x4_0000),
            symbol(n / 0x1000 % 64),
            symbol(n / 64 % 64),
            symbol(n % 64),
        ] + base64_text(bytes.skip(3))
    }
}

/// How many characters bytes take in base64.
pub open spec fn base64_length(bytes: nat) -> nat {
    (bytes + 2) / 3 * 4
}

/// `STANDARD.encode` of `base64`: the bytes in base64 with the standard alphabet and
/// padding.
#[verifier::external_body]
fn write_base64(bytes: &Vec<u8>) -> (r: String)
    requires
        base64_length(bytes@.len()) <= isize::MAX,
    ensures
        r@ == base64_text(bytes@),
{
    base64::engine::general_purpose::STANDARD.encode(bytes)
}

/// Writes bytes in base64; nothing where the text would be longer than a text can be.
pub fn to_base64(bytes: &Vec<u8>) -> (r: Option<String>)
    ensures
        r is Some <==> base64_length(bytes@.len()) <= isize::MAX,
        r matches Some(text) ==> text@ == base64_text(bytes@),
{
    let size: u128 = bytes.len() as u128;
    if (size + 2) / 3 * 4 > isize::MAX as u128 {
        None
    } else {
        Some(write_base64(bytes))
    }
}

/// A picture without its alpha channel has three bytes for each of its pixels: the red,
/// the green and the blue one, in their places.
pub proof fn only_alpha_is_left_out(bytes: Seq<u8>, pixel: int, channel: int)
    requires
        0 <= pixel < bytes.len() / 4,
        0 <= channel < 3,
    ensures
        without_alpha(bytes).len() == 3 * (bytes.len() / 4),
        without_alpha(bytes)[3 * pixel + channel] == bytes[4 * pixel + channel],
{
}

/// A picture is encoded as PNG with every byte of it, or as JPEG, in the quality that
/// was asked for, with every byte but its alpha channel; in both with its own size.
pub proof fn a_picture_is_encoded_whole(picture: PictureView, jpeg_quality: Option<u8>)
    ensures
        ({
            let (width, height) = (picture.width as u32, picture.height as u32);
            match jpeg_quality {
                None => match png_file(picture.bytes, width, height) {
                    Ok(file) => encoded(picture, jpeg_quality) == Ok::<Seq<u8>, FailureView>(file),
                    Err(_) => encoded(picture, jpeg_quality) is Err,
                },
                Some(quality) => exists|plain: Seq<u8>|
                    {
                        &&& plain.len() == 3 * (picture.bytes.len() / 4)
                        &&& forall|k: int|
                            0 <= k < plain.len() ==> #[trigger] plain[k] == picture.bytes[4 * (k
                                / 3) + k % 3]
                        &&& match #[trigger] jpeg_file(plain, width, height, quality) {
                            Ok(file) => encoded(picture, jpeg_quality) == Ok::<
                                Seq<u8>,
                                FailureView,
                            >(file),
                            Err(_) => encoded(picture, jpeg_quality) is Err,
                        }
                    },
            }
        }),
{
    if let Some(quality) = jpeg_quality {
        let plain = without_alpha(picture.bytes);
        let file = jpeg_file(plain, picture.width as u32, picture.height as u32, quality);
        assert(plain.len() == 3 * (picture.bytes.len() / 4));
        assert(match file {
            Ok(file) => encoded(picture, jpeg_quality) == Ok::<Seq<u8>, FailureView>(file),
            Err(_) => encoded(picture, jpeg_quality) is Err,
        });
    }
}

/// The six bits a character of base64's standard alphabet stands for: the capital
/// letters, the small ones, the digits, and two signs.
pub open spec fn bits_of(c: char) -> int {
    if 'A' as nat <= c as nat <= 'Z' as nat {
        c as nat - 'A' as nat
    } else if 'a' as nat <= c as nat <= 'z' as nat {
        c as nat - 'a' as nat + 26
    } else if '0' as nat <= c as nat <= '9' as nat {
        c as nat - '0' as nat + 52
    } else if c == '+' {
        62
    } else {
        63
    }
}

/// Each character stands for the six bits it is written for, and none is the padding.
pub proof fn a_symbol_stands_for_its_bits(bits: int)
    requires
        0 <= bits < 64,
    ensures
        bits_of(symbol(bits)) == bits,
        symbol(bits) != '=',
{
    reveal_strlit("ABCDEFGHIJKLMNOPQRSTUVWXYZabcdefghijklmnopqrstuvwxyz0123456789+/");
    assert(symbol(0) == 'A' && symbol(1) == 'B' && symbol(2) == 'C' && symbol(3) == 'D');
    assert(symbol(4) == 'E' && symbol(5) == 'F' && symbol(6) == 'G' && symbol(7) == 'H');
    assert(symbol(8) == 'I' && symbol(9) == 'J' && symbol(10) == 'K' && symbol(11) == 'L');
    assert(symbol(12) == 'M' && symbol(13) == 'N' && symbol(14) == 'O' && symbol(15) == 'P');
    assert(symbol(16) == 'Q' && symbol(17) == 'R' && symbol(18) == 'S' && symbol(19) == 'T');
    assert(symbol(20) == 'U' && symbol(21) == 'V' && symbol(22) == 'W' && symbol(23) == 'X');
    assert(symbol(24) == 'Y' && symbol(25) == 'Z' && symbol(26) == 'a' && symbol(27) == 'b');
    assert(symbol(28) == 'c' && symbol(29) == 'd' && symbol(30) == 'e' && symbol(31) == 'f');
    assert(symbol(32) == 'g' && symbol(33) == 'h' && symbol(34) == 'i' && symbol(35) == 'j');
    assert(symbol(36) == 'k' && symbol(37) == 'l' && symbol(38) == 'm' && symbol(39) == 'n');
    assert(symbol(40) == 'o' && symbol(41) == 'p' && symbol(42) == 'q' && symbol(43) == 'r');
    assert(symbol(44) == 's' && symbol(45) == 't' && symbol(46) == 'u' && symbol(47) == 'v');
    assert(symbol(48) == 'w' && symbol(49) == 'x' && symbol(50) == 'y' && symbol(51) == 'z');
    assert(symbol(52) == '0' && symbol(53) == '1' && symbol(54) == '2' && symbol(55) == '3');
    assert(symbol(56) == '4' && symbol(57) == '5' && symbol(58) == '6' && symbol(59) == '7');
    assert(symbol(60) == '8' && symbol(61) == '9' && symbol(62) == '+' && symbol(63) == '/');
    assert('+' as nat == 43 && '/' as nat == 47 && '0' as nat == 48 && '9' as nat == 57);
    assert('A' as nat == 65 && 'Z' as nat == 90 && 'a' as nat == 97 && 'z' as nat == 122);
}

/// The bytes some base64 says.
pub open spec fn decoded(text: Seq<char>) -> Seq<u8>
    decreases text.len(),
{
    if text.len() < 4 {
        Seq::empty()
    } else {
        let high = bits_of(text[0]) * 64 + bits_of(text[1]);
        let first = (high / 16) as u8;
        if text[2] == '=' {
            seq![first]
        } else {
            let middle = high % 16 * 64 + bits_of(text[2]);
            let second = (middle / 4) as u8;
            if text[3] == '=' {
                seq![first, second]
            } else {
                let third = (middle % 4 * 64 + bits_of(text[3])) as u8;
                seq![first, second, third] + decoded(text.skip(4))
            }
        }
    }
}

proof fn three_bytes_are_four_sixes(a: int, b: int, c: int)
    requires
        0 <= a < 256 && 0 <= b < 256 && 0 <= c < 256,
    ensures
        ({
            let n = a * 0x1_0000 + b * 0x100 + c;
            &&& n / 0x4_0000 == a / 4
            &&& n / 0x1000 % 64 == a % 4 * 16 + b / 16
            &&& n / 64 % 64 == b % 16 * 4 + c / 64
            &&& n % 64 == c % 64
        }),
{
    let n = a * 0x1_0000 + b * 0x100 + c;
    assert(n / 0x1000 == a * 16 + b / 16);
    assert(n / 64 == a * 1024 + b * 4 + c / 64);
    assert(a * 16 + b / 16 == a / 4 * 64 + (a % 4 * 16 + b / 16));
    assert(a * 1024 + b * 4 + c / 64 == (a * 16 + b / 16) * 64 + (b % 16 * 4 + c / 64));
}

proof fn four_sixes_are_three_bytes(a: int, b: int, c: int)
    requires
        0 <= a < 256 && 0 <= b < 256 && 0 <= c < 256,
    ensures
        ({
            let high = a / 4 * 64 + (a % 4 * 16 + b / 16);
            let middle = high % 16 * 64 + (b % 16 * 4 + c / 64);
            &&& high / 16 == a
            &&& middle / 4 == b
            &&& middle % 4 * 64 + c % 64 == c
        }),
{
    let high = a / 4 * 64 + (a % 4 * 16 + b / 16);
    assert(high == a * 16 + b / 16);
    assert(high % 16 == b / 16);
}

/// Base64 says exactly the bytes it was made of.
pub proof fn base64_reads_back(bytes: Seq<u8>)
    ensures
        decoded(base64_text(bytes)) == bytes,
        base64_text(bytes).len() == base64_length(bytes.len()),
    decreases bytes.len(),
{
    if bytes.len() > 0 {
        let a = bytes[0] as int;
        let b: int = if bytes.len() > 1 {
            bytes[1] as int
        } else {
            0
        };
        let c: int = if bytes.len() > 2 {
            bytes[2] as int
        } else {
            0
        };
        three_bytes_are_four_sixes(a, b, c);
        four_sixes_are_three_bytes(a, b, c);
        a_symbol_stands_for_its_bits(a / 4);
        a_symbol_stands_for_its_bits(a % 4 * 16 + b / 16);
        a_symbol_stands_for_its_bits(b % 16 * 4 + c / 64);
        a_symbol_stands_for_its_bits(c % 64);
        let text = base64_text(bytes);
        assert(text[0] == symbol(a / 4));
        assert(text[1] == symbol(a % 4 * 16 + b / 16));
        if bytes.len() == 1 {
            assert(decoded(text) =~= bytes);
        } else if bytes.len() == 2 {
            assert(text[2] == symbol(b % 16 * 4 + c / 64));
            assert(decoded(text) =~= bytes);
        } else {
            assert(text[2] == symbol(b % 16 * 4 + c / 64));
            assert(text[3] == symbol(c % 64));
            base64_reads_back(bytes.skip(3));
            assert(text.skip(4) =~= base64_text(bytes.skip(3)));
            assert(bytes =~= seq![bytes[0], bytes[1], bytes[2]] + bytes.skip(3));
            assert(decoded(text) == seq![bytes[0], bytes[1], bytes[2]] + decoded(text.skip(4)));
        }
    }
}

} // verus!
