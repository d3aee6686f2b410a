//! Server icons: PNG data as the base64 data URL that the status document
//! carries.

use vstd::prelude::*;
use vstd::string::StringExecFns;
use vstd::utf8::{encode_utf8, is_ascii_chars, is_ascii_chars_encode_utf8};

use crate::error::{ErrorKind, Fault, Result};
use crate::protocol::types::protocol_error;

verus! {

/// The eight bytes with which every PNG file starts.
pub open spec fn png_signature() -> Seq<u8> {
    seq![0x89u8, 0x50u8, 0x4Eu8, 0x47u8, 0x0Du8, 0x0Au8, 0x1Au8, 0x0Au8]
}

/// The prefix of a data URL that holds a PNG image in base64.
pub open spec fn data_url_prefix() -> Seq<char> {
    "data:image/png;base64,"@
}

/// The standard base64 text, with padding, of a byte sequence.
pub uninterp spec fn base64_text(data: Seq<u8>) -> Seq<char>;

/// `Engine::encode` of the standard base64 engine: the base64 text of the
/// data. It takes four characters for every three bytes or part thereof,
/// all of them ASCII.
#[verifier::external_body]
fn base64_encode(data: &[u8]) -> (text: String)
    requires
        data@.len() <= 0x4000_0000,
    ensures
        text@ == base64_text(data@),
        text@.len() == 4 * ((data@.len() + 2) / 3),
        is_ascii_chars(text@),
{
    base64::Engine::encode(&base64::engine::general_purpose::STANDARD, data)
}

/// Whether the data starts with the PNG signature.
pub fn is_valid_png(data: &[u8]) -> (b: bool)
    ensures
        b == (data@.len() >= 8 && data@.take(8) == png_signature()),
{
    if data.len() < 8 {
        return false;
    }
    let ok = data[0] == 0x89 && data[1] == 0x50 && data[2] == 0x4E && data[3] == 0x47 && data[4]
        == 0x0D && data[5] == 0x0A && data[6] == 0x1A && data[7] == 0x0A;
    proof {
        if ok {
            assert(data@.take(8) =~= png_signature());
        } else {
            assert(data@.take(8)[0] == data@[0]);
            assert(data@.take(8)[1] == data@[1]);
            assert(data@.take(8)[2] == data@[2]);
            assert(data@.take(8)[3] == data@[3]);
            assert(data@.take(8)[4] == data@[4]);
            assert(data@.take(8)[5] == data@[5]);
            assert(data@.take(8)[6] == data@[6]);
            assert(data@.take(8)[7] == data@[7]);
        }
    }
    ok
}

/// The largest PNG file whose data URL is sure to fit a protocol string:
/// three quarters of what the string limit leaves after a generous 26
/// characters for the prefix.
pub fn max_recommended_file_size() -> (n: usize)
    ensures
        n == 24555,
{
    let available_chars: usize = 32767 - 26;
    (available_chars * 3) / 4
}

/// Whether a PNG file of the given size is small enough to serve as a
/// favicon.
pub fn is_suitable_file_size(file_size: usize) -> (b: bool)
    ensures
        b == (file_size <= 24555),
{
    file_size <= max_recommended_file_size()
}

/// The favicon data URL of PNG data. Data without the PNG signature is
/// refused, and so is data of more than 2^30 bytes.
pub fn create_favicon_from_data(png_data: &[u8]) -> (r: Result<String>)
    ensures
        r is Ok <==> png_data@.len() >= 8 && png_data@.take(8) == png_signature()
            && png_data@.len() <= 0x4000_0000,
        r matches Ok(url) ==> url@ == data_url_prefix() + base64_text(png_data@) && url@.len()
            == 22 + 4 * ((png_data@.len() + 2) / 3) && is_ascii_chars(url@),
        r matches Err(e) ==> e.fault() == Some(Fault::Malformed),
{
    if !is_valid_png(png_data) {
        return Err(protocol_error("invalid PNG data"));
    }
    if png_data.len() > 0x4000_0000 {
        return Err(protocol_error("PNG data too large"));
    }
    let encoded = base64_encode(png_data);
    proof {
        reveal_strlit("data:image/png;base64,");
    }
    let url = String::from_str("data:image/png;base64,").concat(encoded.as_str());
    proof {
        assert(is_ascii_chars(url@)) by {
            assert forall|i: int| 0 <= i < url@.len() implies '\0' <= #[trigger] url@[i]
                <= '\u{7f}' by {
                if i >= 22 {
                    assert(url@[i] == encoded@[i - 22]);
                }
            }
        }
    }
    Ok(url)
}

/// Whether a file extension is that of a PNG file, in any letter case.
pub fn is_png_extension(extension: &str) -> (b: bool)
    ensures
        b == ({
            let e = encode_utf8(extension@);
            &&& e.len() == 3
            &&& e[0] == 0x70 || e[0] == 0x50
            &&& e[1] == 0x6E || e[1] == 0x4E
            &&& e[2] == 0x67 || e[2] == 0x47
        }),
{
    let e = extension.as_bytes();
    e.len() == 3 && (e[0] == 0x70 || e[0] == 0x50) && (e[1] == 0x6E || e[1] == 0x4E) && (e[2]
        == 0x67 || e[2] == 0x47)
}

/// The favicon data URL of a PNG file, given the extension of its name and
/// what reading it came to. The extension must be `png`, the file must be
/// readable and of a suitable size, and it must start with the PNG
/// signature. A file that passes these checks always gives a data URL, and
/// the URL fits a protocol string.
pub fn load_favicon_from_file(
    extension: Option<&str>,
    image_data: core::result::Result<Vec<u8>, ErrorKind>,
) -> (r: Result<String>)
    ensures
        r is Ok <==> (extension matches Some(e) && ({
            let b = encode_utf8(e@);
            &&& b.len() == 3
            &&& b[0] == 0x70 || b[0] == 0x50
            &&& b[1] == 0x6E || b[1] == 0x4E
            &&& b[2] == 0x67 || b[2] == 0x47
        })) && (image_data matches Ok(data) && data@.len() <= 24555 && data@.len() >= 8
            && data@.take(8) == png_signature()),
        r matches Ok(url) ==> image_data matches Ok(data) && url@ == data_url_prefix()
            + base64_text(data@) && encode_utf8(url@).len() <= 32767,
        r matches Err(e) ==> e.fault() == Some(Fault::Malformed),
{
    match extension {
        None => {
            return Err(protocol_error("favicon file must have .png extension"));
        },
        Some(e) => {
            if !is_png_extension(e) {
                return Err(protocol_error("favicon must be a PNG file"));
            }
        },
    }
    let data = match image_data {
        Ok(data) => data,
        Err(_) => {
            return Err(protocol_error("failed to read favicon file"));
        },
    };
    if !is_suitable_file_size(data.len()) {
        return Err(protocol_error("favicon file is too large"));
    }
    if !is_valid_png(data.as_slice()) {
        return Err(protocol_error("invalid PNG file format"));
    }
    let url = create_favicon_from_data(data.as_slice())?;
    proof {
        is_ascii_chars_encode_utf8(url@);
    }
    if url.as_str().as_bytes().len() > 32767 {
        return Err(protocol_error("favicon data URL is too large"));
    }
    Ok(url)
}

/// The data URL of the default favicon: the header of a 64 by 64 PNG
/// image without pixel data.
pub fn generate_default_favicon() -> (url: String)
    ensures
        url@ == data_url_prefix() + base64_text(default_png()),
{
    let minimal_png_data: [u8; 33] = [
        0x89,
        0x50,
        0x4E,
        0x47,
        0x0D,
        0x0A,
        0x1A,
        0x0A,
        0x00,
        0x00,
        0x00,
        0x0D,
        0x49,
        0x48,
        0x44,
        0x52,
        0x00,
        0x00,
        0x00,
        0x40,
        0x00,
        0x00,
        0x00,
        0x40,
        0x08,
        0x02,
        0x00,
        0x00,
        0x00,
        0x25,
        0x0B,
        0xE6,
        0x89,
    ];
    assert(minimal_png_data@ =~= default_png());
    let encoded = base64_encode(minimal_png_data.as_slice());
    proof {
        reveal_strlit("data:image/png;base64,");
    }
    String::from_str("data:image/png;base64,").concat(encoded.as_str())
}

/// The bytes of the default image: the PNG signature and the header
/// chunk of a 64 by 64 image.
pub open spec fn default_png() -> Seq<u8> {
    seq![
        0x89u8,
        0x50u8,
        0x4Eu8,
        0x47u8,
        0x0Du8,
        0x0Au8,
        0x1Au8,
        0x0Au8,
        0x00u8,
        0x00u8,
        0x00u8,
        0x0Du8,
        0x49u8,
        0x48u8,
        0x44u8,
        0x52u8,
        0x00u8,
        0x00u8,
        0x00u8,
        0x40u8,
        0x00u8,
        0x00u8,
        0x00u8,
        0x40u8,
        0x08u8,
        0x02u8,
        0x00u8,
        0x00u8,
        0x00u8,
        0x25u8,
        0x0Bu8,
        0xE6u8,
        0x89u8,
    ]
}

} // verus!
