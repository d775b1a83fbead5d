//! Thumbnails travel to the caller as `data:` URLs holding PNG bytes.
use vstd::prelude::*;
use vstd::string::*;
use base64::Engine as _;

verus! {

/// Edge, in pixels, of the square a thumbnail fits in.
pub const THUMBNAIL_EDGE: u32 = 128;

pub open spec fn base64_alphabet() -> Seq<char> {
    "ABCDEFGHIJKLMNOPQRSTUVWXYZabcdefghijklmnopqrstuvwxyz0123456789+/"@
}

/// Padded standard base64 text of some bytes: each group of three bytes
/// becomes four characters of six bits each, and a last group of one or two
/// bytes is padded with `=`.
pub open spec fn base64_of(b: Seq<u8>) -> Seq<char>
    decreases b.len(),
{
    let a = base64_alphabet();
    let x: int = if b.len() > 0 { b[0] as int } else { 0 };
    let y: int = if b.len() > 1 { b[1] as int } else { 0 };
    let z: int = if b.len() > 2 { b[2] as int } else { 0 };
    if b.len() == 0 {
        Seq::empty()
    } else if b.len() == 1 {
        seq![a[x / 4], a[(x % 4) * 16], '=', '=']
    } else if b.len() == 2 {
        seq![a[x / 4], a[(x % 4) * 16 + y / 16], a[(y % 16) * 4], '=']
    } else {
        seq![a[x / 4], a[(x % 4) * 16 + y / 16], a[(y % 16) * 4 + z / 64], a[z % 64]]
            + base64_of(b.skip(3))
    }
}

/// Relies on base64's `Engine::encode` with the `STANDARD` engine: padded
/// standard base64 (RFC 4648 alphabet), four characters for each started group
/// of three bytes. It panics only when that length overflows `usize`.
#[verifier::external_body]
fn base64_standard(b: &Vec<u8>) -> (r: String)
    requires
        b@.len() / 3 * 4 + 4 <= usize::MAX,
    ensures
        r@ == base64_of(b@),
        r@.len() == (b@.len() + 2) / 3 * 4,
{
    base64::engine::general_purpose::STANDARD.encode(b)
}

pub open spec fn png_url_prefix() -> Seq<char> {
    "data:image/png;base64,"@
}

/// The `data:` URL of a PNG whose base64 text is `encoded`.
pub fn png_data_url(encoded: &str) -> (r: String)
    ensures
        r@ == png_url_prefix() + encoded@,
{
    let mut r = String::from_str("data:image/png;base64,");
    r.append(encoded);
    r
}

/// The `data:` URL of the PNG bytes `png`.
pub fn thumbnail_data_url(png: &Vec<u8>) -> (r: String)
    requires
        png@.len() / 3 * 4 + 4 <= usize::MAX,
    ensures
        r@ == png_url_prefix() + base64_of(png@),
        r@.len() == png_url_prefix().len() + (png@.len() + 2) / 3 * 4,
{
    let encoded = base64_standard(png);
    png_data_url(encoded.as_str())
}

} // verus!
