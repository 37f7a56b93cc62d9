//! A captured screen as text: the picture's bytes in base64, and the data
//! address that carries them inside a message.

use vstd::prelude::*;
use vstd::string::*;

verus! {

/// The base64 text of bytes in the standard alphabet, with padding.
pub uninterp spec fn base64_standard(bytes: Seq<u8>) -> Seq<char>;

/// Whether the length of the text for `len` bytes can be computed: four
/// characters for every three bytes, the last group filled up.
pub open spec fn base64_fits(len: nat) -> bool {
    len / 3 * 4 + 4 <= usize::MAX
}

/// `base64::Engine::encode` on the engine `general_purpose::STANDARD`. The
/// text is a function of the bytes alone; the call panics where the text's
/// length overflows, which the condition leaves out.
#[verifier::external_body]
fn standard_encode(bytes: &[u8]) -> (text: String)
    requires
        base64_fits(bytes@.len()),
    ensures
        text@ == base64_standard(bytes@),
{
    base64::Engine::encode(&base64::engine::general_purpose::STANDARD, bytes)
}

/// The picture as base64 text, unless it is too long for its text to be
/// addressed.
pub fn encode_screenshot(png: &[u8]) -> (r: Option<String>)
    ensures
        base64_fits(png@.len()) ==> r.is_some() && r.unwrap()@ == base64_standard(png@),
        !base64_fits(png@.len()) ==> r.is_none(),
{
    if png.len() / 3 <= (usize::MAX - 4) / 4 {
        Some(standard_encode(png))
    } else {
        None
    }
}

/// The data address of a picture that is given as base64 text.
pub open spec fn data_url_text(base64: Seq<char>) -> Seq<char> {
    "data:image/png;base64,"@ + base64
}

/// The data address of a picture that is given as base64 text.
pub fn data_url(base64: &str) -> (url: String)
    ensures
        url@ == data_url_text(base64@),
{
    String::from_str("data:image/png;base64,").concat(base64)
}

} // verus!
