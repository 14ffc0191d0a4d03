//! QR codes of links, rendered as text for the terminal.

use vstd::prelude::*;

verus! {

/// What `QrCode::new(data)` rendered with the `Dense1x2` unicode renderer gives for `data`:
/// the text of the code, or the text of the `QrError` that refused the data.
pub uninterp spec fn qr_rendered(data: Seq<char>) -> Result<Seq<char>, Seq<char>>;

/// Whether the code of `data` renders as `text`.
pub open spec fn renders_as(data: Seq<char>, text: Seq<char>) -> bool {
    qr_rendered(data) == Ok::<Seq<char>, Seq<char>>(text)
}

/// Whether `data` is refused with the error text `message`.
pub open spec fn refused_with(data: Seq<char>, message: Seq<char>) -> bool {
    qr_rendered(data) == Err::<Seq<char>, Seq<char>>(message)
}

/// `qrcode::QrCode::new(data)` (medium error correction, the smallest version that fits)
/// and `render::<unicode::Dense1x2>().build()`: the rendered text, or the text the
/// `QrError` displays (such as `data too long`). Which data the crate refuses is not
/// stated.
#[verifier::external_body]
fn render_qr(data: &str) -> (r: Result<String, String>)
    ensures
        r is Ok ==> qr_rendered(data@) is Ok,
        r is Err ==> qr_rendered(data@) is Err,
        r matches Ok(s) ==> renders_as(data@, s@),
        r matches Err(e) ==> refused_with(data@, e@),
{
    match qrcode::QrCode::new(data) {
        Ok(code) => Ok(code.render::<qrcode::render::unicode::Dense1x2>().build()),
        Err(e) => Err(e.to_string()),
    }
}

/// A text QR code of `data` for the terminal, or the error that refused the data.
pub fn generate_qr_code(data: &str) -> (r: Result<String, String>)
    ensures
        match qr_rendered(data@) {
            Ok(t) => r matches Ok(s) && s@ == t,
            Err(m) => r matches Err(e) && e@ == m,
        },
{
    render_qr(data)
}

} // verus!
