//! The QR code of a payload, and the errors of making one into an image.

use vstd::prelude::*;

verus! {

#[verifier::external_type_specification]
#[verifier::external_body]
pub struct ExQrCode(qrcode::QrCode);

#[verifier::external_type_specification]
#[verifier::external_body]
pub struct ExQrError(qrcode::types::QrError);

#[verifier::external_type_specification]
#[verifier::external_body]
pub struct ExImageError(image::ImageError);

#[verifier::external_type_specification]
#[verifier::external_body]
pub struct ExIoError(std::io::Error);

/// Why a QR code image could not be made.
#[derive(Debug)]
pub enum GenerationError {
    /// The text does not fit in a QR code, or holds data that cannot be encoded.
    QrError(qrcode::types::QrError),
    /// The image could not be encoded.
    ImageError(image::ImageError),
    /// The image could not be written.
    Io(std::io::Error),
}

/// Whether the text fits in a QR code at error correction level M.
pub uninterp spec fn qr_encodable(text: Seq<char>) -> bool;

/// Relies on qrcode's `QrCode::new`: it encodes the text's bytes at error
/// correction level M in the smallest version that holds them, and fails with
/// a `QrError` where none does. The outcome depends on the text alone.
#[verifier::external_body]
pub(crate) fn encode_qr(text: &str) -> (r: Result<qrcode::QrCode, qrcode::types::QrError>)
    ensures
        r is Ok <==> qr_encodable(text@),
{
    qrcode::QrCode::new(text.as_bytes())
}

} // verus!
