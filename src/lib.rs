//! Wi-Fi network credentials encoded as the `WIFI:...;;` text that phone
//! cameras read from a QR code.

pub mod field;
pub mod method;
pub mod qr;
pub mod wifi;

pub use field::Field;
pub use method::{EapMethod, Phase2, WifiMethod};
pub use qr::GenerationError;
pub use wifi::Wifi;
