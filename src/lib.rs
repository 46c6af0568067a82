//! Passive client fingerprints: extraction from request headers, a fixed JSON
//! record layout, authenticated sealing and a base64 transport form.

pub mod fingerprint;
pub mod headers;
pub mod json;
pub mod seal;
pub mod transport;

pub use fingerprint::{build_fingerprint, build_fingerprint_at, Fingerprint, PassiveFingerprint, Timestamp};
pub use headers::{find_header, header_text, Header};
pub use json::{fingerprint_json_with_stamp, serialize_fingerprint};
pub use seal::{encrypt_fingerprint, frame_sealed, respond, split_sealed, SealError, Sealer};
pub use transport::transport_encode;
