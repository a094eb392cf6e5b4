//! Inspection of asymmetric key material and X.509 certificate fields.
//!
//! The library detects which of eight encodings — DER or PEM framing of
//! PKCS#1 or PKCS#8/SPKI structures, private or public — a byte stream
//! holds, projects the parsed key's numeric components through a uniform
//! read-only view, derives a private key's CRT values in a checked one-time
//! step, and renders every number in the colon-grouped hexadecimal layout
//! used by common certificate tooling. A small registry resolves
//! signature-algorithm identifiers to their names. Parsing and encoding
//! primitives are outside collaborators; the decision logic around them —
//! the cascade order, the padding and wrapping rules, the fixed field order
//! of the reports — is specified and verified here.

use vstd::prelude::*;

pub mod algid;
pub mod bignum;
pub mod certinfo;
pub mod detect;
pub mod hexfmt;
pub mod keymat;
pub mod text;

verus! {

/// The ways an inspection or export run can fail. `FileUnreadable` and
/// `WriteFailed` are raised by the I/O shell around the library; the other
/// variants are produced by the library itself.
#[derive(Clone, Copy, Debug, PartialEq, Eq, Structural)]
pub enum KeyError {
    /// The input path could not be read.
    FileUnreadable,
    /// The bytes matched none of the recognized key encodings.
    NoFormatMatched,
    /// Every DER reading failed and the bytes are not valid UTF-8 text,
    /// so the PEM readings could not even be attempted.
    InvalidUtf8,
    /// Deriving the CRT values of a private key failed.
    PrecomputeFailed,
    /// The output path could not be written.
    WriteFailed,
}

} // verus!
