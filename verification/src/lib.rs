//! HKDF key schedule of the TreeKEM group-key layer, with the SCALE framing of
//! its labels, the padding of encrypted instructions, and the decoding and
//! encoding that the enclave context makes of its service provider ID and
//! attestation quote.

pub mod context;
pub mod encoding;
pub mod hash;
pub mod hkdf;
pub mod hmac;
pub mod instructions;
