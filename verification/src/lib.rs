//! Build-time discovery and configuration logic for an OpenSSL
//! installation: version decoding and classification, probe-output
//! parsing, link-mode resolution, location strategy selection, and
//! build-directive assembly.

pub mod cfgs;
pub mod emit;
pub mod envkey;
pub mod errors;
pub mod linkmode;
pub mod locator;
pub mod pipeline;
pub mod probe;
pub mod strutil;
pub mod version;
