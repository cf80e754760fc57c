//! A bridge that serves objects of a remote file-transfer server as
//! byte-range-capable web resources: the `Range` grammar, the resolution of a
//! request against the object's size, the response framing, and the
//! per-request session decisions.
pub mod range;
pub mod resolve;
pub mod response;
pub mod session;
