//! Resolution of a range request against the object's authoritative size.
use vstd::prelude::*;
use crate::range::{RangeRequest, full_request};

verus! {

/// The span actually served: `start..=end` of an object of `total` bytes.
#[derive(Clone, Copy, Debug, PartialEq, Eq, Structural)]
pub struct ResolvedRange {
    pub start: u64,
    pub end: u64,
    pub length: u64,
    pub total: u64,
    pub is_partial: bool,
}

impl ResolvedRange {
    /// A span inside the object, with its length and partiality consistent.
    pub open spec fn wf(self) -> bool {
        &&& self.start <= self.end < self.total
        &&& self.length == self.end - self.start + 1
        &&& self.is_partial == (self.start > 0 || self.end < self.total - 1)
    }
}

/// The outcome of resolving a request.
#[derive(Clone, Copy, Debug, PartialEq, Eq, Structural)]
pub enum Resolution {
    /// The object is empty: an empty transfer, whatever was asked.
    Empty,
    /// A non-empty span of a non-empty object.
    Span(ResolvedRange),
    /// The requested start lies at or beyond the end of a non-empty object.
    Unsatisfiable,
}

/// Whether ranges are honoured or every request is served whole.
#[derive(Clone, Copy, Debug, PartialEq, Eq, Structural)]
pub enum ServeMode {
    FullOnly,
    Ranges,
}

pub open spec fn spec_effective_request(mode: ServeMode, req: RangeRequest) -> RangeRequest {
    match mode {
        ServeMode::FullOnly => full_request(),
        ServeMode::Ranges => req,
    }
}

/// The request as the serving mode sees it.
pub fn effective_request(mode: ServeMode, req: RangeRequest) -> (r: RangeRequest)
    ensures
        r == spec_effective_request(mode, req),
{
    match mode {
        ServeMode::FullOnly => RangeRequest::full(),
        ServeMode::Ranges => req,
    }
}

/// The last byte served: an explicit end strictly after the start and inside
/// the object is kept; any other end means "to the end of the object".
pub open spec fn spec_end(req: RangeRequest, total: u64) -> u64
    recommends
        total > 0,
{
    match req.end {
        Some(e) => if e < total && e > req.start {
            e
        } else {
            (total - 1) as u64
        },
        None => (total - 1) as u64,
    }
}

pub open spec fn spec_resolve(req: RangeRequest, total: u64) -> Resolution {
    if total == 0 {
        Resolution::Empty
    } else if req.start >= total {
        Resolution::Unsatisfiable
    } else {
        let end = spec_end(req, total);
        Resolution::Span(
            ResolvedRange {
                start: req.start,
                end,
                length: (end - req.start + 1) as u64,
                total,
                is_partial: req.start > 0 || end < total - 1,
            },
        )
    }
}

/// Resolves a request against an object of `total` bytes.
pub fn resolve(req: RangeRequest, total: u64) -> (r: Resolution)
    ensures
        r == spec_resolve(req, total),
        r matches Resolution::Span(s) ==> s.wf(),
{
    if total == 0 {
        return Resolution::Empty;
    }
    if req.start >= total {
        return Resolution::Unsatisfiable;
    }
    let end = match req.end {
        Some(e) => if e < total && e > req.start {
            e
        } else {
            total - 1
        },
        None => total - 1,
    };
    Resolution::Span(
        ResolvedRange {
            start: req.start,
            end,
            length: end - req.start + 1,
            total,
            is_partial: req.start > 0 || end < total - 1,
        },
    )
}

/// Every request whose start lies inside a non-empty object resolves to a span
/// with `0 <= start <= end < total` and `length == end - start + 1`; a start at
/// or past the end resolves to `Unsatisfiable`, never to a span.
pub proof fn lemma_resolve_bounds(req: RangeRequest, total: u64)
    requires
        total > 0,
    ensures
        req.start < total ==> (spec_resolve(req, total) matches Resolution::Span(s) && 0 <= s.start
            <= s.end < total && s.length == s.end - s.start + 1 && s.start == req.start),
        req.start >= total ==> spec_resolve(req, total) == Resolution::Unsatisfiable,
{
}

/// Resolving the same request against the same size twice gives the same
/// resolution.
pub proof fn lemma_resolve_idempotent(a: RangeRequest, b: RangeRequest, total: u64)
    requires
        a == b,
    ensures
        spec_resolve(a, total) == spec_resolve(b, total),
{
}

/// The whole-object request against a non-empty object serves every byte, as
/// a complete (not partial) response.
pub proof fn lemma_full_request_serves_whole(total: u64)
    requires
        total > 0,
    ensures
        spec_resolve(full_request(), total) == Resolution::Span(
            ResolvedRange {
                start: 0,
                end: (total - 1) as u64,
                length: total,
                total,
                is_partial: false,
            },
        ),
{
}

} // verus!
