//! The `Range` header grammar.
//!
//! Accepted shape: `bytes=<start>-<end>` with exactly one hyphen after the
//! `bytes=` prefix. A numeral is a non-empty run of ASCII digits whose value
//! fits in a `u64`. Anything that does not have the shape asks for the whole
//! object; inside the shape a start that is not a numeral reads as 0 and an end
//! that is not a numeral reads as "open-ended".
use vstd::prelude::*;

verus! {

/// A client's byte-range request: `end == None` means "to the end of the object".
#[derive(Clone, Copy, Debug, PartialEq, Eq, Structural)]
pub struct RangeRequest {
    pub start: u64,
    pub end: Option<u64>,
}

pub open spec fn full_request() -> RangeRequest {
    RangeRequest { start: 0, end: None }
}

impl RangeRequest {
    /// The request for the whole object.
    pub fn full() -> (r: RangeRequest)
        ensures
            r == full_request(),
    {
        RangeRequest { start: 0, end: None }
    }
}

pub const HYPHEN: u8 = 45;

/// The bytes of `bytes=`.
pub open spec fn unit_prefix() -> Seq<u8> {
    seq![98u8, 121u8, 116u8, 101u8, 115u8, 61u8]
}

pub open spec fn is_digit(b: u8) -> bool {
    48 <= b <= 57
}

pub open spec fn all_digits(s: Seq<u8>) -> bool {
    forall|i: int| 0 <= i < s.len() ==> is_digit(#[trigger] s[i])
}

/// The value of a string of decimal digits, most significant first.
pub open spec fn digits_value(s: Seq<u8>) -> nat
    decreases s.len(),
{
    if s.len() == 0 {
        0
    } else {
        digits_value(s.drop_last()) * 10 + (s.last() - 48) as nat
    }
}

/// A numeral: non-empty, digits only, and small enough for a `u64`.
pub open spec fn numeral(s: Seq<u8>) -> Option<u64> {
    if s.len() > 0 && all_digits(s) && digits_value(s) <= u64::MAX {
        Some(digits_value(s) as u64)
    } else {
        None
    }
}

/// `h` is `bytes=` followed by text whose only hyphen stands at `k`.
pub open spec fn shaped_at(h: Seq<u8>, k: int) -> bool {
    &&& h.len() >= 6
    &&& h.subrange(0, 6) == unit_prefix()
    &&& 6 <= k < h.len()
    &&& h[k] == HYPHEN
    &&& forall|j: int| 6 <= j < h.len() && j != k ==> #[trigger] h[j] != HYPHEN
}

pub open spec fn well_shaped(h: Seq<u8>) -> bool {
    exists|k: int| shaped_at(h, k)
}

/// What a header text asks for.
pub open spec fn spec_parse(h: Seq<u8>) -> RangeRequest {
    if well_shaped(h) {
        let k = choose|k: int| shaped_at(h, k);
        RangeRequest {
            start: match numeral(h.subrange(6, k)) {
                Some(v) => v,
                None => 0,
            },
            end: numeral(h.subrange(k + 1, h.len() as int)),
        }
    } else {
        full_request()
    }
}

/// What an optional header asks for: no header asks for the whole object.
pub open spec fn spec_parse_header(h: Option<Seq<u8>>) -> RangeRequest {
    match h {
        Some(t) => spec_parse(t),
        None => full_request(),
    }
}

proof fn lemma_digits_value_prefix(s: Seq<u8>, k: int)
    requires
        0 <= k <= s.len(),
        all_digits(s),
    ensures
        digits_value(s.subrange(0, k)) <= digits_value(s),
    decreases s.len(),
{
    if k < s.len() {
        assert(s.drop_last() =~= s.subrange(0, s.len() - 1));
        assert(s.subrange(0, s.len() - 1).subrange(0, k) =~= s.subrange(0, k));
        assert(all_digits(s.drop_last()));
        lemma_digits_value_prefix(s.drop_last(), k);
    } else {
        assert(s.subrange(0, k) =~= s);
    }
}

/// Reads `s[lo..hi]` as a numeral.
pub fn parse_numeral(s: &[u8], lo: usize, hi: usize) -> (r: Option<u64>)
    requires
        lo <= hi <= s@.len(),
    ensures
        r == numeral(s@.subrange(lo as int, hi as int)),
{
    let ghost t = s@.subrange(lo as int, hi as int);
    if lo == hi {
        return None;
    }
    let mut i: usize = lo;
    while i < hi
        invariant
            lo <= i <= hi <= s@.len(),
            t == s@.subrange(lo as int, hi as int),
            forall|j: int| lo <= j < i ==> is_digit(#[trigger] s@[j]),
        decreases hi - i,
    {
        if !(48 <= s[i] && s[i] <= 57) {
            assert(!is_digit(t[i - lo]));
            return None;
        }
        i = i + 1;
    }
    assert(all_digits(t));
    let mut acc: u64 = 0;
    let mut i: usize = lo;
    while i < hi
        invariant
            lo <= i <= hi <= s@.len(),
            t == s@.subrange(lo as int, hi as int),
            all_digits(t),
            acc as nat == digits_value(t.subrange(0, i - lo)),
        decreases hi - i,
    {
        assert(t[i - lo] == s@[i as int]);
        assert(is_digit(t[i - lo]));
        let d: u64 = (s[i] - 48) as u64;
        let ghost p = t.subrange(0, i + 1 - lo);
        assert(p.drop_last() =~= t.subrange(0, i - lo));
        assert(p.last() == s@[i as int]);
        if acc > (u64::MAX - d) / 10 {
            assert(digits_value(p) > u64::MAX) by (nonlinear_arith)
                requires
                    digits_value(p) == acc * 10 + d,
                    acc > (u64::MAX - d) / 10,
                    d <= 9,
            ;
            proof {
                lemma_digits_value_prefix(t, i + 1 - lo);
            }
            return None;
        }
        assert(acc * 10 + d <= u64::MAX) by (nonlinear_arith)
            requires
                acc <= (u64::MAX - d) / 10,
                d <= 9,
        ;
        acc = acc * 10 + d;
        i = i + 1;
    }
    assert(t.subrange(0, hi - lo) =~= t);
    Some(acc)
}

/// Reads a `Range` header text. Never fails: text without the accepted shape
/// asks for the whole object.
pub fn parse_range(h: &[u8]) -> (r: RangeRequest)
    ensures
        r == spec_parse(h@),
{
    let n = h.len();
    if n < 6 || h[0] != 98 || h[1] != 121 || h[2] != 116 || h[3] != 101 || h[4] != 115 || h[5]
        != 61 {
        proof {
            if well_shaped(h@) {
                let k = choose|k: int| shaped_at(h@, k);
                assert(h@.subrange(0, 6)[0] == h@[0]);
                assert(h@.subrange(0, 6)[1] == h@[1]);
                assert(h@.subrange(0, 6)[2] == h@[2]);
                assert(h@.subrange(0, 6)[3] == h@[3]);
                assert(h@.subrange(0, 6)[4] == h@[4]);
                assert(h@.subrange(0, 6)[5] == h@[5]);
            }
        }
        return RangeRequest::full();
    }
    assert(h@.subrange(0, 6) =~= unit_prefix());
    // find the first hyphen
    let mut k: usize = 6;
    while k < n && h[k] != HYPHEN
        invariant
            6 <= k <= n == h@.len(),
            forall|j: int| 6 <= j < k ==> #[trigger] h@[j] != HYPHEN,
        decreases n - k,
    {
        k = k + 1;
    }
    if k == n {
        assert(!well_shaped(h@));
        return RangeRequest::full();
    }
    // no second hyphen
    let mut j: usize = k + 1;
    while j < n
        invariant
            k < j <= n == h@.len(),
            6 <= k,
            h@[k as int] == HYPHEN,
            forall|m: int| 6 <= m < k ==> #[trigger] h@[m] != HYPHEN,
            forall|m: int| k < m < j ==> #[trigger] h@[m] != HYPHEN,
        decreases n - j,
    {
        if h[j] == HYPHEN {
            proof {
                if well_shaped(h@) {
                    let w = choose|w: int| shaped_at(h@, w);
                    assert(h@[k as int] == HYPHEN);
                    assert(h@[j as int] == HYPHEN);
                }
            }
            return RangeRequest::full();
        }
        j = j + 1;
    }
    assert(shaped_at(h@, k as int));
    proof {
        let w = choose|w: int| shaped_at(h@, w);
        if w != k {
            assert(h@[k as int] == HYPHEN);
        }
    }
    let start = match parse_numeral(h, 6, k) {
        Some(v) => v,
        None => 0,
    };
    let end = parse_numeral(h, k + 1, n);
    RangeRequest { start, end }
}

/// Reads an optional `Range` header; without one the whole object is asked for.
pub fn parse_range_header(h: Option<&[u8]>) -> (r: RangeRequest)
    ensures
        r == spec_parse_header(
            match h {
                Some(t) => Some(t@),
                None => None,
            },
        ),
{
    match h {
        Some(t) => parse_range(t),
        None => RangeRequest::full(),
    }
}

} // verus!
