//! Response framing: status, header values and the body's byte budget.
use vstd::prelude::*;
use crate::resolve::{Resolution, ResolvedRange};

verus! {

/// The decimal text of `n`, most significant digit first, without leading zeros.
pub open spec fn decimal(n: nat) -> Seq<u8>
    decreases n,
{
    if n < 10 {
        seq![(48 + n) as u8]
    } else {
        decimal(n / 10).push((48 + n % 10) as u8)
    }
}

/// Appends the decimal text of `n`.
pub fn push_decimal(out: &mut Vec<u8>, n: u64)
    ensures
        final(out)@ == old(out)@ + decimal(n as nat),
    decreases n,
{
    if n >= 10 {
        push_decimal(out, n / 10);
    }
    let d: u8 = (n % 10) as u8;
    out.push(48 + d);
    proof {
        if n >= 10 {
            assert(old(out)@ + decimal(n as nat) =~= (old(out)@ + decimal((n / 10) as nat)).push(
                (48 + n % 10) as u8,
            ));
        } else {
            assert(old(out)@ + decimal(n as nat) =~= old(out)@.push((48 + n % 10) as u8));
        }
    }
}

/// The decimal text of `n` on its own.
pub fn decimal_text(n: u64) -> (r: Vec<u8>)
    ensures
        r@ == decimal(n as nat),
{
    let mut out: Vec<u8> = Vec::new();
    push_decimal(&mut out, n);
    assert(out@ =~= decimal(n as nat));
    out
}

/// The bytes of `bytes`.
pub open spec fn spec_word_bytes() -> Seq<u8> {
    seq![98u8, 121u8, 116u8, 101u8, 115u8]
}

fn word_bytes() -> (r: Vec<u8>)
    ensures
        r@ == spec_word_bytes(),
{
    vec![98u8, 121u8, 116u8, 101u8, 115u8]
}

/// The bytes of `bytes `.
pub open spec fn spec_word_bytes_sp() -> Seq<u8> {
    seq![98u8, 121u8, 116u8, 101u8, 115u8, 32u8]
}

fn word_bytes_sp() -> (r: Vec<u8>)
    ensures
        r@ == spec_word_bytes_sp(),
{
    vec![98u8, 121u8, 116u8, 101u8, 115u8, 32u8]
}

/// The bytes of `attachment; filename="`.
pub open spec fn spec_word_attachment() -> Seq<u8> {
    seq![97u8, 116u8, 116u8, 97u8, 99u8, 104u8, 109u8, 101u8, 110u8, 116u8, 59u8, 32u8, 102u8, 105u8, 108u8, 101u8, 110u8, 97u8, 109u8, 101u8, 61u8, 34u8]
}

fn word_attachment() -> (r: Vec<u8>)
    ensures
        r@ == spec_word_attachment(),
{
    vec![97u8, 116u8, 116u8, 97u8, 99u8, 104u8, 109u8, 101u8, 110u8, 116u8, 59u8, 32u8, 102u8, 105u8, 108u8, 101u8, 110u8, 97u8, 109u8, 101u8, 61u8, 34u8]
}

/// The bytes of `"; filename*=UTF-8''`.
pub open spec fn spec_word_ext_name() -> Seq<u8> {
    seq![34u8, 59u8, 32u8, 102u8, 105u8, 108u8, 101u8, 110u8, 97u8, 109u8, 101u8, 42u8, 61u8, 85u8, 84u8, 70u8, 45u8, 56u8, 39u8, 39u8]
}

fn word_ext_name() -> (r: Vec<u8>)
    ensures
        r@ == spec_word_ext_name(),
{
    vec![34u8, 59u8, 32u8, 102u8, 105u8, 108u8, 101u8, 110u8, 97u8, 109u8, 101u8, 42u8, 61u8, 85u8, 84u8, 70u8, 45u8, 56u8, 39u8, 39u8]
}

/// The bytes of `application/octet-stream`.
pub open spec fn spec_word_octet() -> Seq<u8> {
    seq![97u8, 112u8, 112u8, 108u8, 105u8, 99u8, 97u8, 116u8, 105u8, 111u8, 110u8, 47u8, 111u8, 99u8, 116u8, 101u8, 116u8, 45u8, 115u8, 116u8, 114u8, 101u8, 97u8, 109u8]
}

fn word_octet() -> (r: Vec<u8>)
    ensures
        r@ == spec_word_octet(),
{
    vec![97u8, 112u8, 112u8, 108u8, 105u8, 99u8, 97u8, 116u8, 105u8, 111u8, 110u8, 47u8, 111u8, 99u8, 116u8, 101u8, 116u8, 45u8, 115u8, 116u8, 114u8, 101u8, 97u8, 109u8]
}

/// Bytes that may stand unescaped in an RFC 5987 extended value.
pub open spec fn is_attr_char(b: u8) -> bool {
    ||| 65 <= b <= 90
    ||| 97 <= b <= 122
    ||| 48 <= b <= 57
    ||| b == 33 || b == 35 || b == 36 || b == 38 || b == 43 || b == 45 || b == 46
    ||| b == 94 || b == 95 || b == 96 || b == 124 || b == 126
}

/// Upper-case hexadecimal digit of a value below 16.
pub open spec fn hex_digit(v: u8) -> u8 {
    if v < 10 {
        (48 + v) as u8
    } else {
        (55 + v) as u8
    }
}

pub open spec fn pct_byte(b: u8) -> Seq<u8> {
    if is_attr_char(b) {
        seq![b]
    } else {
        seq![37u8, hex_digit(b / 16), hex_digit(b % 16)]
    }
}

/// Percent-encoding of every byte that is not an attribute character.
pub open spec fn pct_encode(s: Seq<u8>) -> Seq<u8>
    decreases s.len(),
{
    if s.len() == 0 {
        Seq::empty()
    } else {
        pct_encode(s.drop_last()) + pct_byte(s.last())
    }
}

/// A byte as it stands in the quoted ASCII file name: printable ASCII but for
/// `"` and `\` is kept, anything else becomes `_`.
pub open spec fn ascii_byte(b: u8) -> u8 {
    if 32 <= b <= 126 && b != 34 && b != 92 {
        b
    } else {
        95
    }
}

pub open spec fn ascii_fallback(s: Seq<u8>) -> Seq<u8> {
    s.map_values(|b: u8| ascii_byte(b))
}

/// `attachment; filename="<ascii>"; filename*=UTF-8''<percent-encoded>`.
pub open spec fn disposition(name: Seq<u8>) -> Seq<u8> {
    spec_word_attachment() + ascii_fallback(name) + spec_word_ext_name() + pct_encode(name)
}

/// `bytes <start>-<end>/<total>`.
pub open spec fn content_range(r: ResolvedRange) -> Seq<u8> {
    spec_word_bytes_sp() + decimal(r.start as nat) + seq![45u8] + decimal(r.end as nat) + seq![
        47u8,
    ] + decimal(r.total as nat)
}

/// `bytes */<total>`, the range stated with an unsatisfiable request.
pub open spec fn unsatisfied_range(total: u64) -> Seq<u8> {
    spec_word_bytes_sp() + seq![42u8, 47u8] + decimal(total as nat)
}

fn hex_digit_exec(v: u8) -> (r: u8)
    requires
        v < 16,
    ensures
        r == hex_digit(v),
{
    if v < 10 {
        48 + v
    } else {
        55 + v
    }
}

/// Appends the percent-encoding of `s`.
pub fn push_pct_encoded(out: &mut Vec<u8>, s: &[u8])
    ensures
        final(out)@ == old(out)@ + pct_encode(s@),
{
    let mut i: usize = 0;
    while i < s.len()
        invariant
            i <= s@.len(),
            out@ == old(out)@ + pct_encode(s@.subrange(0, i as int)),
        decreases s.len() - i,
    {
        let b = s[i];
        let ghost before = out@;
        let ab = (65 <= b && b <= 90) || (97 <= b && b <= 122) || (48 <= b && b <= 57) || b == 33
            || b == 35 || b == 36 || b == 38 || b == 43 || b == 45 || b == 46 || b == 94 || b
            == 95 || b == 96 || b == 124 || b == 126;
        if ab {
            out.push(b);
        } else {
            out.push(37);
            out.push(hex_digit_exec(b / 16));
            out.push(hex_digit_exec(b % 16));
        }
        proof {
            let p = s@.subrange(0, i + 1);
            assert(p.drop_last() =~= s@.subrange(0, i as int));
            assert(p.last() == b);
            assert(out@ =~= before + pct_byte(b));
            assert(old(out)@ + pct_encode(p) =~= old(out)@ + pct_encode(s@.subrange(0, i as int))
                + pct_byte(b));
        }
        i = i + 1;
    }
    assert(s@.subrange(0, s@.len() as int) =~= s@);
}

/// Appends the quoted-name form of `s`.
pub fn push_ascii_fallback(out: &mut Vec<u8>, s: &[u8])
    ensures
        final(out)@ == old(out)@ + ascii_fallback(s@),
{
    let mut i: usize = 0;
    while i < s.len()
        invariant
            i <= s@.len(),
            out@ == old(out)@ + ascii_fallback(s@.subrange(0, i as int)),
        decreases s.len() - i,
    {
        let b = s[i];
        if 32 <= b && b <= 126 && b != 34 && b != 92 {
            out.push(b);
        } else {
            out.push(95);
        }
        assert(ascii_fallback(s@.subrange(0, i + 1)) =~= ascii_fallback(s@.subrange(0, i as int)).push(
            ascii_byte(b),
        ));
        i = i + 1;
    }
    assert(s@.subrange(0, s@.len() as int) =~= s@);
}

/// The `Content-Disposition` value naming `name`, in both its ASCII and its
/// UTF-8 form.
pub fn disposition_value(name: &[u8]) -> (r: Vec<u8>)
    ensures
        r@ == disposition(name@),
{
    let mut out = word_attachment();
    push_ascii_fallback(&mut out, name);
    let mut mid = word_ext_name();
    out.append(&mut mid);
    push_pct_encoded(&mut out, name);
    out
}

/// The `Content-Range` value of a served span.
pub fn content_range_value(r: &ResolvedRange) -> (v: Vec<u8>)
    ensures
        v@ == content_range(*r),
{
    let mut out = word_bytes_sp();
    push_decimal(&mut out, r.start);
    out.push(45);
    push_decimal(&mut out, r.end);
    out.push(47);
    push_decimal(&mut out, r.total);
    assert(out@ =~= content_range(*r));
    out
}

/// The `Content-Range` value sent with an unsatisfiable request.
pub fn unsatisfied_range_value(total: u64) -> (v: Vec<u8>)
    ensures
        v@ == unsatisfied_range(total),
{
    let mut out = word_bytes_sp();
    out.push(42);
    out.push(47);
    push_decimal(&mut out, total);
    assert(out@ =~= unsatisfied_range(total));
    out
}

#[derive(Clone, Copy, Debug, PartialEq, Eq, Structural)]
pub enum HeaderName {
    AcceptRanges,
    ContentDisposition,
    ContentLength,
    ContentRange,
    ContentType,
}

#[derive(Clone, Debug)]
pub struct Header {
    pub name: HeaderName,
    pub value: Vec<u8>,
}

/// Status and headers of a successful response.
#[derive(Clone, Debug)]
pub struct ResponseHead {
    pub status: u16,
    pub headers: Vec<Header>,
}

impl ResponseHead {
    pub open spec fn header_view(self) -> Seq<(HeaderName, Seq<u8>)> {
        self.headers@.map_values(|h: Header| (h.name, h.value@))
    }
}

pub open spec fn spec_status(res: Resolution) -> u16 {
    match res {
        Resolution::Span(r) => if r.is_partial {
            206
        } else {
            200
        },
        Resolution::Empty => 200,
        Resolution::Unsatisfiable => 416,
    }
}

/// The headers of a successful response serving `res` of the object `name`.
pub open spec fn spec_headers(res: Resolution, name: Seq<u8>) -> Seq<(HeaderName, Seq<u8>)> {
    match res {
        Resolution::Span(r) => seq![
            (HeaderName::AcceptRanges, spec_word_bytes()),
            (HeaderName::ContentDisposition, disposition(name)),
            (HeaderName::ContentLength, decimal(r.length as nat)),
            (HeaderName::ContentRange, content_range(r)),
            (HeaderName::ContentType, spec_word_octet()),
        ],
        _ => seq![
            (HeaderName::AcceptRanges, spec_word_bytes()),
            (HeaderName::ContentDisposition, disposition(name)),
            (HeaderName::ContentLength, decimal(0)),
            (HeaderName::ContentType, spec_word_octet()),
        ],
    }
}

/// Status and headers for serving `res` of the object `name`.
pub fn success_head(res: Resolution, name: &[u8]) -> (h: ResponseHead)
    requires
        !(res is Unsatisfiable),
    ensures
        h.status == spec_status(res),
        h.header_view() == spec_headers(res, name@),
{
    let mut headers: Vec<Header> = Vec::new();
    headers.push(Header { name: HeaderName::AcceptRanges, value: word_bytes() });
    headers.push(Header { name: HeaderName::ContentDisposition, value: disposition_value(name) });
    let status: u16 = match res {
        Resolution::Span(r) => {
            headers.push(Header { name: HeaderName::ContentLength, value: decimal_text(r.length) });
            headers.push(Header { name: HeaderName::ContentRange, value: content_range_value(&r) });
            if r.is_partial {
                206
            } else {
                200
            }
        },
        _ => {
            headers.push(Header { name: HeaderName::ContentLength, value: decimal_text(0) });
            200
        },
    };
    headers.push(Header { name: HeaderName::ContentType, value: word_octet() });
    let h = ResponseHead { status, headers };
    assert(h.header_view() =~= spec_headers(res, name@));
    h
}

/// What the body forwards of upstream chunks of the given sizes under a
/// budget of `limit` bytes: each chunk is cut to what the budget still allows.
pub open spec fn forwarded(limit: nat, chunks: Seq<nat>) -> nat
    decreases chunks.len(),
{
    if chunks.len() == 0 {
        0
    } else {
        let n = if chunks[0] < limit {
            chunks[0]
        } else {
            limit
        };
        n + forwarded((limit - n) as nat, chunks.drop_first())
    }
}

pub open spec fn total_of(chunks: Seq<nat>) -> nat
    decreases chunks.len(),
{
    if chunks.len() == 0 {
        0
    } else {
        chunks[0] + total_of(chunks.drop_first())
    }
}

/// The body forwards exactly the smaller of the budget and what upstream sent.
pub proof fn lemma_forwarded_is_min(limit: nat, chunks: Seq<nat>)
    ensures
        forwarded(limit, chunks) == if total_of(chunks) < limit {
            total_of(chunks)
        } else {
            limit
        },
    decreases chunks.len(),
{
    if chunks.len() > 0 {
        let n = if chunks[0] < limit {
            chunks[0]
        } else {
            limit
        };
        lemma_forwarded_is_min((limit - n) as nat, chunks.drop_first());
    }
}

/// The body of a served span carries exactly `Content-Length` bytes when the
/// upstream, positioned at the span's start, sends the rest of the object.
pub proof fn lemma_content_length_matches_body(r: ResolvedRange, chunks: Seq<nat>)
    requires
        r.wf(),
        total_of(chunks) == r.total - r.start,
    ensures
        forwarded(r.length as nat, chunks) == r.length,
        spec_headers(Resolution::Span(r), Seq::empty())[2] == (
            HeaderName::ContentLength,
            decimal(r.length as nat),
        ),
{
    lemma_forwarded_is_min(r.length as nat, chunks);
}

/// The byte budget of a response body: what is left of `Content-Length`.
#[derive(Clone, Copy, Debug, PartialEq, Eq, Structural)]
pub struct BodyLimit {
    pub remaining: u64,
}

impl BodyLimit {
    pub fn new(length: u64) -> (r: BodyLimit)
        ensures
            r.remaining == length,
    {
        BodyLimit { remaining: length }
    }

    /// How much of an upstream chunk of `chunk` bytes to forward; the budget
    /// shrinks by that much.
    pub fn take(&mut self, chunk: usize) -> (n: usize)
        ensures
            n as nat == if (chunk as nat) < old(self).remaining as nat {
                chunk as nat
            } else {
                old(self).remaining as nat
            },
            final(self).remaining == old(self).remaining - n,
    {
        let n: usize = if (chunk as u64) < self.remaining {
            chunk
        } else {
            self.remaining as usize
        };
        self.remaining = self.remaining - n as u64;
        n
    }

    /// Whether the whole budget has been forwarded.
    pub fn is_complete(&self) -> (r: bool)
        ensures
            r == (self.remaining == 0),
    {
        self.remaining == 0
    }
}

} // verus!
