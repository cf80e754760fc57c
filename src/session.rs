//! The decisions of one request's upstream session.
//!
//! The caller performs each `Action` (connecting, authenticating, setting the
//! binary mode, asking for the size, positioning, retrieving, answering the
//! client, closing) and hands the outcome back as an `Event`. Every failure is
//! terminal: a failed session answers once and never asks for more work.
use vstd::prelude::*;
use crate::range::{
    RangeRequest, digits_value, full_request, numeral, parse_range_header, shaped_at, spec_parse,
    spec_parse_header, unit_prefix, well_shaped,
};
use crate::resolve::{
    ResolvedRange, Resolution, ServeMode, effective_request, resolve, spec_effective_request, spec_resolve,
};
use crate::response::{
    BodyLimit, HeaderName, ResponseHead, content_range, spec_headers, spec_status, success_head, unsatisfied_range,
    unsatisfied_range_value,
};

verus! {

/// Why a request ends without content.
#[derive(Clone, Copy, Debug, PartialEq, Eq, Structural)]
pub enum Failure {
    /// The `addr` parameter is missing; nothing was asked of the upstream.
    MissingAddress,
    /// The upstream server could not be reached.
    Connection,
    /// The upstream server rejected the credentials.
    Authentication,
    /// The upstream server refused binary transfer mode.
    TransferMode,
    /// The object does not exist, is inaccessible, or its retrieval from the
    /// offset did not start (the resume offset or the retrieval was refused).
    NotFound,
    /// The requested start lies at or beyond the end of an object of this size.
    Unsatisfiable(u64),
}

pub open spec fn failure_status(f: Failure) -> u16 {
    match f {
        Failure::MissingAddress => 400,
        Failure::Connection => 502,
        Failure::Authentication => 401,
        Failure::TransferMode => 502,
        Failure::NotFound => 404,
        Failure::Unsatisfiable(_) => 416,
    }
}

pub open spec fn failure_message(f: Failure) -> Seq<char> {
    match f {
        Failure::MissingAddress => "Missing 'addr' parameter"@,
        Failure::Connection => "Connection to the upstream server failed"@,
        Failure::Authentication => "Login rejected by the upstream server"@,
        Failure::TransferMode => "Upstream server refused binary transfer mode"@,
        Failure::NotFound => "File not found"@,
        Failure::Unsatisfiable(_) => "Requested range not satisfiable"@,
    }
}

impl Failure {
    /// The response status of this failure.
    pub fn status(&self) -> (r: u16)
        ensures
            r == failure_status(*self),
    {
        match self {
            Failure::MissingAddress => 400,
            Failure::Connection => 502,
            Failure::Authentication => 401,
            Failure::TransferMode => 502,
            Failure::NotFound => 404,
                Failure::Unsatisfiable(_) => 416,
        }
    }

    /// The diagnostic text of the response body. Upstream error text is never
    /// passed through.
    pub fn message(&self) -> (r: String)
        ensures
            r@ == failure_message(*self),
    {
        match self {
            Failure::MissingAddress => "Missing 'addr' parameter".to_owned(),
            Failure::Connection => "Connection to the upstream server failed".to_owned(),
            Failure::Authentication => "Login rejected by the upstream server".to_owned(),
            Failure::TransferMode => "Upstream server refused binary transfer mode".to_owned(),
            Failure::NotFound => "File not found".to_owned(),
            Failure::Unsatisfiable(_) => "Requested range not satisfiable".to_owned(),
        }
    }

    /// The `Content-Range` value that goes with this failure, if any.
    pub fn content_range(&self) -> (r: Option<Vec<u8>>)
        ensures
            match *self {
                Failure::Unsatisfiable(t) => r matches Some(v) && v@ == unsatisfied_range(t),
                _ => r is None,
            },
    {
        match self {
            Failure::Unsatisfiable(t) => Some(unsatisfied_range_value(*t)),
            _ => None,
        }
    }
}

/// Where and as whom to reach the upstream server.
#[derive(Clone, Debug)]
pub struct Target {
    pub host: String,
    pub port: u16,
    pub user: String,
    pub pass: String,
}

/// The upstream target named by the request's parameters: `addr` is required,
/// `port` defaults to 21, `user` to `anonymous` and `pass` to the empty text.
pub fn target_of(
    addr: Option<String>,
    port: Option<u16>,
    user: Option<String>,
    pass: Option<String>,
) -> (r: Option<Target>)
    ensures
        addr is None <==> r is None,
        r matches Some(t) ==> {
            &&& addr matches Some(a) && t.host@ == a@
            &&& t.port == match port {
                Some(p) => p,
                None => 21u16,
            }
            &&& t.user@ == match user {
                Some(u) => u@,
                None => "anonymous"@,
            }
            &&& t.pass@ == match pass {
                Some(p) => p@,
                None => ""@,
            }
        },
{
    let host = match addr {
        Some(a) => a,
        None => {
            return None;
        },
    };
    let port = match port {
        Some(p) => p,
        None => 21,
    };
    let user = match user {
        Some(u) => u,
        None => "anonymous".to_owned(),
    };
    let pass = match pass {
        Some(p) => p,
        None => "".to_owned(),
    };
    Some(Target { host, port, user, pass })
}

#[derive(Clone, Copy, Debug, PartialEq, Eq, Structural)]
pub enum Stage {
    Idle,
    Connecting,
    Authenticating,
    SettingMode,
    QueryingSize,
    Positioning,
    Retrieving,
    Streaming,
    Done,
    Failed,
}

/// The outcome of the last action, as the caller saw it.
#[derive(Clone, Copy, Debug, PartialEq, Eq, Structural)]
pub enum Event {
    Start { has_address: bool },
    Connected,
    ConnectFailed,
    LoggedIn,
    LoginRejected,
    ModeSet,
    ModeFailed,
    SizeKnown(u64),
    SizeFailed,
    Positioned,
    PositionFailed,
    RetrievalStarted,
    RetrievalFailed,
    BodyFinished,
    ClientGone,
}

/// What the caller does next.
#[derive(Clone, Debug)]
pub enum Action {
    Connect,
    Authenticate,
    SetBinaryMode,
    QuerySize,
    /// Issue the resume offset; it must precede the retrieval on the same session.
    Resume(u64),
    Retrieve,
    /// Answer with this head and forward the retrieval's bytes within the budget.
    Respond(ResponseHead, BodyLimit),
    /// Answer with this failure; close the upstream connection when asked to.
    Fail { failure: Failure, close_upstream: bool },
    /// Release the upstream connection.
    Close,
    /// Nothing to do.
    Wait,
}

/// An action without its response head.
pub enum Plan {
    Connect,
    Authenticate,
    SetBinaryMode,
    QuerySize,
    Resume(u64),
    Retrieve,
    Respond,
    Fail(Failure, bool),
    Close,
    Wait,
}

pub open spec fn plan_of(a: Action) -> Plan {
    match a {
        Action::Connect => Plan::Connect,
        Action::Authenticate => Plan::Authenticate,
        Action::SetBinaryMode => Plan::SetBinaryMode,
        Action::QuerySize => Plan::QuerySize,
        Action::Resume(o) => Plan::Resume(o),
        Action::Retrieve => Plan::Retrieve,
        Action::Respond(_, _) => Plan::Respond,
        Action::Fail { failure, close_upstream } => Plan::Fail(failure, close_upstream),
        Action::Close => Plan::Close,
        Action::Wait => Plan::Wait,
    }
}

/// Bytes in the body of a successful response.
pub open spec fn body_length(res: Resolution) -> u64 {
    match res {
        Resolution::Span(r) => r.length,
        _ => 0,
    }
}

/// One decision: the next stage, the resolution known after it, and the plan.
pub open spec fn spec_step(st: Stage, req: RangeRequest, res: Resolution, e: Event) -> (
    Stage,
    Resolution,
    Plan,
) {
    match st {
        Stage::Idle => match e {
            Event::Start { has_address } => if has_address {
                (Stage::Connecting, res, Plan::Connect)
            } else {
                (Stage::Failed, res, Plan::Fail(Failure::MissingAddress, false))
            },
            _ => (st, res, Plan::Wait),
        },
        Stage::Connecting => match e {
            Event::Connected => (Stage::Authenticating, res, Plan::Authenticate),
            Event::ConnectFailed => (Stage::Failed, res, Plan::Fail(Failure::Connection, false)),
            _ => (st, res, Plan::Wait),
        },
        Stage::Authenticating => match e {
            Event::LoggedIn => (Stage::SettingMode, res, Plan::SetBinaryMode),
            Event::LoginRejected => (
                Stage::Failed,
                res,
                Plan::Fail(Failure::Authentication, true),
            ),
            _ => (st, res, Plan::Wait),
        },
        Stage::SettingMode => match e {
            Event::ModeSet => (Stage::QueryingSize, res, Plan::QuerySize),
            Event::ModeFailed => (Stage::Failed, res, Plan::Fail(Failure::TransferMode, true)),
            _ => (st, res, Plan::Wait),
        },
        Stage::QueryingSize => match e {
            Event::SizeKnown(n) => {
                let r = spec_resolve(req, n);
                match r {
                    Resolution::Unsatisfiable => (
                        Stage::Failed,
                        r,
                        Plan::Fail(Failure::Unsatisfiable(n), true),
                    ),
                    Resolution::Span(s) => (Stage::Positioning, r, Plan::Resume(s.start)),
                    Resolution::Empty => (Stage::Positioning, r, Plan::Resume(0)),
                }
            },
            Event::SizeFailed => (Stage::Failed, res, Plan::Fail(Failure::NotFound, true)),
            _ => (st, res, Plan::Wait),
        },
        Stage::Positioning => match e {
            Event::Positioned => (Stage::Retrieving, res, Plan::Retrieve),
            Event::PositionFailed => (Stage::Failed, res, Plan::Fail(Failure::NotFound, true)),
            _ => (st, res, Plan::Wait),
        },
        Stage::Retrieving => match e {
            Event::RetrievalStarted => (Stage::Streaming, res, Plan::Respond),
            Event::RetrievalFailed => (Stage::Failed, res, Plan::Fail(Failure::NotFound, true)),
            _ => (st, res, Plan::Wait),
        },
        Stage::Streaming => match e {
            Event::BodyFinished => (Stage::Done, res, Plan::Close),
            Event::ClientGone => (Stage::Done, res, Plan::Close),
            _ => (st, res, Plan::Wait),
        },
        Stage::Done => (st, res, Plan::Wait),
        Stage::Failed => (st, res, Plan::Wait),
    }
}

/// One request's session: what was asked, of which object, and how far it got.
pub struct Session {
    pub stage: Stage,
    pub request: RangeRequest,
    pub name: Vec<u8>,
    pub resolution: Resolution,
}

impl Session {
    /// Once the size is known and the session goes on, the resolution is
    /// satisfiable.
    pub open spec fn wf(&self) -> bool {
        match self.stage {
            Stage::Positioning | Stage::Retrieving | Stage::Streaming | Stage::Done => !(
            self.resolution is Unsatisfiable),
            _ => true,
        }
    }

    /// A fresh session for the object `name`, asking for what the `Range`
    /// header asks under the serving mode.
    pub fn new(mode: ServeMode, range: Option<&[u8]>, name: Vec<u8>) -> (s: Session)
        ensures
            s.wf(),
            s.stage == Stage::Idle,
            s.request == spec_effective_request(
                mode,
                spec_parse_header(
                    match range {
                        Some(t) => Some(t@),
                        None => None,
                    },
                ),
            ),
            s.name@ == name@,
            s.resolution == Resolution::Empty,
    {
        let asked = parse_range_header(range);
        Session {
            stage: Stage::Idle,
            request: effective_request(mode, asked),
            name,
            resolution: Resolution::Empty,
        }
    }

    /// Takes the outcome of the last action and decides the next one.
    pub fn step(&mut self, e: Event) -> (a: Action)
        requires
            old(self).wf(),
        ensures
            final(self).wf(),
            (final(self).stage, final(self).resolution, plan_of(a)) == spec_step(
                old(self).stage,
                old(self).request,
                old(self).resolution,
                e,
            ),
            final(self).request == old(self).request,
            final(self).name@ == old(self).name@,
            a matches Action::Respond(h, limit) ==> {
                &&& h.status == spec_status(final(self).resolution)
                &&& h.header_view() == spec_headers(final(self).resolution, old(self).name@)
                &&& limit.remaining == body_length(final(self).resolution)
            },
    {
        match self.stage {
            Stage::Idle => match e {
                Event::Start { has_address } => {
                    if has_address {
                        self.stage = Stage::Connecting;
                        Action::Connect
                    } else {
                        self.stage = Stage::Failed;
                        Action::Fail { failure: Failure::MissingAddress, close_upstream: false }
                    }
                },
                _ => Action::Wait,
            },
            Stage::Connecting => match e {
                Event::Connected => {
                    self.stage = Stage::Authenticating;
                    Action::Authenticate
                },
                Event::ConnectFailed => {
                    self.stage = Stage::Failed;
                    Action::Fail { failure: Failure::Connection, close_upstream: false }
                },
                _ => Action::Wait,
            },
            Stage::Authenticating => match e {
                Event::LoggedIn => {
                    self.stage = Stage::SettingMode;
                    Action::SetBinaryMode
                },
                Event::LoginRejected => {
                    self.stage = Stage::Failed;
                    Action::Fail { failure: Failure::Authentication, close_upstream: true }
                },
                _ => Action::Wait,
            },
            Stage::SettingMode => match e {
                Event::ModeSet => {
                    self.stage = Stage::QueryingSize;
                    Action::QuerySize
                },
                Event::ModeFailed => {
                    self.stage = Stage::Failed;
                    Action::Fail { failure: Failure::TransferMode, close_upstream: true }
                },
                _ => Action::Wait,
            },
            Stage::QueryingSize => match e {
                Event::SizeKnown(n) => {
                    let r = resolve(self.request, n);
                    self.resolution = r;
                    match r {
                        Resolution::Unsatisfiable => {
                            self.stage = Stage::Failed;
                            Action::Fail { failure: Failure::Unsatisfiable(n), close_upstream: true }
                        },
                        Resolution::Span(s) => {
                            self.stage = Stage::Positioning;
                            Action::Resume(s.start)
                        },
                        Resolution::Empty => {
                            self.stage = Stage::Positioning;
                            Action::Resume(0)
                        },
                    }
                },
                Event::SizeFailed => {
                    self.stage = Stage::Failed;
                    Action::Fail { failure: Failure::NotFound, close_upstream: true }
                },
                _ => Action::Wait,
            },
            Stage::Positioning => match e {
                Event::Positioned => {
                    self.stage = Stage::Retrieving;
                    Action::Retrieve
                },
                Event::PositionFailed => {
                    self.stage = Stage::Failed;
                    Action::Fail { failure: Failure::NotFound, close_upstream: true }
                },
                _ => Action::Wait,
            },
            Stage::Retrieving => match e {
                Event::RetrievalStarted => {
                    self.stage = Stage::Streaming;
                    let limit = match self.resolution {
                        Resolution::Span(s) => BodyLimit::new(s.length),
                        _ => BodyLimit::new(0),
                    };
                    Action::Respond(success_head(self.resolution, self.name.as_slice()), limit)
                },
                Event::RetrievalFailed => {
                    self.stage = Stage::Failed;
                    Action::Fail { failure: Failure::NotFound, close_upstream: true }
                },
                _ => Action::Wait,
            },
            Stage::Streaming => match e {
                Event::BodyFinished => {
                    self.stage = Stage::Done;
                    Action::Close
                },
                Event::ClientGone => {
                    self.stage = Stage::Done;
                    Action::Close
                },
                _ => Action::Wait,
            },
            Stage::Done => Action::Wait,
            Stage::Failed => Action::Wait,
        }
    }
}

/// The plans a session makes for a run of events.
pub open spec fn plans(st: Stage, req: RangeRequest, res: Resolution, events: Seq<Event>) -> Seq<
    Plan,
>
    decreases events.len(),
{
    if events.len() == 0 {
        Seq::empty()
    } else {
        let (st2, res2, p) = spec_step(st, req, res, events[0]);
        seq![p] + plans(st2, req, res2, events.drop_first())
    }
}

proof fn lemma_plans_len(st: Stage, req: RangeRequest, res: Resolution, events: Seq<Event>)
    ensures
        plans(st, req, res, events).len() == events.len(),
    decreases events.len(),
{
    if events.len() > 0 {
        let (st2, res2, p) = spec_step(st, req, res, events[0]);
        lemma_plans_len(st2, req, res2, events.drop_first());
    }
}

/// A failed or finished session asks for nothing more, whatever happens: no
/// retry, no second connection.
pub proof fn lemma_end_is_final(st: Stage, req: RangeRequest, res: Resolution, events: Seq<Event>)
    requires
        st == Stage::Failed || st == Stage::Done,
    ensures
        forall|i: int| 0 <= i < events.len() ==> #[trigger] plans(st, req, res, events)[i] is Wait,
    decreases events.len(),
{
    if events.len() > 0 {
        lemma_end_is_final(st, req, res, events.drop_first());
        lemma_plans_len(st, req, res, events.drop_first());
        let ps = plans(st, req, res, events);
        assert forall|i: int| 0 <= i < events.len() implies #[trigger] ps[i] is Wait by {
            if i > 0 {
                assert(ps[i] == plans(st, req, res, events.drop_first())[i - 1]);
            }
        }
    }
}

/// A request without an address fails with status 400 at once and never asks
/// for a connection.
pub proof fn lemma_missing_address_never_connects(
    req: RangeRequest,
    res: Resolution,
    events: Seq<Event>,
)
    requires
        events.len() > 0,
        events[0] == (Event::Start { has_address: false }),
    ensures
        plans(Stage::Idle, req, res, events)[0] == Plan::Fail(Failure::MissingAddress, false),
        failure_status(Failure::MissingAddress) == 400,
        forall|i: int|
            0 <= i < events.len() ==> !(#[trigger] plans(Stage::Idle, req, res, events)[i] is Connect),
{
    lemma_end_is_final(Stage::Failed, req, res, events.drop_first());
    lemma_plans_len(Stage::Failed, req, res, events.drop_first());
    let ps = plans(Stage::Idle, req, res, events);
    assert forall|i: int| 0 <= i < events.len() implies !(#[trigger] ps[i] is Connect) by {
        if i > 0 {
            assert(ps[i] == plans(Stage::Failed, req, res, events.drop_first())[i - 1]);
        }
    }
}

/// Rejected credentials end the request with status 401 and the upstream
/// connection closed; nothing is tried again.
pub proof fn lemma_rejected_login_is_final(
    req: RangeRequest,
    res: Resolution,
    events: Seq<Event>,
)
    requires
        events.len() > 0,
        events[0] == Event::LoginRejected,
    ensures
        plans(Stage::Authenticating, req, res, events)[0] == Plan::Fail(
            Failure::Authentication,
            true,
        ),
        failure_status(Failure::Authentication) == 401,
        forall|i: int|
            1 <= i < events.len() ==> #[trigger] plans(Stage::Authenticating, req, res, events)[i] is Wait,
{
    lemma_end_is_final(Stage::Failed, req, res, events.drop_first());
    lemma_plans_len(Stage::Failed, req, res, events.drop_first());
    let ps = plans(Stage::Authenticating, req, res, events);
    assert forall|i: int| 1 <= i < events.len() implies #[trigger] ps[i] is Wait by {
        assert(ps[i] == plans(Stage::Failed, req, res, events.drop_first())[i - 1]);
    }
}

/// The whole of a non-empty object of `n` bytes, served with status 200.
pub open spec fn whole(n: u64) -> ResolvedRange {
    ResolvedRange { start: 0, end: (n - 1) as u64, length: n, total: n, is_partial: false }
}

/// The text `bytes=0-`.
pub open spec fn zero_open() -> Seq<u8> {
    seq![98u8, 121u8, 116u8, 101u8, 115u8, 61u8, 48u8, 45u8]
}

/// A request without a `Range` header and one with `bytes=0-` ask for the same
/// thing, and against an object of `n > 0` bytes both are answered with status
/// 200 and `Content-Range: bytes 0-<n-1>/<n>`.
pub proof fn lemma_no_range_same_as_zero_open(n: u64, name: Seq<u8>)
    requires
        n > 0,
    ensures
        spec_parse_header(None) == spec_parse(zero_open()),
        spec_resolve(spec_parse(zero_open()), n) == Resolution::Span(whole(n)),
        spec_status(Resolution::Span(whole(n))) == 200,
        spec_headers(Resolution::Span(whole(n)), name)[3] == (
            HeaderName::ContentRange,
            content_range(whole(n)),
        ),
{
    let h = zero_open();
    assert(h.subrange(0, 6) =~= unit_prefix());
    assert(shaped_at(h, 7));
    let k = choose|k: int| shaped_at(h, k);
    assert(k == 7) by {
        if k == 6 {
            assert(h[6] == 48u8);
        }
    }
    let z = h.subrange(6, 7);
    assert(z =~= seq![48u8]);
    assert(z.drop_last() =~= Seq::<u8>::empty());
    assert(digits_value(Seq::<u8>::empty()) == 0);
    assert(digits_value(z) == 0);
    assert(numeral(z) == Some(0u64));
    assert(numeral(h.subrange(8, 8)) is None);
}

/// A header that does not have the accepted shape, or whose two numerals are
/// both unreadable (`bytes=abc-def`), asks for the whole object: it is never an
/// error, and a non-empty object is served whole with status 200.
pub proof fn lemma_malformed_serves_whole(h: Seq<u8>, n: u64)
    requires
        n > 0,
        !well_shaped(h) || forall|k: int|
            shaped_at(h, k) ==> numeral(#[trigger] h.subrange(6, k)) is None && numeral(
                h.subrange(k + 1, h.len() as int),
            ) is None,
    ensures
        spec_parse(h) == full_request(),
        spec_resolve(spec_parse(h), n) == Resolution::Span(whole(n)),
        spec_status(spec_resolve(spec_parse(h), n)) == 200,
{
    if well_shaped(h) {
        let k = choose|k: int| shaped_at(h, k);
        assert(numeral(h.subrange(6, k)) is None);
    }
}

} // verus!
