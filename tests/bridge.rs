use ftp_range_bridge::range::{parse_numeral, parse_range, parse_range_header, RangeRequest};
use ftp_range_bridge::resolve::{effective_request, resolve, Resolution, ResolvedRange, ServeMode};
use ftp_range_bridge::response::{
    content_range_value, decimal_text, disposition_value, success_head, unsatisfied_range_value,
    BodyLimit, HeaderName, ResponseHead,
};
use ftp_range_bridge::session::{target_of, Action, Event, Failure, Session, Stage};

fn header(h: &ResponseHead, name: HeaderName) -> Option<String> {
    h.headers
        .iter()
        .find(|x| x.name == name)
        .map(|x| String::from_utf8(x.value.clone()).unwrap())
}

/// Drives a session through a successful upstream exchange with an object of
/// `size` bytes; returns the resume offset and the response.
fn serve(range: Option<&str>, size: u64) -> (u64, ResponseHead, BodyLimit) {
    let mut s = Session::new(ServeMode::Ranges, range.map(|r| r.as_bytes()), b"file.bin".to_vec());
    assert!(matches!(s.step(Event::Start { has_address: true }), Action::Connect));
    assert!(matches!(s.step(Event::Connected), Action::Authenticate));
    assert!(matches!(s.step(Event::LoggedIn), Action::SetBinaryMode));
    assert!(matches!(s.step(Event::ModeSet), Action::QuerySize));
    let offset = match s.step(Event::SizeKnown(size)) {
        Action::Resume(o) => o,
        _ => panic!("expected a resume offset"),
    };
    assert!(matches!(s.step(Event::Positioned), Action::Retrieve));
    match s.step(Event::RetrievalStarted) {
        Action::Respond(h, l) => {
            assert!(matches!(s.step(Event::BodyFinished), Action::Close));
            assert_eq!(s.stage, Stage::Done);
            (offset, h, l)
        }
        _ => panic!("expected a response"),
    }
}

#[test]
fn scenario_a_no_range_header() {
    let (offset, h, l) = serve(None, 1000);
    assert_eq!(offset, 0);
    assert_eq!(h.status, 200);
    assert_eq!(header(&h, HeaderName::ContentRange).unwrap(), "bytes 0-999/1000");
    assert_eq!(header(&h, HeaderName::ContentLength).unwrap(), "1000");
    assert_eq!(header(&h, HeaderName::AcceptRanges).unwrap(), "bytes");
    assert_eq!(header(&h, HeaderName::ContentType).unwrap(), "application/octet-stream");
    assert_eq!(l.remaining, 1000);
}

#[test]
fn scenario_b_explicit_range() {
    let (offset, h, l) = serve(Some("bytes=100-199"), 1000);
    assert_eq!(offset, 100);
    assert_eq!(h.status, 206);
    assert_eq!(header(&h, HeaderName::ContentRange).unwrap(), "bytes 100-199/1000");
    assert_eq!(header(&h, HeaderName::ContentLength).unwrap(), "100");
    assert_eq!(l.remaining, 100);
}

#[test]
fn scenario_c_open_range() {
    let (offset, h, _) = serve(Some("bytes=500-"), 1000);
    assert_eq!(offset, 500);
    assert_eq!(h.status, 206);
    assert_eq!(header(&h, HeaderName::ContentRange).unwrap(), "bytes 500-999/1000");
    assert_eq!(header(&h, HeaderName::ContentLength).unwrap(), "500");
}

#[test]
fn scenario_d_end_beyond_size_is_clamped() {
    let (offset, h, _) = serve(Some("bytes=900-2000"), 1000);
    assert_eq!(offset, 900);
    assert_eq!(h.status, 206);
    assert_eq!(header(&h, HeaderName::ContentRange).unwrap(), "bytes 900-999/1000");
    assert_eq!(header(&h, HeaderName::ContentLength).unwrap(), "100");
}

#[test]
fn scenario_e_missing_addr() {
    let target = target_of(None, Some(21), None, None);
    assert!(target.is_none());
    let mut s = Session::new(ServeMode::Ranges, None, b"f".to_vec());
    match s.step(Event::Start { has_address: target.is_some() }) {
        Action::Fail { failure, close_upstream } => {
            assert_eq!(failure, Failure::MissingAddress);
            assert_eq!(failure.status(), 400);
            assert!(!close_upstream);
        }
        _ => panic!("expected a failure"),
    }
    assert!(matches!(s.step(Event::Start { has_address: true }), Action::Wait));
    assert!(matches!(s.step(Event::Connected), Action::Wait));
}

#[test]
fn scenario_f_login_rejected() {
    let mut s = Session::new(ServeMode::Ranges, None, b"f".to_vec());
    assert!(matches!(s.step(Event::Start { has_address: true }), Action::Connect));
    assert!(matches!(s.step(Event::Connected), Action::Authenticate));
    match s.step(Event::LoginRejected) {
        Action::Fail { failure, close_upstream } => {
            assert_eq!(failure, Failure::Authentication);
            assert_eq!(failure.status(), 401);
            assert!(close_upstream);
        }
        _ => panic!("expected a failure"),
    }
    assert_eq!(s.stage, Stage::Failed);
    for e in [Event::Start { has_address: true }, Event::Connected, Event::LoggedIn] {
        assert!(matches!(s.step(e), Action::Wait));
    }
}

#[test]
fn no_range_equals_zero_open_range() {
    for n in [1u64, 2, 1000] {
        let (_, a, _) = serve(None, n);
        let (_, b, _) = serve(Some("bytes=0-"), n);
        assert_eq!(a.status, 200);
        assert_eq!(b.status, 200);
        let want = format!("bytes 0-{}/{}", n - 1, n);
        assert_eq!(header(&a, HeaderName::ContentRange).unwrap(), want);
        assert_eq!(header(&b, HeaderName::ContentRange).unwrap(), want);
    }
    assert_eq!(parse_range(b"bytes=0-"), parse_range_header(None));
}

#[test]
fn malformed_header_degrades_to_whole_object() {
    for h in ["bytes=abc-def", "garbage", "", "bytes=", "bytes=1-2-3", "items=1-2", "bytes 1-2"] {
        assert_eq!(parse_range(h.as_bytes()), RangeRequest::full(), "{}", h);
        let (_, head, _) = serve(Some(h), 1000);
        assert_eq!(head.status, 200);
        assert_eq!(header(&head, HeaderName::ContentRange).unwrap(), "bytes 0-999/1000");
    }
}

#[test]
fn partly_readable_headers() {
    assert_eq!(parse_range(b"bytes=-5"), RangeRequest { start: 0, end: Some(5) });
    assert_eq!(parse_range(b"bytes=7-x"), RangeRequest { start: 7, end: None });
    assert_eq!(parse_range(b"bytes=x-9"), RangeRequest { start: 0, end: Some(9) });
    assert_eq!(
        parse_range(b"bytes=18446744073709551615-18446744073709551616"),
        RangeRequest { start: u64::MAX, end: None }
    );
    assert_eq!(parse_numeral(b"0042", 0, 4), Some(42));
    assert_eq!(parse_numeral(b"12a", 0, 3), None);
    assert_eq!(parse_numeral(b"12a", 0, 2), Some(12));
    assert_eq!(parse_numeral(b"", 0, 0), None);
}

#[test]
fn content_length_equals_forwarded_bytes() {
    let (offset, h, mut limit) = serve(Some("bytes=100-199"), 1000);
    let length: u64 = header(&h, HeaderName::ContentLength).unwrap().parse().unwrap();
    // upstream positioned at the offset sends the rest of the object
    let mut left = 1000 - offset as usize;
    let mut sent = 0u64;
    while left > 0 {
        let chunk = left.min(64);
        sent += limit.take(chunk) as u64;
        left -= chunk;
    }
    assert_eq!(sent, length);
    assert!(limit.is_complete());
    let mut l = BodyLimit::new(10);
    assert_eq!(l.take(4), 4);
    assert_eq!(l.take(100), 6);
    assert_eq!(l.take(5), 0);
}

#[test]
fn resolve_is_idempotent_and_bounded() {
    let reqs = [
        RangeRequest { start: 0, end: None },
        RangeRequest { start: 3, end: Some(2) },
        RangeRequest { start: 3, end: Some(3) },
        RangeRequest { start: 3, end: Some(4) },
        RangeRequest { start: 9, end: Some(u64::MAX) },
    ];
    for r in reqs {
        for total in [1u64, 4, 10, u64::MAX] {
            let a = resolve(r, total);
            assert_eq!(a, resolve(r, total));
            match a {
                Resolution::Span(s) => {
                    assert!(s.start <= s.end && s.end < total);
                    assert_eq!(s.length, s.end - s.start + 1);
                }
                Resolution::Unsatisfiable => assert!(r.start >= total),
                Resolution::Empty => panic!("non-empty object"),
            }
        }
    }
}

#[test]
fn end_not_after_start_means_open_ended() {
    let r = resolve(RangeRequest { start: 5, end: Some(5) }, 10);
    assert_eq!(
        r,
        Resolution::Span(ResolvedRange { start: 5, end: 9, length: 5, total: 10, is_partial: true })
    );
    let r = resolve(RangeRequest { start: 0, end: Some(9) }, 10);
    assert_eq!(
        r,
        Resolution::Span(ResolvedRange { start: 0, end: 9, length: 10, total: 10, is_partial: false })
    );
}

#[test]
fn start_beyond_size_is_unsatisfiable() {
    let mut s = Session::new(ServeMode::Ranges, Some(b"bytes=1000-"), b"f".to_vec());
    s.step(Event::Start { has_address: true });
    s.step(Event::Connected);
    s.step(Event::LoggedIn);
    s.step(Event::ModeSet);
    match s.step(Event::SizeKnown(1000)) {
        Action::Fail { failure, close_upstream } => {
            assert_eq!(failure, Failure::Unsatisfiable(1000));
            assert_eq!(failure.status(), 416);
            assert_eq!(failure.content_range().unwrap(), b"bytes */1000".to_vec());
            assert!(close_upstream);
        }
        _ => panic!("expected a failure"),
    }
    assert_eq!(unsatisfied_range_value(7), b"bytes */7".to_vec());
}

#[test]
fn empty_object_is_an_empty_transfer() {
    assert_eq!(resolve(RangeRequest { start: 5, end: Some(9) }, 0), Resolution::Empty);
    let (offset, h, l) = serve(Some("bytes=5-9"), 0);
    assert_eq!(offset, 0);
    assert_eq!(h.status, 200);
    assert_eq!(header(&h, HeaderName::ContentLength).unwrap(), "0");
    assert!(header(&h, HeaderName::ContentRange).is_none());
    assert_eq!(l.remaining, 0);
}

#[test]
fn full_only_mode_ignores_ranges() {
    let r = RangeRequest { start: 5, end: Some(9) };
    assert_eq!(effective_request(ServeMode::FullOnly, r), RangeRequest::full());
    assert_eq!(effective_request(ServeMode::Ranges, r), r);
    let s = Session::new(ServeMode::FullOnly, Some(b"bytes=5-9"), b"f".to_vec());
    assert_eq!(s.request, RangeRequest::full());
}

#[test]
fn decimal_texts() {
    assert_eq!(decimal_text(0), b"0".to_vec());
    assert_eq!(decimal_text(7), b"7".to_vec());
    assert_eq!(decimal_text(1234567890), b"1234567890".to_vec());
    assert_eq!(decimal_text(u64::MAX), u64::MAX.to_string().into_bytes());
    let r = ResolvedRange { start: 10, end: 19, length: 10, total: 20, is_partial: true };
    assert_eq!(content_range_value(&r), b"bytes 10-19/20".to_vec());
}

#[test]
fn disposition_names_both_forms() {
    assert_eq!(
        String::from_utf8(disposition_value(b"a.txt")).unwrap(),
        "attachment; filename=\"a.txt\"; filename*=UTF-8''a.txt"
    );
    assert_eq!(
        String::from_utf8(disposition_value("r\u{e9}sum\u{e9} 1\".pdf".as_bytes())).unwrap(),
        "attachment; filename=\"r__sum__ 1_.pdf\"; filename*=UTF-8''r%C3%A9sum%C3%A9%201%22.pdf"
    );
    let h = success_head(Resolution::Empty, b"x");
    assert_eq!(
        header(&h, HeaderName::ContentDisposition).unwrap(),
        "attachment; filename=\"x\"; filename*=UTF-8''x"
    );
}

#[test]
fn failures_have_statuses_and_fixed_messages() {
    assert_eq!(Failure::Connection.status(), 502);
    assert_eq!(Failure::TransferMode.status(), 502);
    assert_eq!(Failure::NotFound.status(), 404);
    assert_eq!(Failure::MissingAddress.message(), "Missing 'addr' parameter");
    assert!(Failure::NotFound.content_range().is_none());
}

#[test]
fn upstream_failures_end_the_session() {
    let mut s = Session::new(ServeMode::Ranges, None, b"f".to_vec());
    s.step(Event::Start { has_address: true });
    match s.step(Event::ConnectFailed) {
        Action::Fail { failure, close_upstream } => {
            assert_eq!(failure, Failure::Connection);
            assert!(!close_upstream);
        }
        _ => panic!("expected a failure"),
    }
    let mut s = Session::new(ServeMode::Ranges, None, b"f".to_vec());
    for e in [Event::Start { has_address: true }, Event::Connected, Event::LoggedIn, Event::ModeSet] {
        s.step(e);
    }
    assert!(matches!(
        s.step(Event::SizeFailed),
        Action::Fail { failure: Failure::NotFound, close_upstream: true }
    ));
}

#[test]
fn refused_resume_offset_is_not_found() {
    let mut s = Session::new(ServeMode::Ranges, Some(b"bytes=100-199"), b"f".to_vec());
    for e in [Event::Start { has_address: true }, Event::Connected, Event::LoggedIn, Event::ModeSet] {
        s.step(e);
    }
    assert!(matches!(s.step(Event::SizeKnown(1000)), Action::Resume(100)));
    match s.step(Event::PositionFailed) {
        Action::Fail { failure, close_upstream } => {
            assert_eq!(failure, Failure::NotFound);
            assert_eq!(failure.status(), 404);
            assert!(close_upstream);
        }
        _ => panic!("expected a failure"),
    }
    assert!(matches!(s.step(Event::Positioned), Action::Wait));
}

#[test]
fn retrieval_that_does_not_start_is_not_found() {
    let mut s = Session::new(ServeMode::Ranges, None, b"f".to_vec());
    for e in [
        Event::Start { has_address: true },
        Event::Connected,
        Event::LoggedIn,
        Event::ModeSet,
        Event::SizeKnown(10),
        Event::Positioned,
    ] {
        s.step(e);
    }
    match s.step(Event::RetrievalFailed) {
        Action::Fail { failure, close_upstream } => {
            assert_eq!(failure.status(), 404);
            assert!(close_upstream);
        }
        _ => panic!("expected a failure"),
    }
}

#[test]
fn client_disconnect_releases_upstream() {
    let mut s = Session::new(ServeMode::Ranges, None, b"f".to_vec());
    for e in [
        Event::Start { has_address: true },
        Event::Connected,
        Event::LoggedIn,
        Event::ModeSet,
        Event::SizeKnown(10),
        Event::Positioned,
        Event::RetrievalStarted,
    ] {
        s.step(e);
    }
    assert!(matches!(s.step(Event::ClientGone), Action::Close));
    assert!(matches!(s.step(Event::BodyFinished), Action::Wait));
}

#[test]
fn target_defaults() {
    let t = target_of(Some("ftp.example.org".to_string()), None, None, None).unwrap();
    assert_eq!(t.host, "ftp.example.org");
    assert_eq!(t.port, 21);
    assert_eq!(t.user, "anonymous");
    assert_eq!(t.pass, "");
    let t = target_of(Some("h".to_string()), Some(2121), Some("u".to_string()), Some("p".to_string()))
        .unwrap();
    assert_eq!((t.port, t.user.as_str(), t.pass.as_str()), (2121, "u", "p"));
}
