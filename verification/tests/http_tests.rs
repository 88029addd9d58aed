use strck::events::{HlsEvent, HlsManifestError};
use strck::metrics::{MetricEvent, MetricOutcome, MetricWriter};
use strck::headers::Headers;
use strck::http::{
    classify_transport, fingerprint, BodyAccumulator, BodyError, BodyInfo, Error, HttpInfo,
    HttpRef, HttpResponseInfo, RequestGate, Response, TransportFault,
};

fn href_with_response(id: u128, status: u16, headers: Headers, body: &[u8]) -> HttpRef {
    let resp = HttpResponseInfo {
        status,
        headers,
        version: b"HTTP/1.1".to_vec(),
        body: Ok(BodyInfo::from_data(body.to_vec())),
        remote_address: None,
    };
    HttpRef::new(HttpInfo::new(
        id,
        b"http://example.com/x".to_vec(),
        0,
        50,
        None,
        Ok(resp),
        None,
    ))
}

fn href_with_fault(id: u128, fault: TransportFault) -> HttpRef {
    HttpRef::new(HttpInfo::new(
        id,
        b"http://example.com/x".to_vec(),
        0,
        50,
        None,
        Err(fault),
        None,
    ))
}

#[test]
fn response_cap_exceeded_by_one_byte() {
    // a limit of 1024 refuses a 1025th byte, citing the limit
    let mut acc = BodyAccumulator::new(1024);
    assert!(acc.push_chunk(&[0u8; 1024]).is_ok());
    assert_eq!(acc.push_chunk(&[0u8; 1]), Err(BodyError::ResponseSize(1024)));
}

#[test]
fn response_cap_full_pipeline() {
    // serving 2048 bytes against a 1024-byte cap surfaces
    // ResponseSizeExceedsLimit { limit: 1024 } and nothing is parsed
    let limit = 1024usize;
    let served = vec![0x23u8; 2048];
    let mut acc = BodyAccumulator::new(limit);
    let read = acc.push_chunk(&served);
    assert_eq!(read, Err(BodyError::ResponseSize(limit)));
    let href = href_with_fault(9, TransportFault::Body);
    let err = HlsManifestError::ResponseSizeExceedsLimit(href, limit);
    match HlsEvent::from_manifest_err(err) {
        HlsEvent::ResponseSizeExceedsLimit { limit: l, .. } => assert_eq!(l, 1024),
        other => panic!("unexpected event {:?}", other),
    }
}

#[test]
fn accumulator_keeps_data() {
    let mut acc = BodyAccumulator::new(16);
    acc.push_chunk(b"hello ").unwrap();
    acc.push_chunk(b"world").unwrap();
    let body = acc.finish();
    assert_eq!(body.data, b"hello world".to_vec());
    assert_eq!(body.hash, fingerprint(b"hello world"));
}

#[test]
fn fingerprint_matches_identical_bodies() {
    assert_eq!(fingerprint(b"abc"), fingerprint(b"abc"));
    assert_ne!(fingerprint(b"abc"), fingerprint(b"abd"));
}

#[test]
fn request_gate_cap() {
    let mut gate = RequestGate::new(Some(2));
    assert!(gate.try_start().is_ok());
    assert!(gate.try_start().is_ok());
    assert_eq!(gate.try_start(), Err(2));
    assert_eq!(gate.total_request_count(), 2);
    match HlsEvent::from_manifest_err(HlsManifestError::NumberOfRequestsExceedsLimit(2)) {
        HlsEvent::NumberOfRequestsExceedsLimit { limit } => assert_eq!(limit, 2),
        other => panic!("unexpected event {:?}", other),
    }
}

#[test]
fn transport_classification_priority() {
    assert_eq!(classify_transport(true, true, true, true), TransportFault::Timeout);
    assert_eq!(classify_transport(false, true, true, true), TransportFault::Redirect);
    assert_eq!(classify_transport(false, false, true, true), TransportFault::Decode);
    assert_eq!(classify_transport(false, false, false, true), TransportFault::Body);
    assert_eq!(classify_transport(false, false, false, false), TransportFault::Other);
}

#[test]
fn error_classification_from_record() {
    let href = href_with_fault(1, TransportFault::Timeout);
    assert!(matches!(Error::from_ref(href), Error::RequestTimeout(_)));
    let href = href_with_fault(2, TransportFault::Other);
    assert!(matches!(Error::from_ref(href), Error::RequestUnknownFault(_)));
    let href = href_with_fault(3, TransportFault::Timeout);
    assert!(matches!(
        HlsManifestError::from_req(href),
        HlsManifestError::HttpTimeout(_)
    ));
}

#[test]
fn error_for_status() {
    let href = href_with_response(1, 404, Headers::new(), b"");
    let resp = Response::try_new(href).unwrap();
    assert_eq!(resp.status(), 404);
    assert!(matches!(resp.error_for_status_ref(), Err(Error::Status(_))));
    let href = href_with_response(2, 200, Headers::new(), b"");
    let resp = Response::try_new(href).unwrap();
    assert!(resp.error_for_status_ref().is_ok());
}

#[test]
fn response_text_decodes_charset() {
    let mut h = Headers::new();
    h.push(b"Content-Type", b"text/plain; charset=utf-8");
    let href = href_with_response(1, 200, h, "héllo".as_bytes());
    let resp = Response::try_new(href).unwrap();
    assert_eq!(resp.text().unwrap(), "héllo");
}

#[test]
fn response_accessors() {
    let mut h = Headers::new();
    h.push(b"ETag", b"\"x\"");
    let href = href_with_response(7, 200, h, b"abc");
    let resp = Response::try_new(href).unwrap();
    assert_eq!(resp.req_id(), 7);
    assert_eq!(resp.total_time_millis(), 50);
    assert_eq!(resp.bytes().unwrap(), &b"abc".to_vec());
    assert_eq!(resp.header(b"etag").map(|v| v.as_slice()), Some(&b"\"x\""[..]));
}

#[test]
fn poll_decisions() {
    // unchanged last MSN: wait half the target duration; advanced:
    // wait the last segment's duration; first load: the whole target
    assert_eq!(strck::poll::next_delay_millis(4000, Some(10), Some((10, 2500))), 2000);
    assert_eq!(strck::poll::next_delay_millis(4000, Some(9), Some((10, 2500))), 2500);
    assert_eq!(strck::poll::next_delay_millis(4000, None, Some((10, 2500))), 4000);
    assert!(!strck::poll::should_give_up(100));
    assert!(strck::poll::should_give_up(101));
    assert!(strck::poll::polling_complete(true, None));
    assert!(strck::poll::polling_complete(
        false,
        Some(strck::playlist::PlaylistType::Vod)
    ));
    assert!(!strck::poll::polling_complete(
        false,
        Some(strck::playlist::PlaylistType::Event)
    ));
}

#[test]
fn end_time_accumulates_from_anchor() {
    let pl = b"#EXTM3U
#EXT-X-VERSION:3
#EXT-X-TARGETDURATION:4
#EXT-X-PROGRAM-DATE-TIME:2024-01-01T00:00:00Z
#EXTINF:2,
a
#EXTINF:3,
b";
    let (playlist, _) = strck::playlist::parse_media_playlist(pl).unwrap();
    let end = strck::poll::find_end_time(&playlist).unwrap();
    assert_eq!(end, 1_704_067_200_000 + 5000);
    assert_eq!(strck::poll::stream_latency_sample(end + 250, end), Some(250));
    assert_eq!(strck::poll::stream_latency_sample(end - 1, end), None);
}

#[test]
fn poll_state_updates() {
    let mut st = strck::poll::MediaManifestState::new();
    st.on_success(4000, Some((10, 1500)), Some(b"\"e\"".to_vec()), None);
    assert_eq!(st.delay_millis, Some(4000));
    assert_eq!(st.prev_last_msn, Some(10));
    st.on_success(4000, Some((10, 1500)), Some(b"\"e\"".to_vec()), None);
    assert_eq!(st.delay_millis, Some(2000));
    let mut st2 = strck::poll::MediaManifestState::new();
    st2.on_error();
    assert_eq!(st2.delay_millis, Some(5000));
}

#[test]
fn metric_writer_report() {
    let mut w = MetricWriter::new(b"manifest_latency".to_vec(), 10_000).unwrap();
    assert_eq!(w.consume_event(MetricEvent::Metric(5)), MetricOutcome::Recorded);
    assert_eq!(w.consume_event(MetricEvent::Metric(5)), MetricOutcome::Recorded);
    assert_eq!(w.consume_event(MetricEvent::Closedown), MetricOutcome::Closed);
    let lines = w.dump();
    assert!(!lines.is_empty());
    let heading = String::from_utf8(lines[0].clone()).unwrap();
    assert!(heading.starts_with("Metric manifest_latency, 2 samples,"));
}

#[test]
fn metric_writer_drops_out_of_range_sample() {
    let mut w = MetricWriter::new(b"msn_regression".to_vec(), 1000).unwrap();
    // every sample up to the trackable bound is accepted
    assert_eq!(w.consume_event(MetricEvent::Metric(1000)), MetricOutcome::Recorded);
    // one past the bound is refused and reported as dropped
    assert_eq!(
        w.consume_event(MetricEvent::Metric(1_000_000)),
        MetricOutcome::Dropped
    );
    assert_eq!(w.consume_event(MetricEvent::Closedown), MetricOutcome::Closed);
    let heading = String::from_utf8(w.dump()[0].clone()).unwrap();
    assert!(heading.starts_with("Metric msn_regression, 1 samples,"));
}

#[test]
fn report_lines_format() {
    let lines = strck::metrics::report_lines(&b"m".to_vec(), &vec![(5, 2)], 2);
    assert_eq!(String::from_utf8(lines[0].clone()).unwrap(), "Metric m, 2 samples, 2 max");
    let row = String::from_utf8(lines[1].clone()).unwrap();
    assert_eq!(row, format!("      5 {} 2", "#".repeat(50)));
}
