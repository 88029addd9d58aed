use strck::check::MediaPlaylistCheck;
use strck::events::{EventSeverity, HlsEvent};
use strck::headers::Headers;
use strck::http::{BodyInfo, HttpInfo, HttpRef, HttpResponseInfo};
use strck::playlist::MediaPlaylist;

const CT: &[u8] = b"application/vnd.apple.mpegurl";

fn snapshot(
    id: u128,
    status: u16,
    headers: &[(&[u8], &[u8])],
    body: &[u8],
) -> (HttpRef, MediaPlaylist) {
    let mut h = Headers::new();
    for (n, v) in headers {
        h.push(n, v);
    }
    let (playlist, _) = strck::playlist::parse_media_playlist(body).unwrap();
    let resp = HttpResponseInfo {
        status,
        headers: h,
        version: b"HTTP/1.1".to_vec(),
        body: Ok(BodyInfo::from_data(body.to_vec())),
        remote_address: None,
    };
    let info = HttpInfo::new(
        id,
        b"http://example.com/video.m3u8".to_vec(),
        0,
        100,
        None,
        Ok(resp),
        Some(b"hls_media_manifest".to_vec()),
    );
    (HttpRef::new(info), playlist)
}

fn live_playlist(media_sequence: usize, seg_count: usize) -> Vec<u8> {
    let mut body = format!(
        "#EXTM3U\n#EXT-X-VERSION:3\n#EXT-X-TARGETDURATION:4\n#EXT-X-MEDIA-SEQUENCE:{}\n",
        media_sequence
    );
    for i in 0..seg_count {
        body.push_str(&format!("#EXTINF:1,\nseg{}.ts\n", media_sequence + i));
    }
    body.into_bytes()
}

fn feed(chk: &mut MediaPlaylistCheck, id: u128, body: &[u8]) -> Vec<(EventSeverity, HlsEvent)> {
    let (href, playlist) = snapshot(id, 200, &[(b"Content-Type", CT)], body);
    chk.next_playlist(href, playlist, 100);
    chk.drain_events()
}

#[test]
fn msn_regression() {
    // media_sequence 100, 101, 99: one MsnGoneBackwards, metric sample 2
    let mut chk = MediaPlaylistCheck::new();
    let e1 = feed(&mut chk, 1, &live_playlist(100, 3));
    assert!(!e1.iter().any(|(_, e)| matches!(e, HlsEvent::MsnGoneBackwards { .. })));
    let e2 = feed(&mut chk, 2, &live_playlist(101, 3));
    assert!(!e2.iter().any(|(_, e)| matches!(e, HlsEvent::MsnGoneBackwards { .. })));
    let e3 = feed(&mut chk, 3, &live_playlist(99, 3));
    let regressions: Vec<_> = e3
        .iter()
        .filter(|(s, e)| {
            if let HlsEvent::MsnGoneBackwards { last_msn, this_msn, .. } = e {
                assert_eq!(*last_msn, 101);
                assert_eq!(*this_msn, 99);
                assert_eq!(*s, EventSeverity::Error);
                true
            } else {
                false
            }
        })
        .collect();
    assert_eq!(regressions.len(), 1);
    assert_eq!(chk.drain_metric(), vec![0, 2]);
}

#[test]
fn stale_live_playlist() {
    // repeated reloads with an unchanged last MSN: a warning once the
    // counter reaches two, errors past it
    let mut chk = MediaPlaylistCheck::new();
    let body = live_playlist(10, 3);
    let mut stale_seen: Vec<(EventSeverity, usize)> = Vec::new();
    for id in 0..6u128 {
        let events = feed(&mut chk, id, &body);
        for (s, e) in events {
            if let HlsEvent::ManifestStale { since_list_update, .. } = e {
                stale_seen.push((s, since_list_update));
            }
        }
    }
    assert_eq!(
        stale_seen,
        vec![
            (EventSeverity::Warning, 2),
            (EventSeverity::Error, 3),
            (EventSeverity::Error, 4),
        ]
    );
}

#[test]
fn body_identical_last_modified_changed() {
    let body = live_playlist(5, 3);
    let mut chk = MediaPlaylistCheck::new();
    let (h1, p1) = snapshot(
        1,
        200,
        &[(b"Content-Type", CT), (b"Last-Modified", b"Mon, 01 Jan 2024 00:00:00 GMT")],
        &body,
    );
    chk.next_playlist(h1, p1, 100);
    chk.drain_events();
    let (h2, p2) = snapshot(
        2,
        200,
        &[(b"Content-Type", CT), (b"Last-Modified", b"Mon, 01 Jan 2024 00:00:05 GMT")],
        &body,
    );
    chk.next_playlist(h2, p2, 100);
    let events = chk.drain_events();
    let hits: Vec<_> = events
        .iter()
        .filter(|(s, e)| {
            if let HlsEvent::LastModifiedChangedButBodiesIdentical {
                this_last_modified,
                last_last_modified,
                ..
            } = e
            {
                assert_eq!(*s, EventSeverity::Warning);
                assert_eq!(last_last_modified, &b"Mon, 01 Jan 2024 00:00:00 GMT".to_vec());
                assert_eq!(this_last_modified, &b"Mon, 01 Jan 2024 00:00:05 GMT".to_vec());
                true
            } else {
                false
            }
        })
        .collect();
    assert_eq!(hits.len(), 1);
}

#[test]
fn missing_endlist_after_seen() {
    let mut chk = MediaPlaylistCheck::new();
    let mut ended_body = live_playlist(5, 3);
    ended_body.extend_from_slice(b"#EXT-X-ENDLIST\n");
    let e1 = feed(&mut chk, 1, &ended_body);
    assert!(e1.iter().any(|(s, e)| matches!(e, HlsEvent::End { .. })
        && *s == EventSeverity::Info));
    assert!(chk.has_ended());
    let e2 = feed(&mut chk, 2, &live_playlist(5, 3));
    assert!(e2.iter().any(|(s, e)| matches!(e, HlsEvent::EndListTagRemoved)
        && *s == EventSeverity::Warning));
    // `ended` is monotone: it never becomes false again
    assert!(chk.has_ended());
    assert!(!e2.iter().any(|(_, e)| matches!(e, HlsEvent::End { .. })));
}

#[test]
fn live_segments_removed_severity() {
    // one segment truncated: warning; two truncated: error
    let mut chk = MediaPlaylistCheck::new();
    feed(&mut chk, 1, &live_playlist(0, 4));
    let e2 = feed(&mut chk, 2, &live_playlist(0, 3));
    let hit = e2
        .iter()
        .find(|(_, e)| matches!(e, HlsEvent::LiveSegmentsRemoved { .. }))
        .expect("expected LiveSegmentsRemoved");
    match &hit.1 {
        HlsEvent::LiveSegmentsRemoved { last_msn, this_msn, removed_count, .. } => {
            assert_eq!((*last_msn, *this_msn, *removed_count), (3, 2, 1));
            assert_eq!(hit.0, EventSeverity::Warning);
        }
        _ => unreachable!(),
    }

    let mut chk2 = MediaPlaylistCheck::new();
    feed(&mut chk2, 1, &live_playlist(0, 5));
    let e2 = feed(&mut chk2, 2, &live_playlist(0, 3));
    let hit = e2
        .iter()
        .find(|(_, e)| matches!(e, HlsEvent::LiveSegmentsRemoved { .. }))
        .expect("expected LiveSegmentsRemoved");
    match &hit.1 {
        HlsEvent::LiveSegmentsRemoved { removed_count, .. } => {
            assert_eq!(*removed_count, 2);
            assert_eq!(hit.0, EventSeverity::Error);
        }
        _ => unreachable!(),
    }
}

#[test]
fn repeated_http_error_demoted() {
    let mut chk = MediaPlaylistCheck::new();
    let (h1, _) = snapshot(1, 500, &[], &live_playlist(0, 1));
    let (h2, _) = snapshot(2, 500, &[], &live_playlist(0, 1));
    let (h3, _) = snapshot(3, 404, &[], &live_playlist(0, 1));
    chk.error_status(h1, 500);
    chk.error_status(h2, 500);
    chk.error_status(h3, 404);
    let events = chk.drain_events();
    let sevs: Vec<_> = events
        .iter()
        .map(|(s, e)| match e {
            HlsEvent::HttpErrorStatus { status_code, .. } => (*s, *status_code),
            _ => panic!("unexpected event"),
        })
        .collect();
    assert_eq!(
        sevs,
        vec![
            (EventSeverity::Error, 500),
            (EventSeverity::Warning, 500),
            (EventSeverity::Error, 404),
        ]
    );
}

#[test]
fn repeated_timeout_demoted() {
    let mut chk = MediaPlaylistCheck::new();
    let (h1, _) = snapshot(1, 200, &[], &live_playlist(0, 1));
    let (h2, _) = snapshot(2, 200, &[], &live_playlist(0, 1));
    chk.timeout(h1);
    chk.timeout(h2);
    let events = chk.drain_events();
    assert_eq!(events.len(), 2);
    assert!(matches!(events[0], (EventSeverity::Error, HlsEvent::HttpTimeout { .. })));
    assert!(matches!(events[1], (EventSeverity::Warning, HlsEvent::HttpTimeout { .. })));
}

#[test]
fn daterange_changed_attrs() {
    // one snapshot carries the same daterange id twice with a changed
    // PLANNED-DURATION: the scan reports the change
    let body = b"#EXTM3U
#EXT-X-VERSION:3
#EXT-X-TARGETDURATION:4
#EXT-X-DATERANGE:ID=\"x\",START-DATE=\"2024-01-01T00:00:00Z\",PLANNED-DURATION=10.0
#EXTINF:1,
a
#EXT-X-DATERANGE:ID=\"x\",START-DATE=\"2024-01-01T00:00:00Z\",PLANNED-DURATION=20.0
#EXTINF:1,
b";
    let mut chk = MediaPlaylistCheck::new();
    let events = feed(&mut chk, 1, body);
    let hit = events
        .iter()
        .find(|(_, e)| matches!(e, HlsEvent::DaterangeAttributeChanged { .. }))
        .expect("expected DaterangeAttributeChanged");
    match &hit.1 {
        HlsEvent::DaterangeAttributeChanged {
            daterange_id,
            attr_name,
            prev_value,
            this_value,
            ..
        } => {
            assert_eq!(daterange_id, &b"x".to_vec());
            assert_eq!(*attr_name, "PLANNED-DURATION");
            assert_eq!(prev_value, &b"10".to_vec());
            assert_eq!(this_value, &b"20".to_vec());
        }
        _ => unreachable!(),
    }
}

#[test]
fn initial_content_type_checked() {
    let mut chk = MediaPlaylistCheck::new();
    let (href, playlist) =
        snapshot(1, 200, &[(b"Content-Type", b"text/plain")], &live_playlist(0, 1));
    chk.next_playlist(href, playlist, 100);
    let events = chk.drain_events();
    let hit = events
        .iter()
        .find(|(_, e)| matches!(e, HlsEvent::IncorrectContentType { .. }))
        .expect("expected IncorrectContentType");
    match &hit.1 {
        HlsEvent::IncorrectContentType { content_type, .. } => {
            assert_eq!(content_type.as_ref().unwrap(), &b"text/plain".to_vec());
        }
        _ => unreachable!(),
    }
}

#[test]
fn property_toggles_reported() {
    let mut chk = MediaPlaylistCheck::new();
    feed(&mut chk, 1, &live_playlist(0, 2));
    let mut with_iframes = b"#EXTM3U\n#EXT-X-VERSION:3\n#EXT-X-TARGETDURATION:5\n#EXT-X-I-FRAMES-ONLY\n".to_vec();
    with_iframes.extend_from_slice(b"#EXTINF:1,\nseg0.ts\n#EXTINF:1,\nseg1.ts\n");
    let e2 = feed(&mut chk, 2, &with_iframes);
    assert!(e2.iter().any(|(_, e)| matches!(
        e,
        HlsEvent::UnexpectedPlaylistPropertyAddition { name: "EXT-X-I-FRAMES-ONLY", .. }
    )));
    assert!(e2.iter().any(|(_, e)| matches!(
        e,
        HlsEvent::TargetDurationChanged {
            last_target_duration_millis: 4000,
            this_target_duration_millis: 5000,
            ..
        }
    )));
}

#[test]
fn content_type_change_is_an_error() {
    let body = live_playlist(0, 2);
    let mut chk = MediaPlaylistCheck::new();
    let (h1, p1) = snapshot(1, 200, &[(b"Content-Type", CT)], &body);
    chk.next_playlist(h1, p1, 100);
    chk.drain_events();
    let (h2, p2) = snapshot(2, 200, &[(b"Content-Type", b"text/plain")], &body);
    chk.next_playlist(h2, p2, 100);
    let events = chk.drain_events();
    let hit = events
        .iter()
        .find(|(_, e)| matches!(e, HlsEvent::ContentTypeChanged { .. }))
        .expect("expected ContentTypeChanged");
    assert_eq!(hit.0, EventSeverity::Error);
}

#[test]
fn empty_first_snapshot_is_accepted() {
    let mut chk = MediaPlaylistCheck::new();
    let empty = b"#EXTM3U
#EXT-X-VERSION:3
#EXT-X-TARGETDURATION:4
";
    assert!(!chk.has_snapshot());
    let events = feed(&mut chk, 1, empty);
    // the initial checks still run: the content type was right, the
    // daterange scan found nothing, and nothing else fires
    assert!(!events
        .iter()
        .any(|(_, e)| matches!(e, HlsEvent::IncorrectContentType { .. })));
    assert!(chk.has_snapshot());
}

#[test]
fn cached_too_long() {
    let mut chk = MediaPlaylistCheck::new();
    let (href, playlist) = snapshot(
        1,
        200,
        &[(b"Content-Type", CT), (b"Age", b"10")],
        &live_playlist(0, 1),
    );
    chk.next_playlist(href, playlist, 100);
    let events = chk.drain_events();
    let hit = events
        .iter()
        .find(|(s, e)| matches!(e, HlsEvent::CachedTooLong { .. })
            && *s == EventSeverity::Warning)
        .expect("expected CachedTooLong");
    match &hit.1 {
        HlsEvent::CachedTooLong { age, target_duration, .. } => {
            assert_eq!(*age, 10);
            assert_eq!(*target_duration, 4);
        }
        _ => unreachable!(),
    }
}

#[test]
fn slow_response_reported() {
    let mut chk = MediaPlaylistCheck::new();
    let (href, playlist) = snapshot(1, 200, &[(b"Content-Type", CT)], &live_playlist(0, 1));
    chk.next_playlist(href, playlist, 4000);
    let events = chk.drain_events();
    assert!(events.iter().any(|(s, e)| matches!(
        e,
        HlsEvent::SlowMediaManifestResponse { response_time_millis: 4000, .. }
    ) && *s == EventSeverity::Error));
}

#[test]
fn missed_not_modified_response() {
    let body = live_playlist(5, 3);
    let mut chk = MediaPlaylistCheck::new();
    let (h1, p1) = snapshot(
        1,
        200,
        &[(b"Content-Type", CT), (b"ETag", b"\"v1\"")],
        &body,
    );
    chk.next_playlist(h1, p1, 100);
    chk.drain_events();
    let (h2, p2) = snapshot(
        2,
        200,
        &[(b"Content-Type", CT), (b"ETag", b"\"v1\"")],
        &body,
    );
    chk.next_playlist(h2, p2, 100);
    let events = chk.drain_events();
    assert!(events.iter().any(|(s, e)| matches!(
        e,
        HlsEvent::MissedLastModifiedResponse { .. }
    ) && *s == EventSeverity::Warning));
}

#[test]
fn not_modified_only_counts() {
    let mut chk = MediaPlaylistCheck::new();
    feed(&mut chk, 1, &live_playlist(0, 2));
    chk.not_modified();
    assert!(chk.drain_events().is_empty());
}
