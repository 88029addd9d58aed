use strck::media_manifest::{MediaManifest, MediaManifestErrorKind};
use strck::playlist::{parse_media_playlist, write_segment_list, ParseError};

#[test]
fn msn_is_media_sequence_plus_index() {
    let pl = b"#EXTM3U
#EXT-X-VERSION:3
#EXT-X-TARGETDURATION:4
#EXT-X-MEDIA-SEQUENCE:100
#EXTINF:1,
a
#EXTINF:1,
b
#EXTINF:1,
c";
    let (playlist, _) = parse_media_playlist(pl).unwrap();
    assert_eq!(playlist.media_sequence, 100);
    for (i, seg) in playlist.segments.iter().enumerate() {
        assert_eq!(seg.msn, 100 + i);
    }
}

#[test]
fn segment_list_round_trip_is_bytewise_equal() {
    // a canonical playlist: its segment lines re-emit byte for byte
    let head = b"#EXTM3U\n#EXT-X-VERSION:3\n#EXT-X-TARGETDURATION:4\n";
    let segs = b"#EXTINF:1,\nfoo\n#EXTINF:1.5,\nbar\n";
    let mut text = Vec::new();
    text.extend_from_slice(head);
    text.extend_from_slice(segs);
    let (playlist, errors) = parse_media_playlist(&text).unwrap();
    assert!(errors.is_empty());
    let emitted = write_segment_list(&playlist);
    assert_eq!(emitted, segs.to_vec());
}

#[test]
fn missing_target_duration_is_fatal() {
    let pl = b"#EXTM3U\n#EXT-X-VERSION:3\n#EXTINF:1,\nfoo";
    assert_eq!(parse_media_playlist(pl).unwrap_err(), ParseError::MissingTargetDuration);
}

#[test]
fn missing_version_is_fatal() {
    let pl = b"#EXTM3U\n#EXT-X-TARGETDURATION:4\n#EXTINF:1,\nfoo";
    assert_eq!(parse_media_playlist(pl).unwrap_err(), ParseError::MissingVersion);
}

#[test]
fn url_without_extinf_is_diagnosed() {
    let pl = b"#EXTM3U
#EXT-X-VERSION:3
#EXT-X-TARGETDURATION:4
stray.ts
#EXTINF:1,
foo";
    let (playlist, errors) = parse_media_playlist(pl).unwrap();
    assert_eq!(playlist.segments.len(), 1);
    assert_eq!(errors.len(), 1);
    match &errors[0] {
        ParseError::UrlWithoutExtinf { url, start, end } => {
            assert_eq!(url, &b"stray.ts".to_vec());
            assert_eq!(&pl[*start..*end], b"stray.ts");
        }
        other => panic!("unexpected diagnostic {:?}", other),
    }
}

#[test]
fn playlist_flags_and_types() {
    let pl = b"#EXTM3U
#EXT-X-VERSION:6
#EXT-X-TARGETDURATION:4
#EXT-X-PLAYLIST-TYPE:VOD
#EXT-X-INDEPENDENT-SEGMENTS
#EXT-X-I-FRAMES-ONLY
#EXTINF:2.5,
a
#EXT-X-ENDLIST";
    let (playlist, _) = parse_media_playlist(pl).unwrap();
    assert_eq!(playlist.version, 6);
    assert_eq!(playlist.target_duration_millis, 4000);
    assert_eq!(playlist.playlist_type, Some(strck::playlist::PlaylistType::Vod));
    assert!(playlist.has_independent_segments);
    assert!(playlist.has_i_frames_only);
    assert!(playlist.has_end_list);
    assert_eq!(playlist.segments[0].duration_millis, 2500);
}

#[test]
fn byterange_and_discontinuity() {
    let pl = b"#EXTM3U
#EXT-X-VERSION:3
#EXT-X-TARGETDURATION:4
#EXTINF:1,
a
#EXT-X-DISCONTINUITY
#EXT-X-BYTERANGE:500@1000
#EXTINF:1,
b";
    let (playlist, _) = parse_media_playlist(pl).unwrap();
    assert!(!playlist.segments[0].has_discontinuity);
    assert!(playlist.segments[1].has_discontinuity);
    let br = playlist.segments[1].byte_range.unwrap();
    assert_eq!(br.length, 500);
    assert_eq!(br.start, Some(1000));
}

#[test]
fn daterange_attributes_parse() {
    let pl = b"#EXTM3U
#EXT-X-VERSION:3
#EXT-X-TARGETDURATION:4
#EXT-X-DATERANGE:ID=\"x\",START-DATE=\"2024-01-01T00:00:00Z\",PLANNED-DURATION=10.0
#EXTINF:1,
a";
    let (playlist, _) = parse_media_playlist(pl).unwrap();
    let dr = playlist.segments[0].date_range.as_ref().unwrap();
    assert_eq!(dr.id, b"x".to_vec());
    assert_eq!(dr.planned_duration_millis, Some(10_000));
    let sd = dr.start_date.unwrap();
    assert_eq!(sd.epoch_millis, 1_704_067_200_000);
    assert_eq!(sd.offset_secs, 0);
}

#[test]
fn program_date_time_parses() {
    let pl = b"#EXTM3U
#EXT-X-VERSION:3
#EXT-X-TARGETDURATION:4
#EXT-X-PROGRAM-DATE-TIME:2024-01-01T00:00:00+01:00
#EXTINF:1,
a";
    let (playlist, _) = parse_media_playlist(pl).unwrap();
    let ts = playlist.segments[0].program_date_time.unwrap();
    assert_eq!(ts.epoch_millis, 1_704_063_600_000);
    assert_eq!(ts.offset_secs, 3600);
}

#[test]
fn bad_version_number_is_fatal() {
    let pl = b"#EXTM3U\n#EXT-X-VERSION:three\n#EXT-X-TARGETDURATION:4";
    assert_eq!(parse_media_playlist(pl).unwrap_err(), ParseError::InvalidNumber);
}

#[test]
fn media_manifest_segments_and_parts() {
    let mm = b"#EXT-X-MEDIA-SEQUENCE:7
#EXT-X-PART:DURATION=0.5,URI=part0.mp4
#EXT-X-PART:DURATION=0.5,URI=part1.mp4
seg7.mp4
#EXT-X-PART:DURATION=0.25,URI=part2.mp4
seg8.mp4";
    let m = MediaManifest::parse(mm).unwrap();
    assert_eq!(m.segments.len(), 2);
    assert_eq!(m.segments[0].msn, 7);
    assert_eq!(m.segments[1].msn, 8);
    assert_eq!(m.parts.len(), 3);
    assert_eq!(m.parts[0].msn, 7);
    assert_eq!(m.parts[0].part_num, 0);
    assert_eq!(m.parts[0].duration_millis, 500);
    assert_eq!(m.parts[0].uri, b"part0.mp4".to_vec());
    assert_eq!(m.parts[1].part_num, 1);
    // a segment line resets the part numbering
    assert_eq!(m.parts[2].msn, 8);
    assert_eq!(m.parts[2].part_num, 0);
}

#[test]
fn media_manifest_bad_media_sequence() {
    let e = MediaManifest::parse(b"#EXT-X-MEDIA-SEQUENCE:x").unwrap_err();
    assert_eq!(e.line, 0);
    assert!(matches!(e.kind, MediaManifestErrorKind::BadMediaSequenceNumber));
}

#[test]
fn media_manifest_part_errors() {
    let e = MediaManifest::parse(b"#EXT-X-PART:URI=p.mp4").unwrap_err();
    assert!(matches!(e.kind, MediaManifestErrorKind::MissingDurationAttribute));
    let e = MediaManifest::parse(b"#EXT-X-PART:DURATION=abc,URI=p.mp4").unwrap_err();
    match e.kind {
        MediaManifestErrorKind::BadPartDuration(v) => assert_eq!(v, b"abc".to_vec()),
        other => panic!("unexpected kind {:?}", other),
    }
    let e = MediaManifest::parse(b"#EXT-X-PART:DURATION=0.5").unwrap_err();
    assert!(matches!(e.kind, MediaManifestErrorKind::MissingUriAttribute));
}

#[test]
fn multivariant_uris() {
    let mv = b"#EXTM3U
#EXT-X-MEDIA:TYPE=AUDIO,GROUP-ID=\"a\",NAME=\"en\",URI=\"audio.m3u8\"
#EXT-X-STREAM-INF:BANDWIDTH=1280000
video.m3u8
#EXT-X-I-FRAME-STREAM-INF:BANDWIDTH=100000,URI=\"iframe.m3u8\"
";
    let parsed = strck::multivariant::parse_multivariant(mv).unwrap();
    assert_eq!(parsed.variant_uris, vec![b"video.m3u8".to_vec(), b"iframe.m3u8".to_vec()]);
    assert_eq!(parsed.media_uris, vec![b"audio.m3u8".to_vec()]);
    let urls = strck::multivariant::derive_media_urls(b"http://example.com/main.m3u8", &parsed)
        .unwrap();
    assert_eq!(urls[0], b"http://example.com/video.m3u8".to_vec());
    assert_eq!(urls[1], b"http://example.com/iframe.m3u8".to_vec());
    assert_eq!(urls[2], b"http://example.com/audio.m3u8".to_vec());
}

#[test]
fn number_rendering() {
    assert_eq!(strck::textfmt::u64_to_dec(0), b"0".to_vec());
    assert_eq!(strck::textfmt::u64_to_dec(907), b"907".to_vec());
    assert_eq!(strck::textfmt::millis_as_secs(10_000), b"10".to_vec());
    assert_eq!(strck::textfmt::millis_as_secs(10_500), b"10.5".to_vec());
    assert_eq!(strck::textfmt::millis_as_secs(10_050), b"10.05".to_vec());
    assert_eq!(strck::textfmt::millis_as_secs(10_057), b"10.057".to_vec());
}

#[test]
fn multivariant_without_header_is_refused() {
    assert!(strck::multivariant::parse_multivariant(b"<html>not a playlist</html>").is_err());
    assert!(strck::multivariant::parse_multivariant(b"#EXTM3U\r\n").is_ok());
}

#[test]
fn number_parsing() {
    assert_eq!(strck::textfmt::parse_u64_dec(b"42"), Some(42));
    assert_eq!(strck::textfmt::parse_u64_dec(b""), None);
    assert_eq!(strck::textfmt::parse_u64_dec(b"4x"), None);
    assert_eq!(strck::textfmt::parse_u64_dec(b"18446744073709551615"), Some(u64::MAX));
    assert_eq!(strck::textfmt::parse_u64_dec(b"18446744073709551616"), None);
    assert_eq!(strck::playlist::parse_duration_millis(b"1.5"), Some(1500));
    assert_eq!(strck::playlist::parse_duration_millis(b"1.2345"), Some(1234));
    assert_eq!(strck::playlist::parse_duration_millis(b".5"), Some(500));
    assert_eq!(strck::playlist::parse_duration_millis(b"2."), Some(2000));
    assert_eq!(strck::playlist::parse_duration_millis(b"x"), None);
}
