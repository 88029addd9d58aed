use strck::playlist::parse_media_playlist;
use strck::timeline::Timeline;

#[test]
fn remove() {
    let pl = b"#EXTM3U
#EXT-X-VERSION:3
#EXT-X-TARGETDURATION:4
#EXTINF:1,
foo
#EXTINF:1,
foo";
    let (playlist, errors) = parse_media_playlist(pl).unwrap();
    assert!(errors.is_empty());
    let mut timeline = Timeline::default();
    timeline.append_new_segments(&playlist.segments, 0);
    assert_eq!(timeline.sequences().len(), 1);
    assert_eq!(timeline.sequences()[0].first_msn, 0);
    assert_eq!(timeline.sequences()[0].last_msn, 1);
    timeline.remove_older_than(1);
    assert_eq!(timeline.sequences().len(), 1);
    assert_eq!(timeline.sequences()[0].first_msn, 1);
}

#[test]
fn remove_drops_whole_spans() {
    let pl = b"#EXTM3U
#EXT-X-VERSION:3
#EXT-X-TARGETDURATION:4
#EXTINF:1,
a
#EXTINF:1,
b
#EXT-X-DISCONTINUITY
#EXTINF:1,
c
#EXTINF:1,
d";
    let (playlist, _) = parse_media_playlist(pl).unwrap();
    let mut timeline = Timeline::default();
    timeline.append_new_segments(&playlist.segments, 0);
    assert_eq!(timeline.sequences().len(), 2);
    assert_eq!(timeline.sequences()[0].first_msn, 0);
    assert_eq!(timeline.sequences()[0].last_msn, 1);
    assert_eq!(timeline.sequences()[1].first_msn, 2);
    assert_eq!(timeline.sequences()[1].last_msn, 3);
    // every MSN still covered after removal is at least the cut-off
    timeline.remove_older_than(3);
    assert_eq!(timeline.sequences().len(), 1);
    for s in timeline.sequences() {
        assert!(s.first_msn >= 3);
        assert!(s.last_msn >= 3);
    }
}

#[test]
fn remove_everything() {
    let pl = b"#EXTM3U
#EXT-X-VERSION:3
#EXT-X-TARGETDURATION:4
#EXTINF:1,
a";
    let (playlist, _) = parse_media_playlist(pl).unwrap();
    let mut timeline = Timeline::default();
    timeline.append_new_segments(&playlist.segments, 0);
    timeline.remove_older_than(10);
    assert_eq!(timeline.sequences().len(), 0);
}
