//! Decisions of the per-URL polling loop.
//!
//! The loop itself sleeps, fetches and hands outcomes back; every
//! decision — the next reload delay, the conditional-request
//! validators, when to give up after repeated failures, and when a
//! stream has ended — is computed here.

use vstd::prelude::*;
use crate::playlist::{MediaPlaylist, PlaylistType};

verus! {

/// How many consecutive failed reloads are tolerated before a
/// playlist's polling loop gives up.
pub const MAX_SEQUENTIAL_PLAYLIST_LOAD_ERROR_COUNT: usize = 100;

/// The per-URL reload state the polling loop carries between
/// iterations: the next delay, the previously seen last MSN, and the
/// cache validators to echo on the next conditional request.
#[derive(Debug)]
pub struct MediaManifestState {
    pub delay_millis: Option<u64>,
    pub prev_last_msn: Option<usize>,
    pub prev_etag: Option<Vec<u8>>,
    pub prev_last_modified: Option<Vec<u8>>,
}

/// The delay before the next reload: half the target duration when
/// the playlist did not advance, the last segment's duration when it
/// did, and the whole target duration on the first load.
pub open spec fn spec_next_delay_millis(
    target_duration_millis: u64,
    prev_last_msn: Option<usize>,
    last_seg: Option<(usize, u64)>,
) -> u64 {
    match (prev_last_msn, last_seg) {
        (Some(prev), Some((msn, dur))) => if msn == prev {
            (target_duration_millis / 2) as u64
        } else {
            dur
        },
        _ => target_duration_millis,
    }
}

/// Compute the delay before the next reload.
pub fn next_delay_millis(
    target_duration_millis: u64,
    prev_last_msn: Option<usize>,
    last_seg: Option<(usize, u64)>,
) -> (r: u64)
    ensures
        r == spec_next_delay_millis(target_duration_millis, prev_last_msn, last_seg),
{
    match (prev_last_msn, last_seg) {
        (Some(prev), Some((msn, dur))) => if msn == prev {
            target_duration_millis / 2
        } else {
            dur
        },
        _ => target_duration_millis,
    }
}

impl MediaManifestState {
    pub fn new() -> (r: MediaManifestState)
        ensures
            r.delay_millis is None,
            r.prev_last_msn is None,
            r.prev_etag is None,
            r.prev_last_modified is None,
    {
        MediaManifestState {
            delay_millis: None,
            prev_last_msn: None,
            prev_etag: None,
            prev_last_modified: None,
        }
    }

    /// Take a successful reload into account: compute the next
    /// delay, remember the last MSN, and keep the cache validators
    /// for the next conditional request.
    pub fn on_success(
        &mut self,
        target_duration_millis: u64,
        last_seg: Option<(usize, u64)>,
        etag: Option<Vec<u8>>,
        last_modified: Option<Vec<u8>>,
    )
        ensures
            final(self).delay_millis == Some(
                spec_next_delay_millis(
                    target_duration_millis,
                    old(self).prev_last_msn,
                    last_seg,
                ),
            ),
            final(self).prev_last_msn == (match last_seg {
                Some((msn, _)) => Some(msn),
                None => None::<usize>,
            }),
            final(self).prev_etag == etag,
            final(self).prev_last_modified == last_modified,
    {
        let delay = next_delay_millis(target_duration_millis, self.prev_last_msn, last_seg);
        self.delay_millis = Some(delay);
        self.prev_last_msn = match last_seg {
            Some((msn, _)) => Some(msn),
            None => None,
        };
        self.prev_etag = etag;
        self.prev_last_modified = last_modified;
    }

    /// After a failed reload, make sure some delay is set so the
    /// loop cannot spin tightly.
    pub fn on_error(&mut self)
        ensures
            final(self).delay_millis == (match old(self).delay_millis {
                Some(d) => Some(d),
                None => Some(5000u64),
            }),
            final(self).prev_last_msn == old(self).prev_last_msn,
            final(self).prev_etag == old(self).prev_etag,
            final(self).prev_last_modified == old(self).prev_last_modified,
    {
        if self.delay_millis.is_none() {
            self.delay_millis = Some(5000);
        }
    }
}

/// Whether the loop must give up after another failed reload.
pub fn should_give_up(sequential_load_error_count: usize) -> (r: bool)
    ensures
        r == (sequential_load_error_count > MAX_SEQUENTIAL_PLAYLIST_LOAD_ERROR_COUNT),
{
    sequential_load_error_count > MAX_SEQUENTIAL_PLAYLIST_LOAD_ERROR_COUNT
}

/// Whether polling of this playlist is over: the manifest declared
/// its end or is a VOD playlist.
pub fn polling_complete(has_end_list: bool, playlist_type: Option<PlaylistType>) -> (r: bool)
    ensures
        r == (has_end_list || playlist_type == Some(PlaylistType::Vod)),
{
    has_end_list || matches!(playlist_type, Some(PlaylistType::Vod))
}

/// The wall-clock end of the last segment, carried forward from the
/// last `EXT-X-PROGRAM-DATE-TIME` anchor by accumulating segment
/// durations; `None` without an anchor or on overflow.
pub open spec fn spec_end_time(segs: Seq<crate::playlist::MediaSegmentV>, i: int) -> Option<i64>
    decreases i,
{
    if i <= 0 {
        None
    } else {
        let prior = spec_end_time(segs, i - 1);
        let anchored = match segs[i - 1].program_date_time {
            Some(ts) => Some(ts.epoch_millis),
            None => prior,
        };
        match anchored {
            Some(t) => if t + segs[i - 1].duration_millis <= i64::MAX {
                Some((t + segs[i - 1].duration_millis) as i64)
            } else {
                None
            },
            None => None,
        }
    }
}

/// Compute the wall-clock end of the last segment from the last
/// `EXT-X-PROGRAM-DATE-TIME` anchor.
pub fn find_end_time(playlist: &MediaPlaylist) -> (r: Option<i64>)
    ensures
        r == spec_end_time(playlist@.segments, playlist@.segments.len() as int),
{
    let mut datetime: Option<i64> = None;
    let mut i: usize = 0;
    while i < playlist.segments.len()
        invariant
            0 <= i <= playlist.segments@.len(),
            playlist@.segments.len() == playlist.segments@.len(),
            forall|j: int|
                0 <= j < playlist.segments@.len() ==> playlist@.segments[j] == (
                #[trigger] playlist.segments@[j])@,
            datetime == spec_end_time(playlist@.segments, i as int),
        decreases playlist.segments@.len() - i,
    {
        let seg = &playlist.segments[i];
        let anchored: Option<i64> = match seg.program_date_time {
            Some(ts) => Some(ts.epoch_millis),
            None => datetime,
        };
        datetime = match anchored {
            Some(t) => {
                let sum: i128 = (t as i128) + (seg.duration_millis as i128);
                if sum <= i64::MAX as i128 {
                    Some(sum as i64)
                } else {
                    None
                }
            },
            None => None,
        };
        i = i + 1;
    }
    datetime
}

/// The stream-latency sample for one reload: how far the wall clock
/// is past the computed end of the last segment, when it is.
pub fn stream_latency_sample(now_millis: i64, end_millis: i64) -> (r: Option<u64>)
    ensures
        now_millis >= end_millis ==> r == Some((now_millis - end_millis) as u64),
        now_millis < end_millis ==> r is None,
{
    if now_millis >= end_millis {
        let diff: i128 = (now_millis as i128) - (end_millis as i128);
        Some(diff as u64)
    } else {
        None
    }
}

} // verus!
