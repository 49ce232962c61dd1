//! One playable track: path, display name, tag metadata, and the
//! position-tracking record that derives the playback position from a
//! stamped wall-clock anchor instead of polling the sink.
//!
//! Times are whole seconds.  `play_position` is how far into the track
//! playback has come; `start_time`, when present, is the instant at which
//! the current contiguous playback segment would have started, so that the
//! position can be recomputed as `now - start_time`.  `start_time` is `None`
//! exactly when the track is not the one feeding the sink.

use vstd::prelude::*;
use crate::file_ops::Audio;
use crate::utils::{file_name_of, name_stem, split_path_to_name, stem_of};
use vstd::string::StringExecFns;

verus! {

/// One playable track.
#[derive(PartialEq, Eq, Clone, Debug)]
pub struct Music {
    pub path: String,
    pub name: String,
    pub artist: String,
    pub title: String,
    pub album: String,
    pub play_position: u64,
    pub total_duration: u64,
    pub start_time: Option<u64>,
}

impl Music {
    /// Builds the track for `path` from its loaded metadata: the display
    /// name is the file name's stem (up to its first `'.'`), the position
    /// starts at zero, and no playback segment is under way yet.
    pub fn new(path: &str, audio: Audio) -> (m: Music)
        ensures
            m.path@ == path@,
            m.name@ == stem_of(file_name_of(path@)),
            m.artist == audio.artist,
            m.title == audio.title,
            m.album == audio.album,
            m.play_position == 0,
            m.total_duration == audio.duration,
            m.start_time is None,
    {
        let file_name = split_path_to_name(path);
        let name = name_stem(file_name.as_str());
        Music {
            path: String::from_str(path),
            name,
            artist: audio.artist,
            title: audio.title,
            album: audio.album,
            play_position: 0,
            total_duration: audio.duration,
            start_time: None,
        }
    }
}

/// `a - b`, stopping at zero.
pub open spec fn sub_floor(a: u64, b: u64) -> u64 {
    if b <= a {
        (a - b) as u64
    } else {
        0
    }
}

/// The track as it stands when its playback segment resumes at `now`: the
/// anchor is stamped so that the elapsed time since it equals the track's
/// current position.
pub open spec fn anchored_at(m: Music, now: u64) -> Music {
    Music { start_time: Some(sub_floor(now, m.play_position)), ..m }
}

/// The track with its position recomputed from the anchor at time `now`.
/// Tracks without a running segment are left alone.
pub open spec fn position_at(m: Music, now: u64) -> Music {
    match m.start_time {
        Some(t) => Music { play_position: sub_floor(now, t), ..m },
        None => m,
    }
}

/// Rebasing the anchor on resume exactly cancels out: pausing changes
/// nothing, resuming at `now` stamps `now - play_position`, and the next
/// position recomputation at the same instant gives back the same
/// position.
pub proof fn lemma_pause_resume_keeps_position(m: Music, now: u64)
    requires
        m.play_position <= now,
    ensures
        anchored_at(m, now).play_position == m.play_position,
        position_at(anchored_at(m, now), now).play_position == m.play_position,
{
}

} // verus!
