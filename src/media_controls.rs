//! What the player shows to the operating system's media session: the
//! playback state and the metadata of the track that plays.

use crate::song::{display_name, has_display_name, Song};
use std::time::Duration;
use vstd::prelude::*;

verus! {

/// A transport command from the media session, its volume keys or the tray icon.
#[derive(Clone, Copy, Debug, PartialEq, Eq, Structural)]
pub enum MediaControlsEvent {
    Play,
    Pause,
    TogglePlayPause,
    Stop,
    Next,
    Previous,
    VolumeToggleMute,
    VolumeMute,
    VolumeUnmute,
    /// Sets the volume, in thousandths; larger values mean full volume.
    SetVolume(u16),
    VolumeDown,
    VolumeUp,
    Quit,
}

/// The playback state shown to the media session, with the position in the track when known.
#[derive(Clone, Debug)]
pub enum MediaControlsPlayback {
    Playing(Option<Duration>),
    Paused(Option<Duration>),
    Stopped,
}

/// The state shown for an output device whose queue is `empty` and which is `paused` or not.
pub open spec fn shown_playback(empty: bool, paused: bool) -> MediaControlsPlayback {
    if empty {
        MediaControlsPlayback::Stopped
    } else if paused {
        MediaControlsPlayback::Paused(None)
    } else {
        MediaControlsPlayback::Playing(None)
    }
}

impl MediaControlsPlayback {
    /// The state to show: stopped when nothing is queued on the output,
    /// otherwise paused or playing as the output is.
    pub fn of_output(empty: bool, paused: bool) -> (r: MediaControlsPlayback)
        ensures
            r == shown_playback(empty, paused),
    {
        if empty {
            MediaControlsPlayback::Stopped
        } else if paused {
            MediaControlsPlayback::Paused(None)
        } else {
            MediaControlsPlayback::Playing(None)
        }
    }
}

/// The metadata shown for the track that plays.
#[derive(Clone, Debug)]
pub struct MediaControlsMetadata {
    pub title: Option<String>,
    pub album: Option<String>,
    pub artist: Option<String>,
    /// May either be an actual URL or a `file://` URL.
    pub cover_url: Option<String>,
    pub duration: Option<Duration>,
}

impl Default for MediaControlsMetadata {
    fn default() -> (r: MediaControlsMetadata)
        ensures
            r.title is None,
            r.album is None,
            r.artist is None,
            r.cover_url is None,
            r.duration is None,
    {
        MediaControlsMetadata { title: None, album: None, artist: None, cover_url: None, duration: None }
    }
}

impl MediaControlsMetadata {
    /// The record pushed after a track is loaded: its display name and duration.
    pub fn now_playing(song: &Song, duration: Duration) -> (r: MediaControlsMetadata)
        requires
            has_display_name(song.file_name_view()),
        ensures
            r.title matches Some(t) && t@ == display_name(song.file_name_view()),
            r.duration == Some(duration),
            r.album is None,
            r.artist is None,
            r.cover_url is None,
    {
        MediaControlsMetadata {
            title: Some(song.name()),
            album: None,
            artist: None,
            cover_url: None,
            duration: Some(duration),
        }
    }
}

} // verus!
