//! The decisions of the playback session's control loop. The loop itself,
//! which talks to the output device and the event sources, hands each
//! transport command here and performs the action that comes back.

use crate::media_controls::MediaControlsEvent;
use vstd::prelude::*;

verus! {

/// The full volume, in thousandths.
pub const VOLUME_MAX: u16 = 1000;

/// How far one volume key moves the volume, in thousandths.
pub const VOLUME_STEP: u16 = 100;

/// What the control loop does for a command.
#[derive(Clone, Copy, Debug, PartialEq, Eq, Structural)]
pub enum Action {
    Play,
    Pause,
    Stop,
    /// Moves the queue by the offset and loads the track it lands on.
    Seek(isize),
    /// Sets the output device's volume, in thousandths.
    SetVolume(u16),
    Exit,
}

/// The volume setting: a level in thousandths and a mute switch.
#[derive(Clone, Copy, Debug, PartialEq, Eq, Structural)]
pub struct Transport {
    volume: u16,
    muted: bool,
}

/// `v` held to the volume range.
pub open spec fn clamp_volume(v: int) -> int {
    if v < 0 {
        0
    } else if v > VOLUME_MAX {
        VOLUME_MAX as int
    } else {
        v
    }
}

/// The volume the output device plays at.
pub open spec fn audible(volume: int, muted: bool) -> int {
    if muted {
        0
    } else {
        volume
    }
}

impl Transport {
    pub closed spec fn level(&self) -> int {
        self.volume as int
    }

    pub closed spec fn is_muted(&self) -> bool {
        self.muted
    }

    /// The volume is within range.
    pub open spec fn well_formed(&self) -> bool {
        0 <= self.level() <= VOLUME_MAX
    }

    /// The state after `command`, and the action it asks for, when the output
    /// is `paused` or not.
    pub open spec fn step(self, command: MediaControlsEvent, paused: bool) -> (int, bool, Action) {
        let v = self.level();
        let m = self.is_muted();
        match command {
            MediaControlsEvent::Play => (v, m, Action::Play),
            MediaControlsEvent::Pause => (v, m, Action::Pause),
            MediaControlsEvent::TogglePlayPause => (v, m, if paused { Action::Play } else { Action::Pause }),
            MediaControlsEvent::Stop => (v, m, Action::Stop),
            MediaControlsEvent::Next => (v, m, Action::Seek(1)),
            MediaControlsEvent::Previous => (v, m, Action::Seek(-1isize)),
            MediaControlsEvent::SetVolume(level) => {
                let nv = clamp_volume(level as int);
                (nv, m, Action::SetVolume(audible(nv, m) as u16))
            },
            MediaControlsEvent::VolumeToggleMute => (v, !m, Action::SetVolume(audible(v, !m) as u16)),
            MediaControlsEvent::VolumeMute => (v, true, Action::SetVolume(0)),
            MediaControlsEvent::VolumeUnmute => (v, false, Action::SetVolume(v as u16)),
            MediaControlsEvent::VolumeUp => {
                let nv = clamp_volume(v + VOLUME_STEP);
                (nv, m, Action::SetVolume(audible(nv, m) as u16))
            },
            MediaControlsEvent::VolumeDown => {
                let nv = clamp_volume(v - VOLUME_STEP);
                (nv, m, Action::SetVolume(audible(nv, m) as u16))
            },
            MediaControlsEvent::Quit => (v, m, Action::Exit),
        }
    }

    /// Unmuted, at `volume` held to the volume range.
    pub fn new(volume: u16) -> (r: Transport)
        ensures
            r.well_formed(),
            r.level() == clamp_volume(volume as int),
            !r.is_muted(),
    {
        Transport { volume: if volume > VOLUME_MAX { VOLUME_MAX } else { volume }, muted: false }
    }

    /// The volume level, in thousandths.
    pub fn volume(&self) -> (r: u16)
        ensures
            r == self.level(),
    {
        self.volume
    }

    pub fn muted(&self) -> (r: bool)
        ensures
            r == self.is_muted(),
    {
        self.muted
    }

    /// The volume the output device plays at: none while muted.
    pub fn output_volume(&self) -> (r: u16)
        ensures
            r == audible(self.level(), self.is_muted()),
    {
        if self.muted {
            0
        } else {
            self.volume
        }
    }

    /// Applies `command`, with the output `paused` or not, and returns what
    /// the control loop must do for it.
    pub fn apply(&mut self, command: MediaControlsEvent, paused: bool) -> (a: Action)
        requires
            old(self).well_formed(),
        ensures
            final(self).well_formed(),
            (final(self).level(), final(self).is_muted(), a) == old(self).step(command, paused),
    {
        match command {
            MediaControlsEvent::Play => Action::Play,
            MediaControlsEvent::Pause => Action::Pause,
            MediaControlsEvent::TogglePlayPause => if paused {
                Action::Play
            } else {
                Action::Pause
            },
            MediaControlsEvent::Stop => Action::Stop,
            MediaControlsEvent::Next => Action::Seek(1),
            MediaControlsEvent::Previous => Action::Seek(-1),
            MediaControlsEvent::SetVolume(level) => {
                self.volume = if level > VOLUME_MAX { VOLUME_MAX } else { level };
                Action::SetVolume(self.output_volume())
            },
            MediaControlsEvent::VolumeToggleMute => {
                self.muted = !self.muted;
                Action::SetVolume(self.output_volume())
            },
            MediaControlsEvent::VolumeMute => {
                self.muted = true;
                Action::SetVolume(0)
            },
            MediaControlsEvent::VolumeUnmute => {
                self.muted = false;
                Action::SetVolume(self.volume)
            },
            MediaControlsEvent::VolumeUp => {
                self.volume = if self.volume >= VOLUME_MAX - VOLUME_STEP {
                    VOLUME_MAX
                } else {
                    self.volume + VOLUME_STEP
                };
                Action::SetVolume(self.output_volume())
            },
            MediaControlsEvent::VolumeDown => {
                self.volume = if self.volume <= VOLUME_STEP {
                    0
                } else {
                    self.volume - VOLUME_STEP
                };
                Action::SetVolume(self.output_volume())
            },
            MediaControlsEvent::Quit => Action::Exit,
        }
    }
}

/// Whether the control loop moves on to the next track: the output has run
/// dry while it is not paused.
pub fn track_finished(paused: bool, empty: bool) -> (r: bool)
    ensures
        r == (!paused && empty),
{
    !paused && empty
}


/// The virtual-key code of the volume mute key.
pub const VK_VOLUME_MUTE: u32 = 0xAD;

/// The virtual-key code of the volume down key.
pub const VK_VOLUME_DOWN: u32 = 0xAE;

/// The virtual-key code of the volume up key.
pub const VK_VOLUME_UP: u32 = 0xAF;

/// The command for a system volume key, when the player takes it over.
pub open spec fn key_command(key_down: bool, virtual_key: u32, session_active: bool) -> Option<MediaControlsEvent> {
    if !key_down || !session_active {
        None
    } else if virtual_key == VK_VOLUME_MUTE {
        Some(MediaControlsEvent::VolumeToggleMute)
    } else if virtual_key == VK_VOLUME_DOWN {
        Some(MediaControlsEvent::VolumeDown)
    } else if virtual_key == VK_VOLUME_UP {
        Some(MediaControlsEvent::VolumeUp)
    } else {
        None
    }
}

/// Whether a system key event is taken over, and as which command: a press
/// of a volume key, while this player owns the active media session. A key
/// taken over is suppressed for the rest of the system; any other passes on.
pub fn intercepted_key(key_down: bool, virtual_key: u32, session_active: bool) -> (r: Option<
    MediaControlsEvent,
>)
    ensures
        r == key_command(key_down, virtual_key, session_active),
{
    if !key_down || !session_active {
        None
    } else if virtual_key == VK_VOLUME_MUTE {
        Some(MediaControlsEvent::VolumeToggleMute)
    } else if virtual_key == VK_VOLUME_DOWN {
        Some(MediaControlsEvent::VolumeDown)
    } else if virtual_key == VK_VOLUME_UP {
        Some(MediaControlsEvent::VolumeUp)
    } else {
        None
    }
}

} // verus!
