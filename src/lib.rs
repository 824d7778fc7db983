//! A music player core: the track catalog, the shuffling playback queue,
//! loudness measurement and the transport decisions of a playback session.

pub mod loudness;
pub mod media_controls;
pub mod playlist;
pub mod session;
pub mod song;
