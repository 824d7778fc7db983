use playlist_player::playlist::{Playlist, PlaylistError, PlaylistSeekable, PlaylistShuffle};
use playlist_player::song::Song;

fn catalog(n: usize) -> Vec<Song> {
    (0..n)
        .map(|i| Song::new(format!("dir/id{} Track {}.m4a", i, i), format!("id{} Track {}.m4a", i, i)))
        .collect()
}

fn file_of(s: &Option<Song>) -> String {
    s.as_ref().expect("a track").file_name().to_string()
}

fn track_name(i: usize) -> String {
    format!("id{} Track {}.m4a", i, i)
}

#[test]
fn sequential_wraps_around() {
    let mut p = Playlist::with_shuffle(catalog(5), PlaylistShuffle::Normal).unwrap();
    assert_eq!(file_of(&p.seek(0)), track_name(0));
    for i in 1..5 {
        assert_eq!(file_of(&p.seek(1)), track_name(i));
    }
    assert_eq!(file_of(&p.seek(1)), track_name(0));
    assert_eq!(p.history(), &vec![0, 1, 2, 3, 4, 0]);
    assert_eq!(p.index(), 5);
}

#[test]
fn sequential_first_forward_seek_draws_two_entries() {
    let mut p = Playlist::with_shuffle(catalog(5), PlaylistShuffle::Normal).unwrap();
    assert_eq!(file_of(&p.seek(1)), track_name(1));
    assert_eq!(p.history(), &vec![0, 1]);
}

#[test]
fn single_track_default_blacklist_is_zero() {
    let p = Playlist::new(catalog(1)).unwrap();
    assert_eq!(p.mode(), PlaylistShuffle::SmartRandom { blacklist_length: 0 });
}

#[test]
fn single_track_positive_blacklist_is_refused() {
    let r = Playlist::with_shuffle(catalog(1), PlaylistShuffle::SmartRandom { blacklist_length: 1 });
    assert_eq!(r.unwrap_err(), PlaylistError::BlacklistTooLong);
}

#[test]
fn single_track_plays_again_and_again() {
    let mut p = Playlist::new(catalog(1)).unwrap();
    for _ in 0..5 {
        assert_eq!(file_of(&p.seek(1)), track_name(0));
    }
}

#[test]
fn empty_catalog_is_refused() {
    assert_eq!(Playlist::new(Vec::new()).unwrap_err(), PlaylistError::EmptyCatalog);
    assert_eq!(
        Playlist::with_shuffle(Vec::new(), PlaylistShuffle::Normal).unwrap_err(),
        PlaylistError::EmptyCatalog
    );
}

#[test]
fn default_blacklist_sizes() {
    let cases = [(2, 0), (3, 0), (5, 2), (10, 7), (11, 5), (20, 10)];
    for (n, expected) in cases {
        let p = Playlist::new(catalog(n)).unwrap();
        assert_eq!(p.mode(), PlaylistShuffle::SmartRandom { blacklist_length: expected });
        assert_eq!(p.len(), n);
    }
}

#[test]
fn blacklist_keeps_recent_tracks_out() {
    let n = 10;
    let blacklist_length = 9;
    let mut p = Playlist::with_shuffle(
        catalog(n),
        PlaylistShuffle::SmartRandom { blacklist_length },
    )
    .unwrap();
    for _ in 0..200 {
        let before = p.history().clone();
        let drawn = p.seek(1);
        let history = p.history();
        if before.len() + 1 == history.len() {
            let index = history[p.index()];
            let start = before.len().saturating_sub(blacklist_length);
            assert!(!before[start..].contains(&index));
            assert_eq!(file_of(&drawn), track_name(index));
        }
    }
}

#[test]
fn full_blacklist_makes_a_fixed_cycle() {
    let n = 4;
    let mut p = Playlist::with_shuffle(catalog(n), PlaylistShuffle::SmartRandom { blacklist_length: 3 })
        .unwrap();
    for _ in 0..12 {
        p.seek(1);
    }
    let h = p.history().clone();
    for i in n..h.len() {
        assert_eq!(h[i], h[i - n]);
    }
}

#[test]
fn random_draws_catalog_indices() {
    let mut p = Playlist::with_shuffle(catalog(3), PlaylistShuffle::Random).unwrap();
    let mut seen = [false; 3];
    for _ in 0..300 {
        let drawn = p.seek(1);
        let index = p.history()[p.index()];
        assert!(index < 3);
        assert_eq!(file_of(&drawn), track_name(index));
        seen[index] = true;
    }
    assert!(seen.iter().all(|s| *s));
}

#[test]
fn seek_zero_is_idempotent() {
    let mut p = Playlist::new(catalog(6)).unwrap();
    let first = file_of(&p.seek(0));
    let len = p.history().len();
    for _ in 0..5 {
        assert_eq!(file_of(&p.seek(0)), first);
        assert_eq!(p.history().len(), len);
        assert_eq!(p.index(), 0);
    }
}

#[test]
fn peek_then_seek_agree() {
    let mut p = Playlist::new(catalog(8)).unwrap();
    p.seek(2);
    let peeked = file_of(&p.peek(3));
    assert_eq!(p.index(), 2);
    let sought = file_of(&p.seek(3));
    assert_eq!(sought, peeked);
    assert_eq!(p.index(), 5);
}

#[test]
fn peek_back_then_seek_back() {
    let mut p = Playlist::new(catalog(8)).unwrap();
    p.seek(4);
    let peeked = file_of(&p.peek(-2));
    assert_eq!(p.index(), 4);
    assert_eq!(file_of(&p.seek(-2)), peeked);
    assert_eq!(p.index(), 2);
}

#[test]
fn peek_zero_and_current_read_the_cursor() {
    let mut p = Playlist::with_shuffle(catalog(5), PlaylistShuffle::Normal).unwrap();
    p.seek(2);
    assert_eq!(file_of(&p.peek(0)), track_name(2));
    assert_eq!(file_of(&p.current()), track_name(2));
    assert_eq!(p.index(), 2);
}

#[test]
fn peek_before_start_changes_nothing() {
    let mut p = Playlist::new(catalog(5)).unwrap();
    p.seek(1);
    let history = p.history().clone();
    assert!(p.peek(-3).is_none());
    assert_eq!(p.index(), 1);
    assert_eq!(p.history(), &history);
}

#[test]
fn seek_before_start_is_refused() {
    let mut p = Playlist::new(catalog(5)).unwrap();
    p.seek(2);
    let history = p.history().clone();
    assert!(p.seek(-3).is_none());
    assert_eq!(p.index(), 2);
    assert_eq!(p.history(), &history);
    assert!(p.seek(isize::MIN).is_none());
    assert_eq!(p.index(), 2);
}

#[test]
fn seek_back_replays_history() {
    let mut p = Playlist::new(catalog(7)).unwrap();
    let a = file_of(&p.seek(0));
    let b = file_of(&p.seek(1));
    let c = file_of(&p.seek(1));
    assert_eq!(file_of(&p.seek(-1)), b);
    assert_eq!(file_of(&p.seek(-1)), a);
    assert_eq!(file_of(&p.seek(2)), c);
    assert_eq!(p.history().len(), 3);
}

#[test]
fn fresh_queue_is_empty() {
    let p = Playlist::new(catalog(3)).unwrap();
    assert!(p.history().is_empty());
    assert_eq!(p.index(), 0);
}

#[test]
fn candidates_follow_the_policy() {
    let mut p = Playlist::with_shuffle(catalog(5), PlaylistShuffle::SmartRandom { blacklist_length: 2 })
        .unwrap();
    assert_eq!(p.candidates(), vec![0, 1, 2, 3, 4]);
    p.seek(2);
    let h = p.history().clone();
    let expected: Vec<usize> = (0..5).filter(|i| *i != h[1] && *i != h[2]).collect();
    assert_eq!(p.candidates(), expected);

    let mut q = Playlist::with_shuffle(catalog(5), PlaylistShuffle::Normal).unwrap();
    assert_eq!(q.candidates(), vec![0]);
    q.seek(4);
    assert_eq!(q.candidates(), vec![0]);

    let r = Playlist::with_shuffle(catalog(3), PlaylistShuffle::Random).unwrap();
    assert_eq!(r.candidates(), vec![0, 1, 2]);
}

#[test]
fn seek_far_ahead_below_the_limit() {
    let mut p = Playlist::with_shuffle(catalog(3), PlaylistShuffle::Normal).unwrap();
    let limit = playlist_player::playlist::HISTORY_LIMIT;
    assert_eq!(file_of(&p.seek((limit - 1) as isize)), track_name((limit - 1) % 3));
    assert_eq!(p.history().len(), limit);
}
