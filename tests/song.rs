use playlist_player::song::Song;

fn song(file_name: &str) -> Song {
    Song::new(format!("music/{}", file_name), file_name.to_string())
}

#[test]
fn name_strips_identifier_and_extension() {
    let s = song("abc123 My Song.m4a");
    assert!(s.has_name());
    assert_eq!(s.name(), "My Song");
}

#[test]
fn name_keeps_later_spaces() {
    let s = song("x  Two  Spaces.m4a");
    assert_eq!(s.name(), " Two  Spaces");
}

#[test]
fn name_of_non_ascii_title() {
    let s = song("id Café ♫.m4a");
    assert_eq!(s.name(), "Café ♫");
}

#[test]
fn name_may_be_empty() {
    let s = song("id .m4a");
    assert!(s.has_name());
    assert_eq!(s.name(), "");
}

#[test]
fn no_name_without_space() {
    assert!(!song("abc123.m4a").has_name());
}

#[test]
fn no_name_when_title_shorter_than_extension() {
    assert!(!song("abc m4a").has_name());
}

#[test]
fn path_and_file_name_are_kept() {
    let s = song("abc123 My Song.m4a");
    assert_eq!(s.path(), "music/abc123 My Song.m4a");
    assert_eq!(s.file_name(), "abc123 My Song.m4a");
}

#[test]
fn track_files_end_in_m4a() {
    assert!(song("a b.m4a").is_track());
    assert!(song(".m4a").is_track());
    assert!(!song("a b.mp3").is_track());
    assert!(!song("a b.m4a.part").is_track());
    assert!(!song("m4a").is_track());
    assert!(!song("").is_track());
}

#[test]
fn catalog_keeps_tracks_in_order() {
    let entries = vec![
        song("1 One.m4a"),
        song("archive.txt"),
        song("2 Two.m4a"),
        song("2 Two.webp"),
        song("3 Three.m4a"),
    ];
    let catalog = Song::catalog(&entries);
    let names: Vec<&str> = catalog.iter().map(|s| s.file_name()).collect();
    assert_eq!(names, vec!["1 One.m4a", "2 Two.m4a", "3 Three.m4a"]);
}

#[test]
fn catalog_of_no_tracks_is_empty() {
    let entries = vec![song("archive.txt")];
    assert!(Song::catalog(&entries).is_empty());
    assert!(Song::catalog(&Vec::new()).is_empty());
}

#[test]
fn clone_keeps_the_track() {
    let s = song("abc123 My Song.m4a");
    let c = s.clone();
    assert_eq!(c.path(), s.path());
    assert_eq!(c.file_name(), s.file_name());
}
