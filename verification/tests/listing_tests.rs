use empede::listing::{display_name_of, entries_from, player_snapshot, queue_from, Entry};
use empede::result::{CommandResult, PropertyMap};

fn props(pairs: &[(&str, &str)]) -> Vec<(String, String)> {
    pairs.iter().map(|(k, v)| (k.to_string(), v.to_string())).collect()
}

fn records(pairs: &[(&str, &str)], bounds: &[&str]) -> Vec<PropertyMap> {
    CommandResult::new(props(pairs)).into_hashmaps(bounds)
}

fn status_of(pairs: &[(&str, &str)]) -> PropertyMap {
    CommandResult::new(props(pairs)).into_hashmap()
}

#[test]
fn display_name_takes_the_final_segment() {
    assert_eq!(display_name_of("albums/artist/song.mp3"), "song.mp3");
    assert_eq!(display_name_of("song.mp3"), "song.mp3");
}

#[test]
fn display_name_ignores_trailing_slashes() {
    assert_eq!(display_name_of("albums/sub/"), "sub");
}

#[test]
fn display_name_falls_back_on_unusable_paths() {
    assert_eq!(display_name_of(""), "n/a");
    assert_eq!(display_name_of("/"), "n/a");
    assert_eq!(display_name_of("."), "n/a");
    assert_eq!(display_name_of("a/.."), "n/a");
}

#[test]
fn listing_groups_at_boundary_keys() {
    // The directory listing with two songs and a directory yields
    // exactly three records in order: the titled song, the untitled
    // song named after its file, and the directory.
    let rs = records(
        &[
            ("file", "a.mp3"),
            ("Title", "Song A"),
            ("file", "b.mp3"),
            ("directory", "Sub"),
        ],
        &["file", "directory", "playlist"],
    );
    let entries = entries_from(&rs);
    assert_eq!(
        entries,
        vec![
            Entry::Song {
                track: None,
                name: "Song A".to_string(),
                artist: String::new(),
                path: "a.mp3".to_string(),
            },
            Entry::Song {
                track: None,
                name: "b.mp3".to_string(),
                artist: String::new(),
                path: "b.mp3".to_string(),
            },
            Entry::Directory { name: "Sub".to_string(), path: "Sub".to_string() },
        ]
    );
}

#[test]
fn listing_reads_artist_and_track_tags() {
    let rs = records(
        &[
            ("file", "a.mp3"),
            ("Title", "Song A"),
            ("Artist", "Band"),
            ("Track", "7"),
        ],
        &["file", "directory", "playlist"],
    );
    let entries = entries_from(&rs);
    assert_eq!(
        entries,
        vec![Entry::Song {
            track: Some(7),
            name: "Song A".to_string(),
            artist: "Band".to_string(),
            path: "a.mp3".to_string(),
        }]
    );
}

#[test]
fn listing_ignores_unparseable_track() {
    let rs = records(
        &[("file", "a.mp3"), ("Track", "7/12")],
        &["file", "directory", "playlist"],
    );
    match &entries_from(&rs)[0] {
        Entry::Song { track, .. } => assert_eq!(*track, None),
        _ => panic!("expected a song"),
    }
}

#[test]
fn listing_recognizes_playlists() {
    let rs = records(&[("playlist", "mixes/roadtrip.m3u")], &["file", "directory", "playlist"]);
    assert_eq!(
        entries_from(&rs),
        vec![Entry::Playlist {
            name: "roadtrip.m3u".to_string(),
            path: "mixes/roadtrip.m3u".to_string(),
        }]
    );
}

#[test]
fn queue_marks_the_playing_item() {
    let status = status_of(&[("songid", "12")]);
    let rs = records(
        &[
            ("file", "a.mp3"),
            ("Id", "11"),
            ("file", "b.mp3"),
            ("Title", "Song B"),
            ("Artist", "Band"),
            ("Id", "12"),
        ],
        &["file"],
    );
    let queue = queue_from(&status, &rs);
    assert_eq!(queue.len(), 2);
    assert_eq!(queue[0].id, 11);
    assert_eq!(queue[0].file, "a.mp3");
    assert_eq!(queue[0].title, "a.mp3");
    assert_eq!(queue[0].artist, None);
    assert!(!queue[0].playing);
    assert_eq!(queue[1].id, 12);
    assert_eq!(queue[1].title, "Song B");
    assert_eq!(queue[1].artist, Some("Band".to_string()));
    assert!(queue[1].playing);
}

#[test]
fn queue_without_current_song_marks_nothing() {
    let status = status_of(&[]);
    let rs = records(&[("file", "a.mp3"), ("Id", "3")], &["file"]);
    let queue = queue_from(&status, &rs);
    assert!(!queue[0].playing);
}

#[test]
fn player_snapshot_reads_state_and_flags() {
    let status = status_of(&[
        ("state", "play"),
        ("consume", "0"),
        ("random", "1"),
        ("repeat", "0"),
        ("single", "1"),
    ]);
    let song = status_of(&[("file", "a.mp3"), ("Title", "Song A")]);
    let snap = player_snapshot(&status, &song);
    assert_eq!(snap.state, "play");
    assert!(!snap.consume);
    assert!(snap.random);
    assert!(!snap.repeat);
    assert!(snap.single);
    assert_eq!(snap.name, Some("Song A".to_string()));
}

#[test]
fn player_snapshot_name_falls_back_to_file() {
    let status = status_of(&[
        ("state", "pause"),
        ("consume", "0"),
        ("random", "0"),
        ("repeat", "0"),
        ("single", "0"),
    ]);
    let song = status_of(&[("file", "a.mp3")]);
    let snap = player_snapshot(&status, &song);
    assert_eq!(snap.name, Some("a.mp3".to_string()));
}

#[test]
fn player_snapshot_without_song_has_no_name() {
    let status = status_of(&[
        ("state", "stop"),
        ("consume", "0"),
        ("random", "0"),
        ("repeat", "0"),
        ("single", "0"),
    ]);
    let song = status_of(&[]);
    let snap = player_snapshot(&status, &song);
    assert_eq!(snap.name, None);
}
