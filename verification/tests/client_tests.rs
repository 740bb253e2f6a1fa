use navidrome_tui::client::{
    ping_url, prepare_login, random_string, server_id_for, subsonic_token, Client,
    DiscographySong, DownloadStatus, NetworkQuality, Playlist, ProgressReport, Searchable,
};
use navidrome_tui::responses::{
    album_tracks_from, artist_album_ids, artists_from, created_playlist_id, instant_playlist_size,
    lyrics_from, music_libraries_from, playlist_from, playlists_from, random_tracks_from,
    response_ok, search_tracks_from, subsonic_song_to_discography_song, AlbumPager,
};
use navidrome_tui::transport::{
    cover_extension, cover_file_name, cover_part_file_name, http_fallback, network_quality_of,
    probe_base, probe_url, AttemptOutcome, ProbeEvent, ProbeState, RetryState, RetryStep,
};
use navidrome_tui::config::AuthEntry;
use navidrome_tui::subsonic::{
    AlbumList2, Indexes, MusicFolders, RandomSongs, SearchResult3, SubsonicAlbum, SubsonicArtist,
    SubsonicArtistDetails, SubsonicFolder, SubsonicIndex, SubsonicLyricLine, SubsonicLyricsList,
    SubsonicPlaylistEntry, SubsonicPlaylistWithSongs, SubsonicPlaylists, SubsonicResponseData,
    SubsonicResponseRoot, SubsonicSong, SubsonicStructuredLyric,
};

fn empty_root(status: &str) -> SubsonicResponseRoot {
    SubsonicResponseRoot {
        response: SubsonicResponseData {
            status: status.to_string(),
            error: None,
            music_folders: None,
            indexes: None,
            album_list2: None,
            album: None,
            artist: None,
            search_result3: None,
            random_songs: None,
            playlists: None,
            playlist: None,
            lyrics_list: None,
        },
    }
}

fn song(id: &str, starred: bool) -> SubsonicSong {
    SubsonicSong {
        id: id.to_string(),
        title: format!("Title {}", id),
        album: Some("Album".to_string()),
        artist: Some("Artist".to_string()),
        album_id: Some("al-1".to_string()),
        duration: Some(215),
        track: Some(3),
        genre: Some("Rock".to_string()),
        created: None,
        starred: if starred { Some("2024-01-01".to_string()) } else { None },
    }
}

fn client() -> Client {
    Client {
        base_url: "https://music.example".to_string(),
        server_id: "srv".to_string(),
        user_id: "alice".to_string(),
        user_name: "alice".to_string(),
        token: "26719a1196d2a940705a59634eb18eab".to_string(),
        salt: "c19b2d".to_string(),
        device_id: "dev".to_string(),
    }
}

const AUTH: &str = "u=alice&t=26719a1196d2a940705a59634eb18eab&s=c19b2d&v=1.16.1&c=navidrome-tui&f=json";

#[test]
fn classify_network_quality() {
    assert_eq!(NetworkQuality::classify(0), NetworkQuality::Normal);
    assert_eq!(NetworkQuality::classify(300), NetworkQuality::Normal);
    assert_eq!(NetworkQuality::classify(301), NetworkQuality::Slow);
    assert_eq!(NetworkQuality::classify(1200), NetworkQuality::Slow);
    assert_eq!(NetworkQuality::classify(1201), NetworkQuality::CzechTrain);
    assert_eq!(network_quality_of(None), NetworkQuality::CzechTrain);
    assert_eq!(network_quality_of(Some(10)), NetworkQuality::Normal);
}

#[test]
fn random_strings_are_alphanumeric() {
    let a = random_string();
    assert_eq!(a.chars().count(), 10);
    assert!(a.chars().all(|c| c.is_ascii_alphanumeric()));
}

#[test]
fn token_matches_subsonic_example() {
    assert_eq!(subsonic_token("sesame", "c19b2d"), "26719a1196d2a940705a59634eb18eab");
}

#[test]
fn login_preparation() {
    let attempt = prepare_login("https://music.example", "alice", "sesame");
    assert_eq!(attempt.salt.len(), 10);
    assert_eq!(attempt.device_id.len(), 10);
    assert_eq!(attempt.token, subsonic_token("sesame", &attempt.salt));
    assert_eq!(
        attempt.ping_url,
        format!(
            "https://music.example/rest/ping.view?u=alice&t={}&s={}&v=1.16.1&c=navidrome-tui&f=json",
            attempt.token, attempt.salt
        )
    );
    let c = Client::logged_in("https://music.example", "alice", attempt);
    assert_eq!(c.server_id, "https_music.example-alice");
    assert_eq!(c.user_id, "alice");
}

#[test]
fn server_ids() {
    assert_eq!(server_id_for("http://10.0.0.2:4533/nav", "bob"), "http_10.0.0.2_4533_nav-bob");
    assert_eq!(server_id_for("https://a.b", "x"), "https_a.b-x");
}

#[test]
fn ping_url_format() {
    assert_eq!(
        ping_url("http://h", "alice", "tok", "salt"),
        "http://h/rest/ping.view?u=alice&t=tok&s=salt&v=1.16.1&c=navidrome-tui&f=json"
    );
}

#[test]
fn client_from_cache() {
    let entry = AuthEntry {
        known_urls: vec![],
        device_id: "d".to_string(),
        user_id: "id".to_string(),
        username: "bob".to_string(),
        token: "t".to_string(),
        salt: "s".to_string(),
    };
    let c = Client::from_cache("http://h", &"srv".to_string(), &entry);
    assert_eq!(c.user_id, "bob");
    assert_eq!(c.user_name, "bob");
    assert_eq!(c.auth_query(), "u=bob&t=t&s=s&v=1.16.1&c=navidrome-tui&f=json");
}

#[test]
fn endpoint_urls() {
    let c = client();
    let base = "https://music.example/rest/";
    assert_eq!(c.music_folders_url(), format!("{}getMusicFolders.view?{}", base, AUTH));
    assert_eq!(c.indexes_url(), format!("{}getIndexes.view?{}", base, AUTH));
    assert_eq!(c.album_url("a1"), format!("{}getAlbum.view?id=a1&{}", base, AUTH));
    assert_eq!(c.artist_url("r1"), format!("{}getArtist.view?id=r1&{}", base, AUTH));
    assert_eq!(c.search_url("abba"), format!("{}search3.view?query=abba&songCount=100&{} ", base, AUTH));
    assert_eq!(c.random_songs_url(250), format!("{}getRandomSongs.view?size=250&{}", base, AUTH));
    assert_eq!(c.similar_songs_url("t1", 50), format!("{}getSimilarSongs2.view?id=t1&count=50&{}", base, AUTH));
    assert_eq!(c.lyrics_url("s1"), format!("{}getLyricsBySongId.view?id=s1&{}", base, AUTH));
    assert_eq!(c.cover_art_url("c1"), format!("{}getCoverArt.view?id=c1&size=512&{}", base, AUTH));
    assert_eq!(c.playlists_url(), format!("{}getPlaylists.view?{}", base, AUTH));
    assert_eq!(c.playlist_url("p1"), format!("{}getPlaylist.view?id=p1&{}", base, AUTH));
    assert_eq!(c.playing_url("s1"), format!("{}scrobble.view?id=s1&submission=false&{}", base, AUTH));
    assert_eq!(c.add_to_playlist_url("s1", "p1"), format!("{}updatePlaylist.view?playlistId=p1&songIdToAdd=s1&{}", base, AUTH));
    assert_eq!(c.remove_from_playlist_url("3", "p1"), format!("{}updatePlaylist.view?playlistId=p1&songIndexToRemove=3&{}", base, AUTH));
    assert_eq!(c.delete_playlist_url("p1"), format!("{}deletePlaylist.view?id=p1&{}", base, AUTH));
    assert_eq!(c.create_playlist_url("Mix"), format!("{}createPlaylist.view?name=Mix&{}", base, AUTH));
    assert_eq!(c.song_url_sync(&"s1".to_string(), None), format!("{}stream.view?id=s1&{}", base, AUTH));
    assert_eq!(c.favorite_url("s1", true), format!("{}star.view?id=s1&{}", base, AUTH));
    assert_eq!(c.favorite_url("s1", false), format!("{}unstar.view?id=s1&{}", base, AUTH));
    assert_eq!(c.ping_url(), format!("{}ping.view?{}", base, AUTH));
    let mut pl = Playlist::default();
    pl.id = "p1".to_string();
    pl.name = "New".to_string();
    assert_eq!(c.update_playlist_url(&pl), format!("{}updatePlaylist.view?playlistId=p1&name=New&{}", base, AUTH));
}

#[test]
fn album_list_urls() {
    let c = client();
    assert_eq!(
        c.album_list_url(1000, None),
        format!("https://music.example/rest/getAlbumList2.view?type=alphabeticalByArtist&size=500&offset=1000&{}", AUTH)
    );
    assert_eq!(
        c.album_list_url(0, Some(&"7".to_string())),
        format!("https://music.example/rest/getAlbumList2.view?type=alphabeticalByArtist&size=500&offset=0&{}&musicFolderId=7", AUTH)
    );
}

#[test]
fn scrobble_urls() {
    let c = client();
    assert_eq!(c.stopped_url(&None, Some(5)), None);
    assert_eq!(
        c.stopped_url(&Some("s1".to_string()), Some(1_234_567_890)),
        Some(format!("https://music.example/rest/scrobble.view?id=s1&time=123456&submission=true&{}", AUTH))
    );
    assert_eq!(
        c.stopped_url(&Some("s1".to_string()), None),
        Some(format!("https://music.example/rest/scrobble.view?id=s1&time=0&submission=true&{}", AUTH))
    );
    let pr = ProgressReport {
        volume_level: 50,
        is_paused: false,
        position_ticks: 905_000_000,
        playback_start_time_ticks: 0,
        media_source_id: String::new(),
        can_seek: true,
        item_id: "s1".to_string(),
        event_name: "timeupdate".to_string(),
    };
    assert_eq!(
        c.progress_url(&pr),
        format!("https://music.example/rest/scrobble.view?id=s1&time=90&submission=false&{}", AUTH)
    );
}

#[test]
fn song_conversion() {
    let d = subsonic_song_to_discography_song(&song("s1", true));
    assert_eq!(d.id, "s1");
    assert_eq!(d.name, "Title s1");
    assert_eq!(d.album, "Album");
    assert_eq!(d.album_artist, "Artist");
    assert_eq!(d.album_id, "al-1");
    assert_eq!(d.run_time_ticks, 2_150_000_000);
    assert!(d.user_data.is_favorite);
    assert_eq!(d.artists, vec!["Artist".to_string()]);
    assert_eq!(d.album_artists.len(), 1);
    assert_eq!(d.album_artists[0].name, "Artist");
    assert_eq!(d.genres, vec!["Rock".to_string()]);
    assert_eq!(d.download_status, DownloadStatus::NotDownloaded);
    let mut bare = song("s2", false);
    bare.artist = None;
    bare.genre = None;
    bare.duration = None;
    let d = subsonic_song_to_discography_song(&bare);
    assert_eq!(d.artists, vec![String::new()]);
    assert!(d.genres.is_empty());
    assert_eq!(d.run_time_ticks, 0);
    assert!(!d.user_data.is_favorite);
    assert_eq!(Searchable::id(&d), "s2");
}

#[test]
fn music_libraries() {
    let mut root = empty_root("ok");
    root.response.music_folders = Some(MusicFolders {
        music_folder: vec![
            SubsonicFolder { id: 1, name: Some("Music".to_string()) },
            SubsonicFolder { id: -7, name: None },
        ],
    });
    let libs = music_libraries_from(&root);
    assert_eq!(libs.len(), 2);
    assert_eq!(libs[0].id, "1");
    assert_eq!(libs[1].id, "-7");
    assert_eq!(libs[1].name, "Music");
    assert_eq!(libs[1].collection_type, Some("music".to_string()));
    assert!(!libs[0].selected);
    assert!(music_libraries_from(&empty_root("ok")).is_empty());
}

#[test]
fn artist_search_ignores_case() {
    let mut root = empty_root("ok");
    let artist = |id: &str, name: &str, starred: bool| SubsonicArtist {
        id: id.to_string(),
        name: name.to_string(),
        starred: if starred { Some("x".to_string()) } else { None },
    };
    root.response.indexes = Some(Indexes {
        index: vec![
            SubsonicIndex { artist: vec![artist("1", "ABBA", true), artist("2", "Beatles", false)] },
            SubsonicIndex { artist: vec![artist("3", "Black Sabbath", false)] },
        ],
    });
    let all = artists_from(&root, "");
    assert_eq!(all.iter().map(|a| a.id.clone()).collect::<Vec<_>>(), vec!["1", "2", "3"]);
    assert!(all[0].user_data.is_favorite);
    let found = artists_from(&root, "aBb");
    assert_eq!(found.iter().map(|a| a.name.clone()).collect::<Vec<_>>(), vec!["ABBA", "Black Sabbath"]);
    assert!(artists_from(&root, "zz").is_empty());
}

#[test]
fn album_paging() {
    let album = |i: usize| SubsonicAlbum {
        id: format!("a{}", i),
        name: format!("Album {}", i),
        artist: Some("Art".to_string()),
        artist_id: None,
        created: Some("2020".to_string()),
        year: None,
        song: None,
    };
    let mut pager = AlbumPager::new();
    let mut full = empty_root("ok");
    full.response.album_list2 = Some(AlbumList2 { album: (0..500).map(album).collect() });
    let mut short = empty_root("ok");
    short.response.album_list2 = Some(AlbumList2 { album: (500..503).map(album).collect() });
    assert_eq!(pager.offset(), 0);
    assert!(pager.absorb(Some(&full)));
    assert_eq!(pager.offset(), 500);
    assert!(!pager.absorb(Some(&short)));
    let albums = pager.into_albums();
    assert_eq!(albums.len(), 503);
    assert_eq!(albums[502].id, "a502");
    assert_eq!(albums[0].album_artists[0].name, "Art");
    assert_eq!(albums[0].album_artists[0].id, "");
    assert_eq!(albums[0].date_created, "2020");
    let mut failing = AlbumPager::new();
    assert!(!failing.absorb(None));
    assert!(failing.into_albums().is_empty());
}

#[test]
fn album_tracks_and_discography() {
    let mut root = empty_root("ok");
    root.response.album = Some(SubsonicAlbum {
        id: "a".to_string(),
        name: "A".to_string(),
        artist: None,
        artist_id: None,
        created: None,
        year: None,
        song: Some(vec![song("1", false), song("2", true)]),
    });
    let tracks = album_tracks_from(&root);
    assert_eq!(tracks.len(), 2);
    assert_eq!(tracks[1].id, "2");
    assert!(album_tracks_from(&empty_root("ok")).is_empty());
    let mut artist = empty_root("ok");
    artist.response.artist = Some(SubsonicArtistDetails {
        id: "r".to_string(),
        name: "R".to_string(),
        album: vec![
            SubsonicAlbum { id: "x".to_string(), name: "X".to_string(), artist: None, artist_id: None, created: None, year: None, song: None },
            SubsonicAlbum { id: "y".to_string(), name: "Y".to_string(), artist: None, artist_id: None, created: None, year: None, song: None },
        ],
    });
    assert_eq!(artist_album_ids(&artist), vec!["x".to_string(), "y".to_string()]);
}

#[test]
fn search_and_random_tracks() {
    let mut root = empty_root("ok");
    root.response.search_result3 = Some(SearchResult3 { song: Some(vec![song("1", false)]) });
    assert_eq!(search_tracks_from(&root).len(), 1);
    let mut random = empty_root("ok");
    random.response.random_songs = Some(RandomSongs { song: Some(vec![song("1", false), song("2", true), song("3", false)]) });
    assert_eq!(random_tracks_from(&random, false).len(), 3);
    let fav = random_tracks_from(&random, true);
    assert_eq!(fav.len(), 1);
    assert_eq!(fav[0].id, "2");
    assert_eq!(instant_playlist_size(None), 50);
    assert_eq!(instant_playlist_size(Some(7)), 7);
}

#[test]
fn random_favorites_skip_unconverted_songs() {
    let mut long = song("9", false);
    long.duration = Some(u64::MAX);
    let mut random = empty_root("ok");
    random.response.random_songs = Some(RandomSongs { song: Some(vec![long, song("2", true)]) });
    let fav = random_tracks_from(&random, true);
    assert_eq!(fav.len(), 1);
    assert_eq!(fav[0].id, "2");
}

fn lyric_root(blocks: Vec<SubsonicStructuredLyric>) -> SubsonicResponseRoot {
    let mut root = empty_root("ok");
    root.response.lyrics_list = Some(SubsonicLyricsList { structured_lyrics: Some(blocks) });
    root
}

fn line(start: u64, v: &str) -> SubsonicLyricLine {
    SubsonicLyricLine { start, value: v.to_string() }
}

#[test]
fn synced_lyrics_are_preferred() {
    let root = lyric_root(vec![
        SubsonicStructuredLyric { line: vec![line(0, "plain")], synced: false },
        SubsonicStructuredLyric { line: vec![line(1500, "one"), line(3000, "two")], synced: true },
    ]);
    let lyrics = lyrics_from(&root);
    assert_eq!(lyrics.len(), 2);
    assert_eq!(lyrics[0].text, "one");
    assert_eq!(lyrics[0].start, 15_000_000);
    assert_eq!(lyrics[1].start, 30_000_000);
}

#[test]
fn unsynced_lyrics_start_at_zero() {
    let root = lyric_root(vec![SubsonicStructuredLyric { line: vec![line(99, "a"), line(100, "b")], synced: false }]);
    let lyrics = lyrics_from(&root);
    assert_eq!(lyrics.iter().map(|l| (l.text.clone(), l.start)).collect::<Vec<_>>(), vec![("a".to_string(), 0), ("b".to_string(), 0)]);
    assert!(lyrics_from(&empty_root("ok")).is_empty());
}

#[test]
fn playlists_and_playlist() {
    let mut root = empty_root("ok");
    let entry = |id: &str, name: &str, duration: u64| SubsonicPlaylistEntry {
        id: id.to_string(),
        name: name.to_string(),
        song_count: 3,
        duration,
        date_created: "2024".to_string(),
        public: None,
    };
    root.response.playlists = Some(SubsonicPlaylists { playlist: vec![entry("1", "Road Trip", 60), entry("2", "Chill", 30)] });
    let all = playlists_from(&root, "");
    assert_eq!(all.len(), 2);
    assert_eq!(all[0].run_time_ticks, 600_000_000);
    assert_eq!(all[0].date_created, "2024");
    let found = playlists_from(&root, "TRIP");
    assert_eq!(found.len(), 1);
    assert_eq!(found[0].id, "1");
    let mut one = empty_root("ok");
    one.response.playlist = Some(SubsonicPlaylistWithSongs {
        id: "9".to_string(),
        name: "N".to_string(),
        entry: vec![song("1", false)],
        song_count: 12,
        duration: 0,
        date_created: String::new(),
    });
    let res = playlist_from(&one);
    assert_eq!(res.items.len(), 1);
    assert_eq!(res.total_record_count, 12);
    let none = playlist_from(&empty_root("ok"));
    assert!(none.items.is_empty());
    assert_eq!(none.total_record_count, 0);
    assert_eq!(created_playlist_id(Some(&one)), "9");
    assert_eq!(created_playlist_id(None), "");
    assert_eq!(created_playlist_id(Some(&empty_root("ok"))), "");
}

#[test]
fn response_status() {
    assert!(response_ok(&empty_root("ok")));
    assert!(!response_ok(&empty_root("failed")));
}

#[test]
fn probe_helpers() {
    assert_eq!(probe_base("https://a.b//"), "https://a.b");
    assert_eq!(probe_url("http://h/"), "http://h/rest/ping.view?v=1.16.1&c=navidrome-tui&f=json");
    assert_eq!(http_fallback("https://a.b"), Some("http://a.b".to_string()));
    assert_eq!(http_fallback("http://a.b"), None);
}

fn chosen(state: &ProbeState) -> Option<(String, NetworkQuality)> {
    match state {
        ProbeState::Chosen { base, quality } => Some((base.clone(), *quality)),
        _ => None,
    }
}

#[test]
fn probe_takes_answering_server() {
    let s = ProbeState::start("https://a.b/");
    assert!(matches!(&s, ProbeState::Probing { base } if base == "https://a.b"));
    let s = s.next(ProbeEvent::Latency(Some(250)));
    assert_eq!(chosen(&s), Some(("https://a.b".to_string(), NetworkQuality::Normal)));
}

#[test]
fn probe_switches_to_http_with_consent() {
    let s = ProbeState::start("https://a.b").next(ProbeEvent::Latency(None));
    assert!(matches!(&s, ProbeState::ProbingFallback { base, fallback } if base == "https://a.b" && fallback == "http://a.b"));
    let s = s.next(ProbeEvent::Switch(true));
    assert!(matches!(&s, ProbeState::ProbingFallback { .. }));
    let s = s.next(ProbeEvent::Latency(Some(700)));
    assert!(matches!(&s, ProbeState::Asking { fallback, ms: 700 } if fallback == "http://a.b"));
    let s = s.next(ProbeEvent::Switch(true));
    assert_eq!(chosen(&s), Some(("http://a.b".to_string(), NetworkQuality::Slow)));
}

#[test]
fn probe_declined_or_silent() {
    let declined = ProbeState::start("https://a.b")
        .next(ProbeEvent::Latency(None))
        .next(ProbeEvent::Latency(Some(10)))
        .next(ProbeEvent::Switch(false));
    assert!(matches!(declined, ProbeState::Declined));
    let silent = ProbeState::start("https://a.b")
        .next(ProbeEvent::Latency(None))
        .next(ProbeEvent::Latency(None));
    assert_eq!(chosen(&silent), Some(("https://a.b".to_string(), NetworkQuality::CzechTrain)));
    let plain = ProbeState::start("http://a.b").next(ProbeEvent::Latency(None));
    assert_eq!(chosen(&plain), Some(("http://a.b".to_string(), NetworkQuality::CzechTrain)));
}

#[test]
fn retry_policy() {
    let mut r = RetryState::new();
    assert_eq!(r.next(AttemptOutcome::OtherStatus), RetryStep::Wait(500));
    assert_eq!(r.next(AttemptOutcome::Failed), RetryStep::Wait(1000));
    assert_eq!(r.next(AttemptOutcome::Failed), RetryStep::LastTry);
    let mut s = RetryState::new();
    assert_eq!(s.next(AttemptOutcome::Success), RetryStep::Decode);
    assert_eq!(s.next(AttemptOutcome::ClientError), RetryStep::Decode);
}

#[test]
fn cover_names() {
    assert_eq!(cover_extension("image/png"), "png");
    assert_eq!(cover_extension("image/jpeg"), "jpeg");
    assert_eq!(cover_extension("image/jpg"), "jpg");
    assert_eq!(cover_extension("image/webp"), "webp");
    assert_eq!(cover_extension(""), "jpg");
    assert_eq!(cover_extension("image/gif"), "jpg");
    assert_eq!(cover_file_name("al1", "png"), "al1.png");
    assert_eq!(cover_part_file_name("al1", "png"), "al1.png.part");
}

#[test]
fn blank_song_default() {
    let d = DiscographySong::default();
    assert!(d.id.is_empty());
    assert_eq!(d.download_status, DownloadStatus::NotDownloaded);
}
