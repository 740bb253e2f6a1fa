//! Turning decoded Subsonic responses into the library's data model.
use vstd::prelude::*;
use crate::client::{
    Album, Artist, DiscographySong, DiscographySongUserData, DownloadStatus, LibraryView, Lyric,
    Playlist, PlaylistResult, UserData,
};
use crate::subsonic::{
    SubsonicAlbum, SubsonicArtist, SubsonicFolder, SubsonicIndex, SubsonicLyricLine,
    SubsonicPlaylistEntry, SubsonicResponseRoot, SubsonicSong, SubsonicStructuredLyric,
};
use crate::text::{
    chars_of, contains_seq, lowercase, occurs_at, push_signed_decimal, signed_decimal, to_lowercase,
    vec_contains,
};

verus! {

/// The text of an optional field; empty when absent.
pub open spec fn opt_text(o: Option<String>) -> Seq<char> {
    match o {
        Some(v) => v@,
        None => Seq::empty(),
    }
}

/// An optional field, or the empty string.
fn text_or_empty(o: &Option<String>) -> (res: String)
    ensures
        res@ == opt_text(*o),
{
    match o {
        Some(v) => v.clone(),
        None => String::new(),
    }
}

/// Play time of a song in 100-nanosecond ticks (its duration is in seconds).
pub open spec fn song_ticks(s: SubsonicSong) -> int {
    match s.duration {
        Some(d) => d * 10_000_000,
        None => 0,
    }
}

/// The song's play time can be counted in ticks without overflow.
pub open spec fn song_fits(s: SubsonicSong) -> bool {
    song_ticks(s) <= u64::MAX
}

/// All songs of `list` fit.
pub open spec fn songs_fit(list: Seq<SubsonicSong>) -> bool {
    forall|i: int| 0 <= i < list.len() ==> song_fits(#[trigger] list[i])
}

/// `d` is the song that `s` describes: id, title, album, artist (also as the
/// only album artist), play time, favourite flag and genre are taken over,
/// everything else is blank.
pub open spec fn converted_song(s: SubsonicSong, d: DiscographySong) -> bool {
    &&& d.id@ == s.id@
    &&& d.name@ == s.title@
    &&& d.album@ == opt_text(s.album)
    &&& d.album_artist@ == opt_text(s.artist)
    &&& d.album_id@ == opt_text(s.album_id)
    &&& d.run_time_ticks == song_ticks(s)
    &&& d.user_data.is_favorite == (s.starred is Some)
    &&& d.user_data.play_count == 0
    &&& d.artists.deep_view() == seq![opt_text(s.artist)]
    &&& d.album_artists@.len() == 1
    &&& d.album_artists@[0].id@.len() == 0
    &&& d.album_artists@[0].name@ == opt_text(s.artist)
    &&& d.album_artists@[0].run_time_ticks == 0
    &&& !d.album_artists@[0].user_data.is_favorite
    &&& d.album_artists@[0].date_created@.len() == 0
    &&& d.genres.deep_view() == (match s.genre {
        Some(g) => seq![g@],
        None => Seq::<Seq<char>>::empty(),
    })
    &&& d.date_created@.len() == 0
    &&& !d.has_lyrics
    &&& d.playlist_item_id@.len() == 0
    &&& d.index_number == 0
    &&& d.parent_id@.len() == 0
    &&& d.parent_index_number == 0
    &&& d.premiere_date@.len() == 0
    &&& d.production_year == 0
    &&& d.server_id@.len() == 0
    &&& d.download_status == DownloadStatus::NotDownloaded
    &&& !d.disliked
}

/// The library's song for a song of a Subsonic response.
pub fn subsonic_song_to_discography_song(s: &SubsonicSong) -> (res: DiscographySong)
    requires
        song_fits(*s),
    ensures
        converted_song(*s, res),
{
    let artist_name = text_or_empty(&s.artist);
    let album_name = text_or_empty(&s.album);
    let seconds = match s.duration {
        Some(d) => d,
        None => 0,
    };
    let duration_ms = seconds * 1000;
    let ticks = duration_ms * 10000;
    let mut genres: Vec<String> = Vec::new();
    if let Some(g) = &s.genre {
        genres.push(g.clone());
    }
    let mut artists: Vec<String> = Vec::new();
    artists.push(artist_name.clone());
    let mut album_artists: Vec<Artist> = Vec::new();
    album_artists.push(
        Artist {
            name: artist_name.clone(),
            id: String::new(),
            run_time_ticks: 0,
            user_data: UserData { is_favorite: false },
            date_created: String::new(),
        },
    );
    let res = DiscographySong {
        album: album_name,
        album_artist: artist_name,
        album_artists,
        album_id: text_or_empty(&s.album_id),
        artists,
        date_created: String::new(),
        genres,
        has_lyrics: false,
        id: s.id.clone(),
        name: s.title.clone(),
        playlist_item_id: String::new(),
        index_number: 0,
        parent_id: String::new(),
        parent_index_number: 0,
        premiere_date: String::new(),
        production_year: 0,
        run_time_ticks: ticks,
        server_id: String::new(),
        user_data: DiscographySongUserData { play_count: 0, is_favorite: s.starred.is_some() },
        download_status: DownloadStatus::NotDownloaded,
        disliked: false,
    };
    proof {
        assert(res.artists.deep_view() =~= seq![opt_text(s.artist)]);
        assert(res.genres.deep_view() =~= (match s.genre {
            Some(g) => seq![g@],
            None => Seq::<Seq<char>>::empty(),
        }));
    }
    res
}

/// The library's songs for the songs of a Subsonic response, in order.
pub fn songs_from(list: &Vec<SubsonicSong>) -> (res: Vec<DiscographySong>)
    requires
        songs_fit(list@),
    ensures
        res@.len() == list@.len(),
        forall|i: int| 0 <= i < list@.len() ==> converted_song(list@[i], #[trigger] res@[i]),
{
    let mut res: Vec<DiscographySong> = Vec::new();
    let mut i: usize = 0;
    while i < list.len()
        invariant
            i <= list@.len(),
            songs_fit(list@),
            res@.len() == i,
            forall|j: int| 0 <= j < i ==> converted_song(list@[j], #[trigger] res@[j]),
        decreases list.len() - i,
    {
        assert(song_fits(list@[i as int]));
        res.push(subsonic_song_to_discography_song(&list[i]));
        i = i + 1;
    }
    res
}


/// The server accepted the request.
pub open spec fn response_accepted(root: SubsonicResponseRoot) -> bool {
    root.response.status@ == "ok"@
}

/// Did the server report success (`status` is `ok`)?
pub fn response_ok(root: &SubsonicResponseRoot) -> (res: bool)
    ensures
        res == response_accepted(*root),
{
    let ok = "ok".to_string();
    root.response.status.eq(&ok)
}

/// `v` is the library view of music folder `f`.
pub open spec fn converted_folder(f: SubsonicFolder, v: LibraryView) -> bool {
    &&& v.id@ == signed_decimal(f.id as int)
    &&& v.name@ == (match f.name {
        Some(n) => n@,
        None => "Music"@,
    })
    &&& (v.collection_type matches Some(c) && c@ == "music"@)
    &&& !v.selected
}

/// The music folders of a response as library views, in order.
pub fn music_libraries_from(root: &SubsonicResponseRoot) -> (res: Vec<LibraryView>)
    ensures
        match root.response.music_folders {
            Some(f) => res@.len() == f.music_folder@.len() && forall|i: int|
                0 <= i < res@.len() ==> converted_folder(f.music_folder@[i], #[trigger] res@[i]),
            None => res@.len() == 0,
        },
{
    let mut res: Vec<LibraryView> = Vec::new();
    if let Some(folders) = &root.response.music_folders {
        let list = &folders.music_folder;
        let mut i: usize = 0;
        while i < list.len()
            invariant
                i <= list@.len(),
                res@.len() == i,
                forall|j: int| 0 <= j < i ==> converted_folder(list@[j], #[trigger] res@[j]),
            decreases list.len() - i,
        {
            let f = &list[i];
            let mut id = String::new();
            push_signed_decimal(&mut id, f.id);
            let name = match &f.name {
                Some(n) => n.clone(),
                None => "Music".to_string(),
            };
            res.push(
                LibraryView {
                    id,
                    name,
                    collection_type: Some("music".to_string()),
                    selected: false,
                },
            );
            proof {
                assert(Seq::<char>::empty() + signed_decimal(f.id as int) =~= signed_decimal(
                    f.id as int,
                ));
            }
            i = i + 1;
        }
    }
    res
}

/// A name matches a search term when the term is empty or, ignoring case,
/// occurs in the name.
pub open spec fn name_matches(name: Seq<char>, term: Seq<char>) -> bool {
    term.len() == 0 || contains_seq(lowercase(name), lowercase(term))
}

/// Does `name` match the search term whose lower-case characters are `term_lower`?
fn matches_term(name: &String, term: &str, term_lower: &Vec<char>) -> (res: bool)
    requires
        term_lower@ == lowercase(term@),
    ensures
        res == name_matches(name@, term@),
{
    if term.is_empty() {
        return true;
    }
    let lowered = to_lowercase(name.as_str());
    let hay = chars_of(lowered.as_str());
    vec_contains(&hay, term_lower)
}

/// All artists of the index entries, in order.
pub open spec fn index_artists(idx: Seq<SubsonicIndex>) -> Seq<SubsonicArtist>
    decreases idx.len(),
{
    if idx.len() == 0 {
        Seq::empty()
    } else {
        index_artists(idx.drop_last()) + idx.last().artist@
    }
}

/// The artists of `list` whose names match `term`, in order.
pub open spec fn matching_artists(list: Seq<SubsonicArtist>, term: Seq<char>) -> Seq<SubsonicArtist>
    decreases list.len(),
{
    if list.len() == 0 {
        Seq::empty()
    } else if name_matches(list.last().name@, term) {
        matching_artists(list.drop_last(), term).push(list.last())
    } else {
        matching_artists(list.drop_last(), term)
    }
}

/// The artists listed for `term` are exactly the artists of `list` whose
/// lower-cased name holds the whole lower-cased term (every artist when the
/// term is empty): each listed artist is in `list` and holds the term, and
/// each artist of `list` that holds the term is listed.
pub proof fn law_artist_search_is_substring_filter(list: Seq<SubsonicArtist>, term: Seq<char>)
    ensures
        forall|i: int|
            0 <= i < matching_artists(list, term).len() ==> {
                let a = #[trigger] matching_artists(list, term)[i];
                &&& list.contains(a)
                &&& term.len() == 0 || exists|at: int|
                    0 <= at && at + lowercase(term).len() <= lowercase(a.name@).len()
                        && #[trigger] lowercase(a.name@).subrange(at, at + lowercase(term).len())
                        == lowercase(term)
            },
        forall|j: int|
            0 <= j < list.len() && (term.len() == 0 || exists|at: int|
                0 <= at && at + lowercase(term).len() <= lowercase(list[j].name@).len()
                    && #[trigger] lowercase(list[j].name@).subrange(at, at + lowercase(term).len())
                    == lowercase(term)) ==> matching_artists(list, term).contains(#[trigger] list[j]),
    decreases list.len(),
{
    if list.len() > 0 {
        let rest = list.drop_last();
        law_artist_search_is_substring_filter(rest, term);
        let before = matching_artists(rest, term);
        let now = matching_artists(list, term);
        assert forall|i: int| 0 <= i < now.len() implies list.contains(#[trigger] now[i]) && (term.len()
            == 0 || exists|at: int|
            0 <= at && at + lowercase(term).len() <= lowercase(now[i].name@).len()
                && #[trigger] lowercase(now[i].name@).subrange(at, at + lowercase(term).len())
                == lowercase(term)) by {
            if i < before.len() {
                assert(now[i] == before[i]);
                let k = choose|k: int| 0 <= k < rest.len() && rest[k] == before[i];
                assert(list[k] == rest[k]);
            } else {
                assert(now[i] == list.last());
                assert(list[list.len() - 1] == list.last());
            }
        }
        assert forall|j: int|
            0 <= j < list.len() && (term.len() == 0 || exists|at: int|
                0 <= at && at + lowercase(term).len() <= lowercase(list[j].name@).len()
                    && #[trigger] lowercase(list[j].name@).subrange(at, at + lowercase(term).len())
                    == lowercase(term)) implies now.contains(#[trigger] list[j]) by {
            if j == list.len() - 1 {
                if term.len() > 0 {
                    let at = choose|at: int|
                        0 <= at && at + lowercase(term).len() <= lowercase(list[j].name@).len()
                            && #[trigger] lowercase(list[j].name@).subrange(at, at + lowercase(term).len())
                            == lowercase(term);
                    assert(occurs_at(lowercase(list[j].name@), lowercase(term), at));
                }
                assert(now[now.len() - 1] == list[j]);
            } else {
                assert(rest[j] == list[j]);
                let k = choose|k: int| 0 <= k < before.len() && before[k] == rest[j];
                assert(now[k] == before[k]);
            }
        }
    }
}

/// `r` is the library artist for `a`.
pub open spec fn converted_artist(a: SubsonicArtist, r: Artist) -> bool {
    &&& r.id@ == a.id@
    &&& r.name@ == a.name@
    &&& r.user_data.is_favorite == (a.starred is Some)
    &&& r.run_time_ticks == 0
    &&& r.date_created@.len() == 0
}

/// The artists of the response's index whose names match `term`.
pub open spec fn listed_artists(root: SubsonicResponseRoot, term: Seq<char>) -> Seq<SubsonicArtist> {
    match root.response.indexes {
        Some(i) => matching_artists(index_artists(i.index@), term),
        None => Seq::empty(),
    }
}

/// The artists of an index response whose names match `search_term`
/// (all of them for an empty term), in order.
pub fn artists_from(root: &SubsonicResponseRoot, search_term: &str) -> (res: Vec<Artist>)
    ensures
        res@.len() == listed_artists(*root, search_term@).len(),
        forall|i: int|
            0 <= i < res@.len() ==> converted_artist(
                listed_artists(*root, search_term@)[i],
                #[trigger] res@[i],
            ),
{
    let mut res: Vec<Artist> = Vec::new();
    let term_lower_string = to_lowercase(search_term);
    let term_lower = chars_of(term_lower_string.as_str());
    if let Some(indexes) = &root.response.indexes {
        let idx = &indexes.index;
        let mut i: usize = 0;
        while i < idx.len()
            invariant
                i <= idx@.len(),
                term_lower@ == lowercase(search_term@),
                res@.len() == matching_artists(index_artists(idx@.take(i as int)), search_term@).len(),
                forall|k: int|
                    0 <= k < res@.len() ==> converted_artist(
                        matching_artists(index_artists(idx@.take(i as int)), search_term@)[k],
                        #[trigger] res@[k],
                    ),
            decreases idx.len() - i,
        {
            let ghost before = index_artists(idx@.take(i as int));
            let artists = &idx[i].artist;
            proof {
                assert(before + artists@.take(0) =~= before);
            }
            let mut j: usize = 0;
            while j < artists.len()
                invariant
                    j <= artists@.len(),
                    term_lower@ == lowercase(search_term@),
                    res@.len() == matching_artists(before + artists@.take(j as int), search_term@).len(),
                    forall|k: int|
                        0 <= k < res@.len() ==> converted_artist(
                            matching_artists(before + artists@.take(j as int), search_term@)[k],
                            #[trigger] res@[k],
                        ),
                decreases artists.len() - j,
            {
                let a = &artists[j];
                proof {
                    assert((before + artists@.take(j + 1)).drop_last() =~= before + artists@.take(
                        j as int,
                    ));
                    assert((before + artists@.take(j + 1)).last() == artists@[j as int]);
                }
                if matches_term(&a.name, search_term, &term_lower) {
                    res.push(
                        Artist {
                            name: a.name.clone(),
                            id: a.id.clone(),
                            run_time_ticks: 0,
                            user_data: UserData { is_favorite: a.starred.is_some() },
                            date_created: String::new(),
                        },
                    );
                }
                j = j + 1;
            }
            proof {
                assert(artists@.take(artists@.len() as int) =~= artists@);
                assert(idx@.take(i + 1).drop_last() =~= idx@.take(i as int));
                assert(idx@.take(i + 1).last() == idx@[i as int]);
            }
            i = i + 1;
        }
        proof {
            assert(idx@.take(idx@.len() as int) =~= idx@);
        }
    }
    res
}


/// The songs of an optional song list; none when the list is absent.
pub open spec fn opt_songs(list: Option<Vec<SubsonicSong>>) -> Seq<SubsonicSong> {
    match list {
        Some(l) => l@,
        None => Seq::empty(),
    }
}

/// Converts an optional song list.
fn opt_songs_from(list: &Option<Vec<SubsonicSong>>) -> (res: Vec<DiscographySong>)
    requires
        songs_fit(opt_songs(*list)),
    ensures
        res@.len() == opt_songs(*list).len(),
        forall|i: int| 0 <= i < res@.len() ==> converted_song(opt_songs(*list)[i], #[trigger] res@[i]),
{
    match list {
        Some(l) => songs_from(l),
        None => Vec::new(),
    }
}

/// The songs of the album in an album response.
pub open spec fn album_songs(root: SubsonicResponseRoot) -> Seq<SubsonicSong> {
    match root.response.album {
        Some(a) => opt_songs(a.song),
        None => Seq::empty(),
    }
}

/// The tracks of the album in an album response, in order.
pub fn album_tracks_from(root: &SubsonicResponseRoot) -> (res: Vec<DiscographySong>)
    requires
        songs_fit(album_songs(*root)),
    ensures
        res@.len() == album_songs(*root).len(),
        forall|i: int| 0 <= i < res@.len() ==> converted_song(album_songs(*root)[i], #[trigger] res@[i]),
{
    match &root.response.album {
        Some(a) => opt_songs_from(&a.song),
        None => Vec::new(),
    }
}

/// The ids of the albums in an artist response, in order; a discography
/// is the concatenation of the tracks of these albums.
pub fn artist_album_ids(root: &SubsonicResponseRoot) -> (res: Vec<String>)
    ensures
        match root.response.artist {
            Some(a) => res@.len() == a.album@.len() && forall|i: int|
                0 <= i < res@.len() ==> #[trigger] res@[i]@ == a.album@[i].id@,
            None => res@.len() == 0,
        },
{
    let mut res: Vec<String> = Vec::new();
    if let Some(artist) = &root.response.artist {
        let albums = &artist.album;
        let mut i: usize = 0;
        while i < albums.len()
            invariant
                i <= albums@.len(),
                res@.len() == i,
                forall|j: int| 0 <= j < i ==> #[trigger] res@[j]@ == albums@[j].id@,
            decreases albums.len() - i,
        {
            res.push(albums[i].id.clone());
            i = i + 1;
        }
    }
    res
}

/// The songs found by a search.
pub open spec fn search_songs(root: SubsonicResponseRoot) -> Seq<SubsonicSong> {
    match root.response.search_result3 {
        Some(r) => opt_songs(r.song),
        None => Seq::empty(),
    }
}

/// The songs of a search response, in order.
pub fn search_tracks_from(root: &SubsonicResponseRoot) -> (res: Vec<DiscographySong>)
    requires
        songs_fit(search_songs(*root)),
    ensures
        res@.len() == search_songs(*root).len(),
        forall|i: int| 0 <= i < res@.len() ==> converted_song(search_songs(*root)[i], #[trigger] res@[i]),
{
    match &root.response.search_result3 {
        Some(r) => opt_songs_from(&r.song),
        None => Vec::new(),
    }
}

/// The songs of a random-songs response.
pub open spec fn random_songs(root: SubsonicResponseRoot) -> Seq<SubsonicSong> {
    match root.response.random_songs {
        Some(r) => opt_songs(r.song),
        None => Seq::empty(),
    }
}

/// The songs of `list` that are kept: all of them, or only the starred ones.
pub open spec fn kept_songs(list: Seq<SubsonicSong>, only_favorite: bool) -> Seq<SubsonicSong>
    decreases list.len(),
{
    if list.len() == 0 {
        Seq::empty()
    } else if only_favorite && list.last().starred is None {
        kept_songs(list.drop_last(), only_favorite)
    } else {
        kept_songs(list.drop_last(), only_favorite).push(list.last())
    }
}

/// A song that `kept_songs` keeps fits whenever every kept song fits.
proof fn lemma_kept_song_fits(list: Seq<SubsonicSong>, only_favorite: bool, i: int)
    requires
        songs_fit(kept_songs(list, only_favorite)),
        0 <= i < list.len(),
        !(only_favorite && list[i].starred is None),
    ensures
        song_fits(list[i]),
    decreases list.len(),
{
    let prefix = kept_songs(list.drop_last(), only_favorite);
    let whole = kept_songs(list, only_favorite);
    if i == list.len() - 1 {
        assert(whole == prefix.push(list.last()));
        assert(whole[prefix.len() as int] == list[i]);
    } else {
        assert forall|k: int| 0 <= k < prefix.len() implies song_fits(#[trigger] prefix[k]) by {
            assert(whole[k] == prefix[k]);
        }
        lemma_kept_song_fits(list.drop_last(), only_favorite, i);
        assert(list.drop_last()[i] == list[i]);
    }
}

/// The songs of a random-songs response, only the starred ones when
/// `only_favorite` holds, in order.
pub fn random_tracks_from(root: &SubsonicResponseRoot, only_favorite: bool) -> (res: Vec<
    DiscographySong,
>)
    requires
        songs_fit(kept_songs(random_songs(*root), only_favorite)),
    ensures
        res@.len() == kept_songs(random_songs(*root), only_favorite).len(),
        forall|i: int|
            0 <= i < res@.len() ==> converted_song(
                kept_songs(random_songs(*root), only_favorite)[i],
                #[trigger] res@[i],
            ),
{
    let mut res: Vec<DiscographySong> = Vec::new();
    let ghost all = random_songs(*root);
    if let Some(rs) = &root.response.random_songs {
        if let Some(list) = &rs.song {
            let mut i: usize = 0;
            while i < list.len()
                invariant
                    i <= list@.len(),
                    all == list@,
                    songs_fit(kept_songs(all, only_favorite)),
                    res@.len() == kept_songs(list@.take(i as int), only_favorite).len(),
                    forall|k: int|
                        0 <= k < res@.len() ==> converted_song(
                            kept_songs(list@.take(i as int), only_favorite)[k],
                            #[trigger] res@[k],
                        ),
                decreases list.len() - i,
            {
                let s = &list[i];
                proof {
                    assert(list@.take(i + 1).drop_last() =~= list@.take(i as int));
                    assert(list@.take(i + 1).last() == list@[i as int]);
                }
                let mut keep = true;
                if only_favorite && s.starred.is_none() {
                    keep = false;
                }
                if keep {
                    proof {
                        lemma_kept_song_fits(all, only_favorite, i as int);
                    }
                    res.push(subsonic_song_to_discography_song(s));
                }
                i = i + 1;
            }
            proof {
                assert(list@.take(list@.len() as int) =~= list@);
            }
        }
    }
    res
}

/// How many songs an instant playlist asks for: 50 unless given.
pub fn instant_playlist_size(tracks_n: Option<usize>) -> (res: usize)
    ensures
        res == match tracks_n {
            Some(n) => n,
            None => 50,
        },
{
    match tracks_n {
        Some(n) => n,
        None => 50,
    }
}

/// The lines of the blocks of `blocks` that are (or are not) synchronised, in order.
pub open spec fn block_lines(blocks: Seq<SubsonicStructuredLyric>, synced: bool) -> Seq<SubsonicLyricLine>
    decreases blocks.len(),
{
    if blocks.len() == 0 {
        Seq::empty()
    } else if blocks.last().synced == synced {
        block_lines(blocks.drop_last(), synced) + blocks.last().line@
    } else {
        block_lines(blocks.drop_last(), synced)
    }
}

/// The structured lyric blocks of a lyrics response.
pub open spec fn lyric_blocks(root: SubsonicResponseRoot) -> Seq<SubsonicStructuredLyric> {
    match root.response.lyrics_list {
        Some(l) => match l.structured_lyrics {
            Some(b) => b@,
            None => Seq::empty(),
        },
        None => Seq::empty(),
    }
}

/// Start times of synchronised lines, in milliseconds, fit in ticks.
pub open spec fn lyrics_fit(root: SubsonicResponseRoot) -> bool {
    forall|i: int|
        0 <= i < block_lines(lyric_blocks(root), true).len() ==> #[trigger] block_lines(
            lyric_blocks(root),
            true,
        )[i].start * 10_000 <= u64::MAX
}

/// The lines shown: the synchronised ones when there are any, else the others.
pub open spec fn shown_lines(root: SubsonicResponseRoot) -> Seq<SubsonicLyricLine> {
    if block_lines(lyric_blocks(root), true).len() > 0 {
        block_lines(lyric_blocks(root), true)
    } else {
        block_lines(lyric_blocks(root), false)
    }
}

/// Appends the lines of the blocks that are (or are not) synchronised.
fn push_block_lines(
    out: &mut Vec<Lyric>,
    blocks: &Vec<SubsonicStructuredLyric>,
    synced: bool,
)
    requires
        synced ==> forall|i: int|
            0 <= i < block_lines(blocks@, true).len() ==> #[trigger] block_lines(blocks@, true)[i].start
                * 10_000 <= u64::MAX,
    ensures
        final(out)@.len() == old(out)@.len() + block_lines(blocks@, synced).len(),
        forall|k: int| 0 <= k < old(out)@.len() ==> #[trigger] final(out)@[k] == old(out)@[k],
        forall|k: int|
            0 <= k < block_lines(blocks@, synced).len() ==> {
                let line = block_lines(blocks@, synced)[k];
                let l = #[trigger] final(out)@[old(out)@.len() + k];
                &&& l.text@ == line.value@
                &&& l.start == (if synced {
                    line.start * 10_000
                } else {
                    0
                })
            },
{
    let ghost base = old(out)@;
    let mut i: usize = 0;
    while i < blocks.len()
        invariant
            i <= blocks@.len(),
            synced ==> forall|m: int|
                0 <= m < block_lines(blocks@, true).len() ==> #[trigger] block_lines(blocks@, true)[m].start
                    * 10_000 <= u64::MAX,
            out@.len() == base.len() + block_lines(blocks@.take(i as int), synced).len(),
            forall|k: int| 0 <= k < base.len() ==> #[trigger] out@[k] == base[k],
            forall|k: int|
                0 <= k < block_lines(blocks@.take(i as int), synced).len() ==> {
                    let line = block_lines(blocks@.take(i as int), synced)[k];
                    let l = #[trigger] out@[base.len() + k];
                    &&& l.text@ == line.value@
                    &&& l.start == (if synced {
                        line.start * 10_000
                    } else {
                        0
                    })
                },
        decreases blocks.len() - i,
    {
        let ghost prefix = block_lines(blocks@.take(i as int), synced);
        proof {
            assert(blocks@.take(i + 1).drop_last() =~= blocks@.take(i as int));
            assert(blocks@.take(i + 1).last() == blocks@[i as int]);
            lemma_block_lines_prefix(blocks@, i + 1, true);
        }
        let block = &blocks[i];
        if block.synced == synced {
            let lines = &block.line;
            let mut j: usize = 0;
            while j < lines.len()
                invariant
                    j <= lines@.len(),
                    synced ==> block.synced,
                    synced ==> forall|m: int|
                        0 <= m < (prefix + lines@).len() && prefix.len() <= m ==> #[trigger] (prefix
                            + lines@)[m].start * 10_000 <= u64::MAX,
                    out@.len() == base.len() + prefix.len() + j,
                    forall|k: int| 0 <= k < base.len() ==> #[trigger] out@[k] == base[k],
                    forall|k: int|
                        0 <= k < prefix.len() + j ==> {
                            let line = (prefix + lines@)[k];
                            let l = #[trigger] out@[base.len() + k];
                            &&& l.text@ == line.value@
                            &&& l.start == (if synced {
                                line.start * 10_000
                            } else {
                                0
                            })
                        },
                decreases lines.len() - j,
            {
                let line = &lines[j];
                let start = if synced {
                    proof {
                        assert((prefix + lines@)[prefix.len() + j] == lines@[j as int]);
                    }
                    line.start * 10_000
                } else {
                    0
                };
                out.push(Lyric { text: line.value.clone(), start });
                proof {
                    assert((prefix + lines@)[prefix.len() + j] == lines@[j as int]);
                }
                j = j + 1;
            }
        }
        i = i + 1;
    }
    proof {
        assert(blocks@.take(blocks@.len() as int) =~= blocks@);
    }
}

/// The synchronised lines of a prefix of the blocks are a prefix of all synchronised lines.
proof fn lemma_block_lines_prefix(blocks: Seq<SubsonicStructuredLyric>, n: int, synced: bool)
    requires
        0 <= n <= blocks.len(),
    ensures
        block_lines(blocks.take(n), synced).len() <= block_lines(blocks, synced).len(),
        forall|k: int|
            0 <= k < block_lines(blocks.take(n), synced).len() ==> #[trigger] block_lines(
                blocks.take(n),
                synced,
            )[k] == block_lines(blocks, synced)[k],
    decreases blocks.len(),
{
    if n < blocks.len() {
        lemma_block_lines_prefix(blocks.drop_last(), n, synced);
        assert(blocks.drop_last().take(n) =~= blocks.take(n));
    } else {
        assert(blocks.take(n) =~= blocks);
    }
}

/// The lyrics of a lyrics response: the lines of the synchronised blocks with
/// their start times in ticks, or, when there are none, the lines of the
/// other blocks starting at zero.
pub fn lyrics_from(root: &SubsonicResponseRoot) -> (res: Vec<Lyric>)
    requires
        lyrics_fit(*root),
    ensures
        res@.len() == shown_lines(*root).len(),
        forall|i: int|
            0 <= i < res@.len() ==> {
                let line = shown_lines(*root)[i];
                &&& (#[trigger] res@[i]).text@ == line.value@
                &&& res@[i].start == (if block_lines(lyric_blocks(*root), true).len() > 0 {
                    line.start * 10_000
                } else {
                    0
                })
            },
{
    let mut lyrics: Vec<Lyric> = Vec::new();
    if let Some(list) = &root.response.lyrics_list {
        if let Some(structured) = &list.structured_lyrics {
            push_block_lines(&mut lyrics, structured, true);
            if lyrics.len() == 0 {
                push_block_lines(&mut lyrics, structured, false);
                proof {
                    assert forall|i: int| 0 <= i < lyrics@.len() implies (#[trigger] lyrics@[i]).text@
                        == block_lines(structured@, false)[i].value@ && lyrics@[i].start == 0 by {
                        assert(lyrics@[0 + i] == lyrics@[i]);
                    }
                }
            } else {
                proof {
                    assert forall|i: int| 0 <= i < lyrics@.len() implies (#[trigger] lyrics@[i]).text@
                        == block_lines(structured@, true)[i].value@ && lyrics@[i].start
                        == block_lines(structured@, true)[i].start * 10_000 by {
                        assert(lyrics@[0 + i] == lyrics@[i]);
                    }
                }
            }
        }
    }
    lyrics
}


/// The playlists of `list` whose names match `term`, in order.
pub open spec fn matching_playlists(list: Seq<SubsonicPlaylistEntry>, term: Seq<char>) -> Seq<
    SubsonicPlaylistEntry,
>
    decreases list.len(),
{
    if list.len() == 0 {
        Seq::empty()
    } else if name_matches(list.last().name@, term) {
        matching_playlists(list.drop_last(), term).push(list.last())
    } else {
        matching_playlists(list.drop_last(), term)
    }
}

/// The playlists listed for `term` are exactly the playlists of `list` whose
/// lower-cased name holds the whole lower-cased term (every playlist when the
/// term is empty): each listed playlist is in `list` and holds the term, and
/// each playlist of `list` that holds the term is listed.
pub proof fn law_playlist_search_is_substring_filter(list: Seq<SubsonicPlaylistEntry>, term: Seq<char>)
    ensures
        forall|i: int|
            0 <= i < matching_playlists(list, term).len() ==> {
                let a = #[trigger] matching_playlists(list, term)[i];
                &&& list.contains(a)
                &&& term.len() == 0 || exists|at: int|
                    0 <= at && at + lowercase(term).len() <= lowercase(a.name@).len()
                        && #[trigger] lowercase(a.name@).subrange(at, at + lowercase(term).len())
                        == lowercase(term)
            },
        forall|j: int|
            0 <= j < list.len() && (term.len() == 0 || exists|at: int|
                0 <= at && at + lowercase(term).len() <= lowercase(list[j].name@).len()
                    && #[trigger] lowercase(list[j].name@).subrange(at, at + lowercase(term).len())
                    == lowercase(term)) ==> matching_playlists(list, term).contains(#[trigger] list[j]),
    decreases list.len(),
{
    if list.len() > 0 {
        let rest = list.drop_last();
        law_playlist_search_is_substring_filter(rest, term);
        let before = matching_playlists(rest, term);
        let now = matching_playlists(list, term);
        assert forall|i: int| 0 <= i < now.len() implies list.contains(#[trigger] now[i]) && (term.len()
            == 0 || exists|at: int|
            0 <= at && at + lowercase(term).len() <= lowercase(now[i].name@).len()
                && #[trigger] lowercase(now[i].name@).subrange(at, at + lowercase(term).len())
                == lowercase(term)) by {
            if i < before.len() {
                assert(now[i] == before[i]);
                let k = choose|k: int| 0 <= k < rest.len() && rest[k] == before[i];
                assert(list[k] == rest[k]);
            } else {
                assert(now[i] == list.last());
                assert(list[list.len() - 1] == list.last());
            }
        }
        assert forall|j: int|
            0 <= j < list.len() && (term.len() == 0 || exists|at: int|
                0 <= at && at + lowercase(term).len() <= lowercase(list[j].name@).len()
                    && #[trigger] lowercase(list[j].name@).subrange(at, at + lowercase(term).len())
                    == lowercase(term)) implies now.contains(#[trigger] list[j]) by {
            if j == list.len() - 1 {
                if term.len() > 0 {
                    let at = choose|at: int|
                        0 <= at && at + lowercase(term).len() <= lowercase(list[j].name@).len()
                            && #[trigger] lowercase(list[j].name@).subrange(at, at + lowercase(term).len())
                            == lowercase(term);
                    assert(occurs_at(lowercase(list[j].name@), lowercase(term), at));
                }
                assert(now[now.len() - 1] == list[j]);
            } else {
                assert(rest[j] == list[j]);
                let k = choose|k: int| 0 <= k < before.len() && before[k] == rest[j];
                assert(now[k] == before[k]);
            }
        }
    }
}

/// The playlists of a playlists response whose names match `term`.
pub open spec fn listed_playlists(root: SubsonicResponseRoot, term: Seq<char>) -> Seq<
    SubsonicPlaylistEntry,
> {
    match root.response.playlists {
        Some(p) => matching_playlists(p.playlist@, term),
        None => Seq::empty(),
    }
}

/// The run times of the listed playlists, in seconds, fit in ticks.
pub open spec fn playlists_fit(root: SubsonicResponseRoot, term: Seq<char>) -> bool {
    forall|i: int|
        0 <= i < listed_playlists(root, term).len() ==> #[trigger] listed_playlists(root, term)[i].duration
            * 10_000_000 <= u64::MAX
}

/// `r` is the library playlist for `p`.
pub open spec fn converted_playlist(p: SubsonicPlaylistEntry, r: Playlist) -> bool {
    &&& r.id@ == p.id@
    &&& r.name@ == p.name@
    &&& r.date_created@ == p.date_created@
    &&& r.run_time_ticks == p.duration * 10_000_000
    &&& r.server_id@.len() == 0
    &&& !r.user_data.is_favorite
    &&& r.child_count == 0
    &&& r.parent_id@.len() == 0
}

proof fn lemma_matching_playlists_prefix(list: Seq<SubsonicPlaylistEntry>, n: int, term: Seq<char>)
    requires
        0 <= n <= list.len(),
    ensures
        matching_playlists(list.take(n), term).len() <= matching_playlists(list, term).len(),
        forall|k: int|
            0 <= k < matching_playlists(list.take(n), term).len() ==> #[trigger] matching_playlists(
                list.take(n),
                term,
            )[k] == matching_playlists(list, term)[k],
    decreases list.len(),
{
    if n < list.len() {
        lemma_matching_playlists_prefix(list.drop_last(), n, term);
        assert(list.drop_last().take(n) =~= list.take(n));
    } else {
        assert(list.take(n) =~= list);
    }
}

/// The playlists of a playlists response whose names match `search_term`
/// (all of them for an empty term), in order.
pub fn playlists_from(root: &SubsonicResponseRoot, search_term: &str) -> (res: Vec<Playlist>)
    requires
        playlists_fit(*root, search_term@),
    ensures
        res@.len() == listed_playlists(*root, search_term@).len(),
        forall|i: int|
            0 <= i < res@.len() ==> converted_playlist(
                listed_playlists(*root, search_term@)[i],
                #[trigger] res@[i],
            ),
{
    let mut res: Vec<Playlist> = Vec::new();
    let term_lower_string = to_lowercase(search_term);
    let term_lower = chars_of(term_lower_string.as_str());
    if let Some(pl) = &root.response.playlists {
        let list = &pl.playlist;
        let ghost all = matching_playlists(list@, search_term@);
        let mut i: usize = 0;
        while i < list.len()
            invariant
                i <= list@.len(),
                all == matching_playlists(list@, search_term@),
                forall|m: int| 0 <= m < all.len() ==> #[trigger] all[m].duration * 10_000_000 <= u64::MAX,
                term_lower@ == lowercase(search_term@),
                res@.len() == matching_playlists(list@.take(i as int), search_term@).len(),
                forall|k: int|
                    0 <= k < res@.len() ==> converted_playlist(
                        matching_playlists(list@.take(i as int), search_term@)[k],
                        #[trigger] res@[k],
                    ),
            decreases list.len() - i,
        {
            let p = &list[i];
            proof {
                assert(list@.take(i + 1).drop_last() =~= list@.take(i as int));
                assert(list@.take(i + 1).last() == list@[i as int]);
                lemma_matching_playlists_prefix(list@, i + 1, search_term@);
            }
            if matches_term(&p.name, search_term, &term_lower) {
                proof {
                    let before = matching_playlists(list@.take(i as int), search_term@);
                    assert(matching_playlists(list@.take(i + 1), search_term@)[before.len() as int]
                        == p);
                    assert(all[before.len() as int] == p);
                }
                res.push(
                    Playlist {
                        name: p.name.clone(),
                        server_id: String::new(),
                        id: p.id.clone(),
                        date_created: p.date_created.clone(),
                        run_time_ticks: p.duration * 10_000_000,
                        user_data: UserData { is_favorite: false },
                        child_count: 0,
                        parent_id: String::new(),
                    },
                );
            }
            i = i + 1;
        }
        proof {
            assert(list@.take(list@.len() as int) =~= list@);
        }
    }
    res
}

/// The songs of the playlist in a playlist response.
pub open spec fn playlist_songs(root: SubsonicResponseRoot) -> Seq<SubsonicSong> {
    match root.response.playlist {
        Some(p) => p.entry@,
        None => Seq::empty(),
    }
}

/// The songs of a playlist response and the playlist's song count
/// (no songs and a count of zero without a playlist).
pub fn playlist_from(root: &SubsonicResponseRoot) -> (res: PlaylistResult)
    requires
        songs_fit(playlist_songs(*root)),
    ensures
        res.items@.len() == playlist_songs(*root).len(),
        forall|i: int|
            0 <= i < res.items@.len() ==> converted_song(playlist_songs(*root)[i], #[trigger] res.items@[i]),
        res.total_record_count == match root.response.playlist {
            Some(p) => p.song_count,
            None => 0,
        },
{
    match &root.response.playlist {
        Some(pl) => PlaylistResult { items: songs_from(&pl.entry), total_record_count: pl.song_count },
        None => PlaylistResult { items: Vec::new(), total_record_count: 0 },
    }
}

/// The id of a newly created playlist: the playlist of the response, or
/// empty when the request failed or the response names no playlist.
pub fn created_playlist_id(root: Option<&SubsonicResponseRoot>) -> (res: String)
    ensures
        res@ == match root {
            Some(r) => match r.response.playlist {
                Some(p) => p.id@,
                None => Seq::empty(),
            },
            None => Seq::empty(),
        },
{
    match root {
        Some(r) => match &r.response.playlist {
            Some(pl) => pl.id.clone(),
            None => String::new(),
        },
        None => String::new(),
    }
}

/// `r` is the library album for `a`.
pub open spec fn converted_album(a: SubsonicAlbum, r: Album) -> bool {
    &&& r.id@ == a.id@
    &&& r.name@ == a.name@
    &&& r.album_artists@.len() == 1
    &&& r.album_artists@[0].id@ == opt_text(a.artist_id)
    &&& r.album_artists@[0].name@ == opt_text(a.artist)
    &&& r.album_artists@[0].run_time_ticks == 0
    &&& !r.album_artists@[0].user_data.is_favorite
    &&& r.album_artists@[0].date_created@.len() == 0
    &&& r.date_created@ == opt_text(a.created)
    &&& !r.user_data.is_favorite
    &&& r.parent_id@.len() == 0
    &&& r.run_time_ticks == 0
    &&& r.premiere_date@.len() == 0
}

/// The library album for an album of a Subsonic response.
pub fn album_from(a: &SubsonicAlbum) -> (res: Album)
    ensures
        converted_album(*a, res),
{
    let mut album_artists: Vec<Artist> = Vec::new();
    album_artists.push(
        Artist {
            name: text_or_empty(&a.artist),
            id: text_or_empty(&a.artist_id),
            run_time_ticks: 0,
            user_data: UserData { is_favorite: false },
            date_created: String::new(),
        },
    );
    Album {
        name: a.name.clone(),
        id: a.id.clone(),
        album_artists,
        user_data: UserData { is_favorite: false },
        date_created: text_or_empty(&a.created),
        parent_id: String::new(),
        run_time_ticks: 0,
        premiere_date: String::new(),
    }
}

/// How many albums one page of the album list asks for.
pub const ALBUM_PAGE_SIZE: usize = 500;

/// Walks the album list page by page until a page comes back short.
pub struct AlbumPager {
    offset: usize,
    albums: Vec<Album>,
    finished: bool,
}

impl AlbumPager {
    #[verifier::type_invariant]
    spec fn offset_within(self) -> bool {
        self.offset <= self.albums@.len()
    }

    /// Where the next page starts.
    pub closed spec fn next_offset(self) -> nat {
        self.offset as nat
    }

    /// The albums gathered so far.
    pub closed spec fn gathered(self) -> Seq<Album> {
        self.albums@
    }

    /// No page is left to fetch.
    pub closed spec fn is_finished(self) -> bool {
        self.finished
    }

    /// A walk that starts at the first album.
    pub fn new() -> (res: Self)
        ensures
            res.next_offset() == 0,
            res.gathered().len() == 0,
            !res.is_finished(),
    {
        AlbumPager { offset: 0, albums: Vec::new(), finished: false }
    }

    /// Where the next page starts.
    pub fn offset(&self) -> (res: usize)
        ensures
            res == self.next_offset(),
    {
        self.offset
    }

    /// Takes in the next page, `None` when it could not be fetched. Returns
    /// whether another page is to be fetched: only after a full page.
    pub fn absorb(&mut self, page: Option<&SubsonicResponseRoot>) -> (more: bool)
        ensures
            more == !final(self).is_finished(),
            match page {
                None => final(self).is_finished() && final(self).gathered() == old(self).gathered()
                    && final(self).next_offset() == old(self).next_offset(),
                Some(root) => {
                    let list = match root.response.album_list2 {
                        Some(l) => l.album@,
                        None => Seq::<SubsonicAlbum>::empty(),
                    };
                    &&& final(self).gathered().len() == old(self).gathered().len() + list.len()
                    &&& forall|k: int|
                        0 <= k < old(self).gathered().len() ==> #[trigger] final(self).gathered()[k]
                            == old(self).gathered()[k]
                    &&& forall|k: int|
                        0 <= k < list.len() ==> converted_album(
                            list[k],
                            #[trigger] final(self).gathered()[old(self).gathered().len() + k],
                        )
                    &&& final(self).is_finished() == (list.len() < 500)
                    &&& final(self).next_offset() == (if list.len() < 500 {
                        old(self).next_offset()
                    } else {
                        old(self).next_offset() + 500
                    })
                },
            },
    {
        proof {
            use_type_invariant(&*self);
        }
        match page {
            None => {
                self.finished = true;
                false
            },
            Some(root) => {
                let mut current = AlbumPager::new();
                std::mem::swap(&mut current, self);
                proof {
                    use_type_invariant(&current);
                }
                let AlbumPager { offset, mut albums, finished: _ } = current;
                let ghost base = albums@;
                let mut count: usize = 0;
                if let Some(list) = &root.response.album_list2 {
                    let src = &list.album;
                    let mut i: usize = 0;
                    while i < src.len()
                        invariant
                            i <= src@.len(),
                            count == i,
                            albums@.len() == base.len() + i,
                            forall|k: int| 0 <= k < base.len() ==> #[trigger] albums@[k] == base[k],
                            forall|k: int|
                                0 <= k < i ==> converted_album(src@[k], #[trigger] albums@[base.len() + k]),
                        decreases src.len() - i,
                    {
                        albums.push(album_from(&src[i]));
                        count = count + 1;
                        i = i + 1;
                    }
                }
                let more = count >= ALBUM_PAGE_SIZE;
                let total = albums.len();
                assert(total == base.len() + count);
                let next = if more {
                    offset + ALBUM_PAGE_SIZE
                } else {
                    offset
                };
                *self = AlbumPager { offset: next, albums, finished: !more };
                more
            },
        }
    }

    /// The albums gathered by the walk.
    pub fn into_albums(self) -> (res: Vec<Album>)
        ensures
            res@ == self.gathered(),
    {
        self.albums
    }
}


} // verus!
