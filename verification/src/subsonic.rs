//! The decoded body of a Subsonic API response. Each field is present when
//! the server sent it; the JSON decoding itself happens outside the library.
use vstd::prelude::*;

verus! {

/// The whole response body.
#[derive(Debug, Clone)]
pub struct SubsonicResponseRoot {
    pub response: SubsonicResponseData,
}

/// The `subsonic-response` object.
#[derive(Debug, Clone)]
pub struct SubsonicResponseData {
    pub status: String,
    pub error: Option<SubsonicError>,
    pub music_folders: Option<MusicFolders>,
    pub indexes: Option<Indexes>,
    pub album_list2: Option<AlbumList2>,
    pub album: Option<SubsonicAlbum>,
    pub artist: Option<SubsonicArtistDetails>,
    pub search_result3: Option<SearchResult3>,
    pub random_songs: Option<RandomSongs>,
    pub playlists: Option<SubsonicPlaylists>,
    pub playlist: Option<SubsonicPlaylistWithSongs>,
    pub lyrics_list: Option<SubsonicLyricsList>,
}

#[derive(Debug, Clone)]
pub struct SubsonicError {
    pub message: String,
}

#[derive(Debug, Clone)]
pub struct MusicFolders {
    pub music_folder: Vec<SubsonicFolder>,
}

#[derive(Debug, Clone)]
pub struct SubsonicFolder {
    pub id: i64,
    pub name: Option<String>,
}

#[derive(Debug, Clone)]
pub struct Indexes {
    pub index: Vec<SubsonicIndex>,
}

#[derive(Debug, Clone)]
pub struct SubsonicIndex {
    pub artist: Vec<SubsonicArtist>,
}

#[derive(Debug, Clone)]
pub struct SubsonicArtist {
    pub id: String,
    pub name: String,
    pub starred: Option<String>,
}

#[derive(Debug, Clone)]
pub struct AlbumList2 {
    pub album: Vec<SubsonicAlbum>,
}

#[derive(Debug, Clone)]
pub struct SubsonicAlbum {
    pub id: String,
    pub name: String,
    pub artist: Option<String>,
    pub artist_id: Option<String>,
    pub created: Option<String>,
    pub year: Option<u64>,
    pub song: Option<Vec<SubsonicSong>>,
}

#[derive(Debug, Clone)]
pub struct SubsonicArtistDetails {
    pub id: String,
    pub name: String,
    pub album: Vec<SubsonicAlbum>,
}

#[derive(Debug, Clone)]
pub struct SubsonicSong {
    pub id: String,
    pub title: String,
    pub album: Option<String>,
    pub artist: Option<String>,
    pub album_id: Option<String>,
    pub duration: Option<u64>,
    pub track: Option<u64>,
    pub genre: Option<String>,
    pub created: Option<String>,
    pub starred: Option<String>,
}

#[derive(Debug, Clone)]
pub struct SubsonicLyricsList {
    pub structured_lyrics: Option<Vec<SubsonicStructuredLyric>>,
}

#[derive(Debug, Clone)]
pub struct SubsonicStructuredLyric {
    pub line: Vec<SubsonicLyricLine>,
    pub synced: bool,
}

#[derive(Debug, Clone)]
pub struct SubsonicLyricLine {
    pub start: u64,
    pub value: String,
}

#[derive(Debug, Clone)]
pub struct SearchResult3 {
    pub song: Option<Vec<SubsonicSong>>,
}

#[derive(Debug, Clone)]
pub struct RandomSongs {
    pub song: Option<Vec<SubsonicSong>>,
}

#[derive(Debug, Clone)]
pub struct SubsonicPlaylists {
    pub playlist: Vec<SubsonicPlaylistEntry>,
}

#[derive(Debug, Clone)]
pub struct SubsonicPlaylistEntry {
    pub id: String,
    pub name: String,
    pub song_count: u64,
    pub duration: u64,
    pub date_created: String,
    pub public: Option<bool>,
}

#[derive(Debug, Clone)]
pub struct SubsonicPlaylistWithSongs {
    pub id: String,
    pub name: String,
    pub entry: Vec<SubsonicSong>,
    pub song_count: u64,
    pub duration: u64,
    pub date_created: String,
}

} // verus!
