//! The Subsonic session and the library's data model.
//!
//! `Client` holds what a logged-in session needs to address the server:
//! its base URL and the credentials of the Subsonic token scheme. The HTTP
//! transport lives outside the library, which builds every request URL and
//! turns every decoded response into the library's types.
use vstd::prelude::*;
use vstd::utf8::encode_utf8;
use crate::config::AuthEntry;
use crate::responses::ALBUM_PAGE_SIZE;
use crate::text::{
    decimal, hex_lower, hex_string, lemma_hex_lower_len, lemma_replaced_excludes, push_decimal,
    replace_all, replace_str,
};

verus! {

/// What every Subsonic request carries after the credentials.
pub open spec fn client_suffix() -> Seq<char> {
    "&v=1.16.1&c=navidrome-tui&f=json"@
}

/// The characters a random identifier is drawn from.
pub open spec fn random_charset() -> Seq<char> {
    "abcdefghijklmnopqrstuvwxyzABCDEFGHIJKLMNOPQRSTUVWXYZ0123456789"@
}

/// A logged-in session with a Subsonic server.
#[derive(Debug, Clone)]
pub struct Client {
    pub base_url: String,
    pub server_id: String,
    pub user_id: String,
    pub user_name: String,
    pub token: String,
    pub salt: String,
    pub device_id: String,
}

/// How the user authenticates with a server.
#[derive(Debug, Clone)]
pub enum AuthMethod {
    UserPass { username: String, password: String },
}

/// The server chosen from the configuration.
#[derive(Debug, Clone)]
pub struct SelectedServer {
    pub url: String,
    pub auth: AuthMethod,
}

/// Transcoding preferences for streamed songs.
#[derive(Debug)]
pub struct Transcoding {
    pub enabled: bool,
    pub bitrate: u32,
    pub container: String,
}

/// How fast the server answered a ping.
#[derive(Debug, Clone, Copy, PartialEq, Eq, Structural)]
pub enum NetworkQuality {
    Normal,
    Slow,
    CzechTrain,
}

/// The quality class of a round trip of `ms` milliseconds.
pub open spec fn quality_of(ms: int) -> NetworkQuality {
    if ms <= 300 {
        NetworkQuality::Normal
    } else if ms <= 1200 {
        NetworkQuality::Slow
    } else {
        NetworkQuality::CzechTrain
    }
}

/// The rank of a quality class: higher is slower.
pub open spec fn quality_rank(q: NetworkQuality) -> int {
    match q {
        NetworkQuality::Normal => 0,
        NetworkQuality::Slow => 1,
        NetworkQuality::CzechTrain => 2,
    }
}

/// A slower round trip never gets a better class than a faster one.
pub proof fn law_quality_monotonic(fast_ms: int, slow_ms: int)
    requires
        fast_ms <= slow_ms,
    ensures
        quality_rank(quality_of(fast_ms)) <= quality_rank(quality_of(slow_ms)),
{
}

impl NetworkQuality {
    /// Up to 300 ms is normal, up to 1200 ms slow, anything slower a Czech train.
    pub fn classify(ms: u128) -> (res: Self)
        ensures
            res == quality_of(ms as int),
    {
        if ms <= 300 {
            NetworkQuality::Normal
        } else if ms <= 1200 {
            NetworkQuality::Slow
        } else {
            NetworkQuality::CzechTrain
        }
    }
}

/// `random_string::generate`: a string of `length` characters, each one drawn
/// from the characters of `charset` (which must not be empty: the crate
/// panics on an empty charset). Which characters come out is left open.
#[verifier::external_body]
fn generate_random(length: usize, charset: &str) -> (res: String)
    requires
        charset@.len() > 0,
    ensures
        res@.len() == length,
        forall|i: int| 0 <= i < length ==> charset@.contains(#[trigger] res@[i]),
{
    random_string::generate(length, charset)
}

/// A fresh random identifier of ten ASCII letters and digits.
pub fn random_string() -> (res: String)
    ensures
        res@.len() == 10,
        forall|i: int| 0 <= i < 10 ==> random_charset().contains(#[trigger] res@[i]),
{
    let charset = "abcdefghijklmnopqrstuvwxyzABCDEFGHIJKLMNOPQRSTUVWXYZ0123456789";
    proof {
        reveal_strlit("abcdefghijklmnopqrstuvwxyzABCDEFGHIJKLMNOPQRSTUVWXYZ0123456789");
    }
    generate_random(10, charset)
}

/// The MD5 digest of `data`, as computed by the `md5` crate.
pub uninterp spec fn md5_of(data: Seq<u8>) -> Seq<u8>;

/// `md5::compute`: the sixteen bytes of the MD5 digest of `data`. The contract
/// only names the result (`md5_of`); the hash algorithm itself is not stated.
#[verifier::external_body]
fn md5_digest(data: &[u8]) -> (res: [u8; 16])
    ensures
        res@ == md5_of(data@),
{
    md5::compute(data).0
}

/// The Subsonic token for `password` and `salt`: the lower-case hex MD5 of
/// the UTF-8 bytes of the password followed by the salt.
pub open spec fn token_of(password: Seq<char>, salt: Seq<char>) -> Seq<char> {
    hex_lower(md5_of(encode_utf8(password + salt)))
}

/// Computes the Subsonic authentication token.
pub fn subsonic_token(password: &str, salt: &str) -> (res: String)
    ensures
        res@ == token_of(password@, salt@),
        res@.len() == 32,
{
    let mut text = password.to_owned();
    text.append(salt);
    let bytes = text.as_str().as_bytes();
    let digest = md5_digest(bytes);
    proof {
        lemma_hex_lower_len(digest@);
    }
    hex_string(digest.as_slice())
}

/// `u=<user>&t=<token>&s=<salt>` followed by the client suffix.
pub open spec fn auth_query_of(user: Seq<char>, token: Seq<char>, salt: Seq<char>) -> Seq<char> {
    "u="@ + user + "&t="@ + token + "&s="@ + salt + client_suffix()
}

/// Builds the credential query for `user`, `token` and `salt`.
fn credential_query(user: &str, token: &str, salt: &str) -> (res: String)
    ensures
        res@ == auth_query_of(user@, token@, salt@),
{
    let mut q = "u=".to_string();
    q.append(user);
    q.append("&t=");
    q.append(token);
    q.append("&s=");
    q.append(salt);
    q.append("&v=1.16.1&c=navidrome-tui&f=json");
    q
}

/// The ping URL used to log in: `<server>/rest/ping.view?<credentials>`.
pub open spec fn ping_url_of(
    server_url: Seq<char>,
    username: Seq<char>,
    token: Seq<char>,
    salt: Seq<char>,
) -> Seq<char> {
    server_url + "/rest/ping.view?"@ + auth_query_of(username, token, salt)
}

/// Builds the login ping URL.
pub fn ping_url(server_url: &str, username: &str, token: &str, salt: &str) -> (res: String)
    ensures
        res@ == ping_url_of(server_url@, username@, token@, salt@),
{
    let mut url = server_url.to_owned();
    url.append("/rest/ping.view?");
    let q = credential_query(username, token, salt);
    url.append(q.as_str());
    url
}


/// Songs of one album of an artist's discography.
#[derive(Debug, Clone)]
pub struct TempDiscographyAlbum {
    pub id: String,
    pub songs: Vec<DiscographySong>,
}

/// The songs of a playlist and how many it holds in all.
#[derive(Debug, Clone)]
pub struct PlaylistResult {
    pub items: Vec<DiscographySong>,
    pub total_record_count: u64,
}

/// Whether a song is kept offline.
#[derive(Debug, Clone, Copy, PartialEq, Eq, Structural)]
pub enum DownloadStatus {
    Downloaded,
    Queued,
    Downloading,
    NotDownloaded,
}

/// Something listed by id and name.
pub trait Searchable {
    fn id(&self) -> &str;
    fn name(&self) -> &str;
}

#[derive(Debug, Clone)]
pub struct UserData {
    pub is_favorite: bool,
}

impl Default for UserData {
    fn default() -> (res: Self)
        ensures
            !res.is_favorite,
    {
        UserData { is_favorite: false }
    }
}

#[derive(Debug, Clone)]
pub struct Artist {
    pub name: String,
    pub id: String,
    pub run_time_ticks: u64,
    pub user_data: UserData,
    pub date_created: String,
}

impl Default for Artist {
    fn default() -> (res: Self)
        ensures
            res.name@ == Seq::<char>::empty(),
            res.id@ == Seq::<char>::empty(),
            res.run_time_ticks == 0,
            !res.user_data.is_favorite,
            res.date_created@ == Seq::<char>::empty(),
    {
        Artist {
            name: String::new(),
            id: String::new(),
            run_time_ticks: 0,
            user_data: UserData { is_favorite: false },
            date_created: String::new(),
        }
    }
}

impl Searchable for Artist {
    fn id(&self) -> (res: &str)
        ensures
            res@ == self.id@,
    {
        self.id.as_str()
    }

    fn name(&self) -> (res: &str)
        ensures
            res@ == self.name@,
    {
        self.name.as_str()
    }
}

#[derive(Debug, Clone)]
pub struct DiscographySongUserData {
    pub play_count: u64,
    pub is_favorite: bool,
}

impl Default for DiscographySongUserData {
    fn default() -> (res: Self)
        ensures
            res.play_count == 0,
            !res.is_favorite,
    {
        DiscographySongUserData { play_count: 0, is_favorite: false }
    }
}

#[derive(Debug, Clone)]
pub struct DiscographySong {
    pub album: String,
    pub album_artist: String,
    pub album_artists: Vec<Artist>,
    pub album_id: String,
    pub artists: Vec<String>,
    pub date_created: String,
    pub genres: Vec<String>,
    pub has_lyrics: bool,
    pub id: String,
    pub name: String,
    pub playlist_item_id: String,
    pub index_number: u64,
    pub parent_id: String,
    pub parent_index_number: u64,
    pub premiere_date: String,
    pub production_year: u64,
    pub run_time_ticks: u64,
    pub server_id: String,
    pub user_data: DiscographySongUserData,
    pub download_status: DownloadStatus,
    pub disliked: bool,
}

/// A song with no data: empty texts and lists, zero counts, not downloaded.
pub open spec fn is_blank_song(d: DiscographySong) -> bool {
    &&& d.album@.len() == 0
    &&& d.album_artist@.len() == 0
    &&& d.album_artists@.len() == 0
    &&& d.album_id@.len() == 0
    &&& d.artists@.len() == 0
    &&& d.date_created@.len() == 0
    &&& d.genres@.len() == 0
    &&& !d.has_lyrics
    &&& d.id@.len() == 0
    &&& d.name@.len() == 0
    &&& d.playlist_item_id@.len() == 0
    &&& d.index_number == 0
    &&& d.parent_id@.len() == 0
    &&& d.parent_index_number == 0
    &&& d.premiere_date@.len() == 0
    &&& d.production_year == 0
    &&& d.run_time_ticks == 0
    &&& d.server_id@.len() == 0
    &&& d.user_data.play_count == 0
    &&& !d.user_data.is_favorite
    &&& d.download_status == DownloadStatus::NotDownloaded
    &&& !d.disliked
}

impl Default for DiscographySong {
    fn default() -> (res: Self)
        ensures
            is_blank_song(res),
    {
        DiscographySong {
            album: String::new(),
            album_artist: String::new(),
            album_artists: Vec::new(),
            album_id: String::new(),
            artists: Vec::new(),
            date_created: String::new(),
            genres: Vec::new(),
            has_lyrics: false,
            id: String::new(),
            name: String::new(),
            playlist_item_id: String::new(),
            index_number: 0,
            parent_id: String::new(),
            parent_index_number: 0,
            premiere_date: String::new(),
            production_year: 0,
            run_time_ticks: 0,
            server_id: String::new(),
            user_data: DiscographySongUserData { play_count: 0, is_favorite: false },
            download_status: DownloadStatus::NotDownloaded,
            disliked: false,
        }
    }
}

impl Searchable for DiscographySong {
    fn id(&self) -> (res: &str)
        ensures
            res@ == self.id@,
    {
        self.id.as_str()
    }

    fn name(&self) -> (res: &str)
        ensures
            res@ == self.name@,
    {
        self.name.as_str()
    }
}

#[derive(Debug, Clone)]
pub struct LibraryView {
    pub id: String,
    pub name: String,
    pub collection_type: Option<String>,
    pub selected: bool,
}

#[derive(Debug, Clone)]
pub struct Lyric {
    pub text: String,
    pub start: u64,
}

#[derive(Debug, Clone)]
pub struct ProgressReport {
    pub volume_level: u64,
    pub is_paused: bool,
    pub position_ticks: u64,
    pub playback_start_time_ticks: u64,
    pub media_source_id: String,
    pub can_seek: bool,
    pub item_id: String,
    pub event_name: String,
}

#[derive(Debug, Clone)]
pub struct Album {
    pub name: String,
    pub id: String,
    pub album_artists: Vec<Artist>,
    pub user_data: UserData,
    pub date_created: String,
    pub parent_id: String,
    pub run_time_ticks: u64,
    pub premiere_date: String,
}

impl Default for Album {
    fn default() -> (res: Self)
        ensures
            res.name@.len() == 0,
            res.id@.len() == 0,
            res.album_artists@.len() == 0,
            !res.user_data.is_favorite,
            res.date_created@.len() == 0,
            res.parent_id@.len() == 0,
            res.run_time_ticks == 0,
            res.premiere_date@.len() == 0,
    {
        Album {
            name: String::new(),
            id: String::new(),
            album_artists: Vec::new(),
            user_data: UserData { is_favorite: false },
            date_created: String::new(),
            parent_id: String::new(),
            run_time_ticks: 0,
            premiere_date: String::new(),
        }
    }
}

impl Searchable for Album {
    fn id(&self) -> (res: &str)
        ensures
            res@ == self.id@,
    {
        self.id.as_str()
    }

    fn name(&self) -> (res: &str)
        ensures
            res@ == self.name@,
    {
        self.name.as_str()
    }
}

#[derive(Debug, Clone)]
pub struct Playlist {
    pub name: String,
    pub server_id: String,
    pub id: String,
    pub date_created: String,
    pub run_time_ticks: u64,
    pub user_data: UserData,
    pub child_count: u64,
    pub parent_id: String,
}

impl Default for Playlist {
    fn default() -> (res: Self)
        ensures
            res.name@.len() == 0,
            res.server_id@.len() == 0,
            res.id@.len() == 0,
            res.date_created@.len() == 0,
            res.run_time_ticks == 0,
            !res.user_data.is_favorite,
            res.child_count == 0,
            res.parent_id@.len() == 0,
    {
        Playlist {
            name: String::new(),
            server_id: String::new(),
            id: String::new(),
            date_created: String::new(),
            run_time_ticks: 0,
            user_data: UserData { is_favorite: false },
            child_count: 0,
            parent_id: String::new(),
        }
    }
}

impl Searchable for Playlist {
    fn id(&self) -> (res: &str)
        ensures
            res@ == self.id@,
    {
        self.id.as_str()
    }

    fn name(&self) -> (res: &str)
        ensures
            res@ == self.name@,
    {
        self.name.as_str()
    }
}


/// `<base>-<user>`, where the base URL has `://`, then `:` and `/`, replaced
/// by `_` (Subsonic reports no server id of its own).
pub open spec fn server_id_of(server_url: Seq<char>, username: Seq<char>) -> Seq<char> {
    replace_all(replace_all(replace_all(server_url, "://"@, "_"@), ":"@, "_"@), "/"@, "_"@) + "-"@
        + username
}

/// Derives the server id of a server URL and user.
pub fn server_id_for(server_url: &str, username: &str) -> (res: String)
    ensures
        res@ == server_id_of(server_url@, username@),
{
    let scheme_sep = "://";
    let colon = ":";
    let slash = "/";
    proof {
        reveal_strlit("://");
        reveal_strlit(":");
        reveal_strlit("/");
    }
    let a = replace_str(server_url, scheme_sep, "_");
    let b = replace_str(a.as_str(), colon, "_");
    let mut c = replace_str(b.as_str(), slash, "_");
    c.append("-");
    c.append(username);
    c
}

/// What a login attempt sends: fresh device id and salt, the token, and the ping URL.
pub struct LoginAttempt {
    pub device_id: String,
    pub salt: String,
    pub token: String,
    pub ping_url: String,
}

/// Prepares a login with `password`: draws a device id and a salt, derives
/// the token and builds the ping URL that checks it.
pub fn prepare_login(server_url: &str, username: &str, password: &str) -> (res: LoginAttempt)
    ensures
        res.device_id@.len() == 10,
        res.salt@.len() == 10,
        forall|i: int| 0 <= i < 10 ==> random_charset().contains(#[trigger] res.device_id@[i]),
        forall|i: int| 0 <= i < 10 ==> random_charset().contains(#[trigger] res.salt@[i]),
        res.token@ == token_of(password@, res.salt@),
        res.ping_url@ == ping_url_of(server_url@, username@, res.token@, res.salt@),
{
    let device_id = random_string();
    let salt = random_string();
    let token = subsonic_token(password, salt.as_str());
    let ping_url = ping_url(server_url, username, token.as_str(), salt.as_str());
    LoginAttempt { device_id, salt, token, ping_url }
}

impl Client {
    /// The session that a successful login attempt at `server_url` opens.
    pub fn logged_in(server_url: &str, username: &str, attempt: LoginAttempt) -> (res: Client)
        ensures
            res.base_url@ == server_url@,
            res.server_id@ == server_id_of(server_url@, username@),
            res.user_id@ == username@,
            res.user_name@ == username@,
            res.token@ == attempt.token@,
            res.salt@ == attempt.salt@,
            res.device_id@ == attempt.device_id@,
    {
        Client {
            base_url: server_url.to_owned(),
            server_id: server_id_for(server_url, username),
            user_id: username.to_owned(),
            user_name: username.to_owned(),
            token: attempt.token,
            salt: attempt.salt,
            device_id: attempt.device_id,
        }
    }

    /// The session recorded in the authentication cache for `server_id`.
    pub fn from_cache(base_url: &str, server_id: &String, entry: &AuthEntry) -> (res: Client)
        ensures
            res.base_url@ == base_url@,
            res.server_id@ == server_id@,
            res.user_id@ == entry.username@,
            res.user_name@ == entry.username@,
            res.token@ == entry.token@,
            res.salt@ == entry.salt@,
            res.device_id@ == entry.device_id@,
    {
        Client {
            base_url: base_url.to_owned(),
            server_id: server_id.clone(),
            user_id: entry.username.clone(),
            user_name: entry.username.clone(),
            token: entry.token.clone(),
            salt: entry.salt.clone(),
            device_id: entry.device_id.clone(),
        }
    }

    /// The credential query of this session.
    pub open spec fn auth_query_spec(&self) -> Seq<char> {
        auth_query_of(self.user_name@, self.token@, self.salt@)
    }

    /// `<base>/rest/<endpoint>.view?<params><credentials>`.
    pub open spec fn endpoint_url_of(&self, endpoint: Seq<char>, params: Seq<char>) -> Seq<char> {
        self.base_url@ + "/rest/"@ + endpoint + ".view?"@ + params + self.auth_query_spec()
    }

    /// The credential query of this session.
    pub fn auth_query(&self) -> (res: String)
        ensures
            res@ == self.auth_query_spec(),
    {
        credential_query(self.user_name.as_str(), self.token.as_str(), self.salt.as_str())
    }

    fn endpoint_url(&self, endpoint: &str, params: &str) -> (res: String)
        ensures
            res@ == self.endpoint_url_of(endpoint@, params@),
    {
        let mut url = self.base_url.clone();
        url.append("/rest/");
        url.append(endpoint);
        url.append(".view?");
        url.append(params);
        let q = self.auth_query();
        url.append(q.as_str());
        url
    }

    /// `id=<id>&`.
    fn id_params(id: &str) -> (res: String)
        ensures
            res@ == "id="@ + id@ + "&"@,
    {
        let mut p = "id=".to_string();
        p.append(id);
        p.append("&");
        p
    }

    /// The ping URL that checks this session's token.
    pub fn ping_url(&self) -> (res: String)
        ensures
            res@ == self.endpoint_url_of("ping"@, ""@),
    {
        self.endpoint_url("ping", "")
    }

    /// The URL that lists the music folders.
    pub fn music_folders_url(&self) -> (res: String)
        ensures
            res@ == self.endpoint_url_of("getMusicFolders"@, ""@),
    {
        self.endpoint_url("getMusicFolders", "")
    }

    /// The URL of the artist index.
    pub fn indexes_url(&self) -> (res: String)
        ensures
            res@ == self.endpoint_url_of("getIndexes"@, ""@),
    {
        self.endpoint_url("getIndexes", "")
    }

    /// The URL of one page of the album list, alphabetical by artist, from
    /// `offset` on, restricted to a music folder when one is given.
    pub fn album_list_url(&self, offset: usize, library_id: Option<&String>) -> (res: String)
        ensures
            res@ == self.endpoint_url_of(
                "getAlbumList2"@,
                "type=alphabeticalByArtist&size="@ + decimal(500) + "&offset="@ + decimal(
                    offset as nat,
                ) + "&"@,
            ) + match library_id {
                Some(lib) => "&musicFolderId="@ + lib@,
                None => Seq::<char>::empty(),
            },
    {
        let mut params = "type=alphabeticalByArtist&size=".to_string();
        push_decimal(&mut params, ALBUM_PAGE_SIZE as u64);
        params.append("&offset=");
        push_decimal(&mut params, offset as u64);
        params.append("&");
        let mut url = self.endpoint_url("getAlbumList2", params.as_str());
        if let Some(lib) = library_id {
            url.append("&musicFolderId=");
            url.append(lib.as_str());
        }
        url
    }

    /// The URL of an album with its songs.
    pub fn album_url(&self, id: &str) -> (res: String)
        ensures
            res@ == self.endpoint_url_of("getAlbum"@, "id="@ + id@ + "&"@),
    {
        let p = Self::id_params(id);
        self.endpoint_url("getAlbum", p.as_str())
    }

    /// The URL of an artist with its albums.
    pub fn artist_url(&self, id: &str) -> (res: String)
        ensures
            res@ == self.endpoint_url_of("getArtist"@, "id="@ + id@ + "&"@),
    {
        let p = Self::id_params(id);
        self.endpoint_url("getArtist", p.as_str())
    }

    /// The URL of a song search for `search_term` (up to 100 songs); the URL ends in a space.
    pub fn search_url(&self, search_term: &str) -> (res: String)
        ensures
            res@ == self.endpoint_url_of("search3"@, "query="@ + search_term@ + "&songCount=100&"@)
                + " "@,
    {
        let mut p = "query=".to_string();
        p.append(search_term);
        p.append("&songCount=100&");
        let mut url = self.endpoint_url("search3", p.as_str());
        url.append(" ");
        url
    }

    /// The URL of `tracks_n` random songs.
    pub fn random_songs_url(&self, tracks_n: usize) -> (res: String)
        ensures
            res@ == self.endpoint_url_of(
                "getRandomSongs"@,
                "size="@ + decimal(tracks_n as nat) + "&"@,
            ),
    {
        let mut p = "size=".to_string();
        push_decimal(&mut p, tracks_n as u64);
        p.append("&");
        self.endpoint_url("getRandomSongs", p.as_str())
    }

    /// The URL of up to `count` songs similar to a track.
    pub fn similar_songs_url(&self, track_id: &str, count: usize) -> (res: String)
        ensures
            res@ == self.endpoint_url_of(
                "getSimilarSongs2"@,
                "id="@ + track_id@ + "&count="@ + decimal(count as nat) + "&"@,
            ),
    {
        let mut p = "id=".to_string();
        p.append(track_id);
        p.append("&count=");
        push_decimal(&mut p, count as u64);
        p.append("&");
        self.endpoint_url("getSimilarSongs2", p.as_str())
    }

    /// The URL of the lyrics of a song.
    pub fn lyrics_url(&self, song_id: &str) -> (res: String)
        ensures
            res@ == self.endpoint_url_of("getLyricsBySongId"@, "id="@ + song_id@ + "&"@),
    {
        let p = Self::id_params(song_id);
        self.endpoint_url("getLyricsBySongId", p.as_str())
    }

    /// The URL of the cover art of an item, 512 pixels wide.
    pub fn cover_art_url(&self, item_id: &str) -> (res: String)
        ensures
            res@ == self.endpoint_url_of("getCoverArt"@, "id="@ + item_id@ + "&size=512&"@),
    {
        let mut p = "id=".to_string();
        p.append(item_id);
        p.append("&size=512&");
        self.endpoint_url("getCoverArt", p.as_str())
    }

    /// The URL that lists the playlists.
    pub fn playlists_url(&self) -> (res: String)
        ensures
            res@ == self.endpoint_url_of("getPlaylists"@, ""@),
    {
        self.endpoint_url("getPlaylists", "")
    }

    /// The URL of a playlist with its songs.
    pub fn playlist_url(&self, id: &str) -> (res: String)
        ensures
            res@ == self.endpoint_url_of("getPlaylist"@, "id="@ + id@ + "&"@),
    {
        let p = Self::id_params(id);
        self.endpoint_url("getPlaylist", p.as_str())
    }

    /// The scrobble URL sent when a track stops: submitted, with the
    /// position (in ticks) given in milliseconds; nothing without a track.
    pub fn stopped_url(&self, id: &Option<String>, position: Option<u64>) -> (res: Option<String>)
        ensures
            match id {
                None => res is None,
                Some(track_id) => res matches Some(u) && u@ == self.endpoint_url_of(
                    "scrobble"@,
                    "id="@ + track_id@ + "&time="@ + decimal(
                        (match position {
                            Some(p) => p,
                            None => 0,
                        } / 10_000) as nat,
                    ) + "&submission=true&"@,
                ),
            },
    {
        match id {
            None => None,
            Some(track_id) => {
                let ticks = match position {
                    Some(p) => p,
                    None => 0,
                };
                let time_ms = ticks / 10_000;
                let mut p = "id=".to_string();
                p.append(track_id.as_str());
                p.append("&time=");
                push_decimal(&mut p, time_ms);
                p.append("&submission=true&");
                Some(self.endpoint_url("scrobble", p.as_str()))
            },
        }
    }

    /// The "now playing" scrobble URL, not submitted.
    pub fn playing_url(&self, id: &str) -> (res: String)
        ensures
            res@ == self.endpoint_url_of("scrobble"@, "id="@ + id@ + "&submission=false&"@),
    {
        let mut p = "id=".to_string();
        p.append(id);
        p.append("&submission=false&");
        self.endpoint_url("scrobble", p.as_str())
    }

    /// The URL that adds a track to a playlist.
    pub fn add_to_playlist_url(&self, track_id: &str, playlist_id: &str) -> (res: String)
        ensures
            res@ == self.endpoint_url_of(
                "updatePlaylist"@,
                "playlistId="@ + playlist_id@ + "&songIdToAdd="@ + track_id@ + "&"@,
            ),
    {
        let mut p = "playlistId=".to_string();
        p.append(playlist_id);
        p.append("&songIdToAdd=");
        p.append(track_id);
        p.append("&");
        self.endpoint_url("updatePlaylist", p.as_str())
    }

    /// The URL that removes an entry from a playlist.
    pub fn remove_from_playlist_url(&self, track_id: &str, playlist_id: &str) -> (res: String)
        ensures
            res@ == self.endpoint_url_of(
                "updatePlaylist"@,
                "playlistId="@ + playlist_id@ + "&songIndexToRemove="@ + track_id@ + "&"@,
            ),
    {
        let mut p = "playlistId=".to_string();
        p.append(playlist_id);
        p.append("&songIndexToRemove=");
        p.append(track_id);
        p.append("&");
        self.endpoint_url("updatePlaylist", p.as_str())
    }

    /// The URL that renames a playlist.
    pub fn update_playlist_url(&self, playlist: &Playlist) -> (res: String)
        ensures
            res@ == self.endpoint_url_of(
                "updatePlaylist"@,
                "playlistId="@ + playlist.id@ + "&name="@ + playlist.name@ + "&"@,
            ),
    {
        let mut p = "playlistId=".to_string();
        p.append(playlist.id.as_str());
        p.append("&name=");
        p.append(playlist.name.as_str());
        p.append("&");
        self.endpoint_url("updatePlaylist", p.as_str())
    }

    /// The URL that deletes a playlist.
    pub fn delete_playlist_url(&self, id: &str) -> (res: String)
        ensures
            res@ == self.endpoint_url_of("deletePlaylist"@, "id="@ + id@ + "&"@),
    {
        let p = Self::id_params(id);
        self.endpoint_url("deletePlaylist", p.as_str())
    }

    /// The URL that creates a playlist.
    pub fn create_playlist_url(&self, name: &str) -> (res: String)
        ensures
            res@ == self.endpoint_url_of("createPlaylist"@, "name="@ + name@ + "&"@),
    {
        let mut p = "name=".to_string();
        p.append(name);
        p.append("&");
        self.endpoint_url("createPlaylist", p.as_str())
    }

    /// The stream URL of a song (transcoding preferences are not applied).
    pub fn song_url_sync(&self, song_id: &String, _transcoding: Option<&Transcoding>) -> (res: String)
        ensures
            res@ == self.endpoint_url_of("stream"@, "id="@ + song_id@ + "&"@),
    {
        let p = Self::id_params(song_id.as_str());
        self.endpoint_url("stream", p.as_str())
    }

    /// The scrobble URL that reports playback progress: the position (in
    /// ticks) is given in seconds, not submitted.
    pub fn progress_url(&self, pr: &ProgressReport) -> (res: String)
        ensures
            res@ == self.endpoint_url_of(
                "scrobble"@,
                "id="@ + pr.item_id@ + "&time="@ + decimal((pr.position_ticks / 10_000_000) as nat)
                    + "&submission="@ + "false"@ + "&"@,
            ),
    {
        let time = pr.position_ticks / 10_000_000;
        let mut p = "id=".to_string();
        p.append(pr.item_id.as_str());
        p.append("&time=");
        push_decimal(&mut p, time);
        p.append("&submission=");
        p.append("false");
        p.append("&");
        self.endpoint_url("scrobble", p.as_str())
    }

    /// The URL that stars (or unstars) an item.
    pub fn favorite_url(&self, item_id: &str, favorite: bool) -> (res: String)
        ensures
            res@ == self.endpoint_url_of(
                if favorite {
                    "star"@
                } else {
                    "unstar"@
                },
                "id="@ + item_id@ + "&"@,
            ),
    {
        let action = if favorite {
            "star"
        } else {
            "unstar"
        };
        let p = Self::id_params(item_id);
        self.endpoint_url(action, p.as_str())
    }
}


/// The URL part of a server id holds neither `:` nor `/`: the scheme
/// separator, ports and path separators all became `_`.
pub proof fn law_server_id_has_no_separators(server_url: Seq<char>, username: Seq<char>)
    ensures
        ({
            let part = replace_all(
                replace_all(replace_all(server_url, "://"@, "_"@), ":"@, "_"@),
                "/"@,
                "_"@,
            );
            &&& server_id_of(server_url, username) == part + "-"@ + username
            &&& !part.contains(':')
            &&& !part.contains('/')
        }),
{
    reveal_strlit("://");
    reveal_strlit(":");
    reveal_strlit("/");
    reveal_strlit("_");
    let a = replace_all(server_url, "://"@, "_"@);
    let b = replace_all(a, ":"@, "_"@);
    assert(":"@ == seq![':']);
    assert("/"@ == seq!['/']);
    assert(!"_"@.contains(':')) by {
        assert("_"@[0] == '_');
    }
    assert(!"_"@.contains('/')) by {
        assert("_"@[0] == '_');
    }
    lemma_replaced_excludes(a, 0, ":"@, "_"@, ':');
    lemma_replaced_excludes(b, 0, "/"@, "_"@, '/');
    lemma_replaced_excludes(b, 0, "/"@, "_"@, ':');
}

} // verus!
