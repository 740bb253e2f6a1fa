//! Configuration: lyrics visibility, the authentication cache, the server
//! entries of the configuration file, and the checks of the setup dialog.
use vstd::prelude::*;
use crate::client::{AuthMethod, Client, SelectedServer};
use crate::env::Environment;
use crate::expand::{expand_env_vars, expansion};
use crate::text::{
    chars_of, contains_seq, ends_with_char, starts_with, str_contains, str_equals,
    string_from_range,
};

verus! {

/// When the lyrics pane is shown.
#[derive(Debug, Clone, Copy, PartialEq, Eq, Structural)]
pub enum LyricsVisibility {
    Always,
    Auto,
    Never,
}

impl LyricsVisibility {
    /// `"auto"` and `"never"` select those modes; every other value means always.
    pub fn from_config(val: &str) -> (res: Self)
        ensures
            res == (if val@ == "auto"@ {
                LyricsVisibility::Auto
            } else if val@ == "never"@ {
                LyricsVisibility::Never
            } else {
                LyricsVisibility::Always
            }),
    {
        if str_equals(val, "auto") {
            LyricsVisibility::Auto
        } else if str_equals(val, "never") {
            LyricsVisibility::Never
        } else {
            LyricsVisibility::Always
        }
    }
}

/// Credentials remembered for one server.
#[derive(Debug, Clone)]
pub struct AuthEntry {
    pub known_urls: Vec<String>,
    pub device_id: String,
    pub user_id: String,
    pub username: String,
    pub token: String,
    pub salt: String,
}

/// The content of an `AuthEntry`, as character sequences.
pub struct AuthEntryView {
    pub known_urls: Seq<Seq<char>>,
    pub device_id: Seq<char>,
    pub user_id: Seq<char>,
    pub username: Seq<char>,
    pub token: Seq<char>,
    pub salt: Seq<char>,
}

impl View for AuthEntry {
    type V = AuthEntryView;

    open spec fn view(&self) -> AuthEntryView {
        AuthEntryView {
            known_urls: self.known_urls.deep_view(),
            device_id: self.device_id@,
            user_id: self.user_id@,
            username: self.username@,
            token: self.token@,
            salt: self.salt@,
        }
    }
}

/// The map from server id to credentials that a list of entries describes.
pub open spec fn entry_map(entries: Seq<(String, AuthEntry)>) -> Map<Seq<char>, AuthEntryView>
    decreases entries.len(),
{
    if entries.len() == 0 {
        Map::empty()
    } else {
        entry_map(entries.drop_last()).insert(entries.last().0@, entries.last().1@)
    }
}

/// No server id occurs twice.
pub open spec fn unique_ids(entries: Seq<(String, AuthEntry)>) -> bool {
    forall|i: int, j: int| 0 <= i < j < entries.len() ==> entries[i].0@ != entries[j].0@
}

/// Every entry is in the map, and the map holds nothing else.
pub proof fn lemma_entry_map_members(entries: Seq<(String, AuthEntry)>)
    requires
        unique_ids(entries),
    ensures
        forall|i: int|
            0 <= i < entries.len() ==> #[trigger] entry_map(entries).contains_key(entries[i].0@)
                && entry_map(entries)[entries[i].0@] == entries[i].1@,
        forall|k: Seq<char>|
            #[trigger] entry_map(entries).contains_key(k) ==> exists|i: int|
                0 <= i < entries.len() && entries[i].0@ == k,
    decreases entries.len(),
{
    if entries.len() > 0 {
        let rest = entries.drop_last();
        lemma_entry_map_members(rest);
        assert forall|i: int| 0 <= i < entries.len() implies #[trigger] entry_map(
            entries,
        ).contains_key(entries[i].0@) && entry_map(entries)[entries[i].0@] == entries[i].1@ by {
            if i < entries.len() - 1 {
                assert(rest[i] == entries[i]);
                assert(entry_map(rest).contains_key(rest[i].0@));
                assert(entries[i].0@ != entries.last().0@);
            }
        }
        assert forall|k: Seq<char>| #[trigger] entry_map(entries).contains_key(k) implies exists|
            i: int,
        | 0 <= i < entries.len() && entries[i].0@ == k by {
            if k != entries.last().0@ {
                assert(entry_map(rest).contains_key(k));
                let i = choose|i: int| 0 <= i < rest.len() && rest[i].0@ == k;
                assert(entries[i].0@ == k);
            } else {
                assert(entries[entries.len() - 1].0@ == k);
            }
        }
    }
}

/// Replacing the entry at `i` by one with the same id updates that id in the map.
pub proof fn lemma_entry_map_update(entries: Seq<(String, AuthEntry)>, i: int, new: (String, AuthEntry))
    requires
        unique_ids(entries),
        0 <= i < entries.len(),
        entries[i].0@ == new.0@,
    ensures
        entry_map(entries.update(i, new)) == entry_map(entries).insert(new.0@, new.1@),
        unique_ids(entries.update(i, new)),
    decreases entries.len(),
{
    let upd = entries.update(i, new);
    if i == entries.len() - 1 {
        assert(upd.drop_last() =~= entries.drop_last());
        assert(entry_map(upd) =~= entry_map(entries).insert(new.0@, new.1@));
    } else {
        lemma_entry_map_update(entries.drop_last(), i, new);
        assert(upd.drop_last() =~= entries.drop_last().update(i, new));
        assert(entries.last().0@ != new.0@);
        assert(entry_map(upd) =~= entry_map(entries).insert(new.0@, new.1@));
    }
}

/// Credentials per server id; no server id occurs twice.
pub struct AuthCache {
    entries: Vec<(String, AuthEntry)>,
}

impl View for AuthCache {
    type V = Map<Seq<char>, AuthEntryView>;

    closed spec fn view(&self) -> Map<Seq<char>, AuthEntryView> {
        entry_map(self.entries@)
    }
}

impl AuthCache {
    #[verifier::type_invariant]
    spec fn ids_unique(self) -> bool {
        unique_ids(self.entries@)
    }

    /// A cache that knows no server.
    pub fn new() -> (res: Self)
        ensures
            res@ == Map::<Seq<char>, AuthEntryView>::empty(),
    {
        let res = AuthCache { entries: Vec::new() };
        assert(entry_map(res.entries@) =~= Map::<Seq<char>, AuthEntryView>::empty());
        res
    }

    /// Position of the entry for `server_id`.
    fn position(&self, server_id: &String) -> (res: Option<usize>)
        ensures
            match res {
                Some(i) => i < self.entries@.len() && self.entries@[i as int].0@ == server_id@,
                None => forall|j: int|
                    0 <= j < self.entries@.len() ==> self.entries@[j].0@ != server_id@,
            },
    {
        let mut i: usize = 0;
        while i < self.entries.len()
            invariant
                i <= self.entries@.len(),
                forall|j: int| 0 <= j < i ==> self.entries@[j].0@ != server_id@,
            decreases self.entries.len() - i,
        {
            if self.entries[i].0.eq(server_id) {
                return Some(i);
            }
            i = i + 1;
        }
        None
    }

    /// Records `entry` for `server_id`, replacing what was recorded before.
    pub fn insert(&mut self, server_id: String, entry: AuthEntry)
        ensures
            final(self)@ == old(self)@.insert(server_id@, entry@),
    {
        proof {
            use_type_invariant(&*self);
        }
        let ghost id = server_id@;
        let ghost e = entry@;
        match self.position(&server_id) {
            Some(i) => {
                let ghost before = self.entries@;
                proof {
                    lemma_entry_map_update(before, i as int, (server_id, entry));
                }
                let mut entries: Vec<(String, AuthEntry)> = Vec::new();
                std::mem::swap(&mut entries, &mut self.entries);
                entries.set(i, (server_id, entry));
                self.entries = entries;
            },
            None => {
                let ghost before = self.entries@;
                let mut entries: Vec<(String, AuthEntry)> = Vec::new();
                std::mem::swap(&mut entries, &mut self.entries);
                entries.push((server_id, entry));
                self.entries = entries;
                assert(self.entries@.drop_last() =~= before);
            },
        }
    }

    /// The credentials recorded for `server_id`.
    pub fn get(&self, server_id: &String) -> (res: Option<&AuthEntry>)
        ensures
            match res {
                Some(e) => self@.contains_key(server_id@) && self@[server_id@] == e@,
                None => !self@.contains_key(server_id@),
            },
    {
        proof {
            use_type_invariant(self);
            lemma_entry_map_members(self.entries@);
        }
        match self.position(server_id) {
            Some(i) => {
                assert(entry_map(self.entries@).contains_key(self.entries@[i as int].0@));
                Some(&self.entries[i].1)
            },
            None => None,
        }
    }

    /// The entries, each server id once.
    pub fn into_entries(self) -> (res: Vec<(String, AuthEntry)>)
        ensures
            entry_map(res@) == self@,
            unique_ids(res@),
    {
        proof {
            use_type_invariant(&self);
        }
        self.entries
    }
}

/// `url` is among the known URLs of `e`.
pub open spec fn knows_url(e: AuthEntryView, url: Seq<char>) -> bool {
    e.known_urls.contains(url)
}

/// Is `url` one of `urls`?
fn contains_url(urls: &Vec<String>, url: &String) -> (res: bool)
    ensures
        res == urls.deep_view().contains(url@),
{
    let mut i: usize = 0;
    while i < urls.len()
        invariant
            i <= urls@.len(),
            forall|j: int| 0 <= j < i ==> urls.deep_view()[j] != url@,
        decreases urls.len() - i,
    {
        if urls[i].eq(url) {
            assert(urls.deep_view()[i as int] == url@);
            return true;
        }
        i = i + 1;
    }
    false
}

/// The server whose cached credentials list `url` among their known URLs.
pub fn find_cached_auth_by_url<'a>(cache: &'a AuthCache, url: &str) -> (res: Option<
    (&'a String, &'a AuthEntry),
>)
    ensures
        match res {
            Some((id, entry)) => cache@.contains_key(id@) && cache@[id@] == entry@ && knows_url(
                entry@,
                url@,
            ),
            None => forall|k: Seq<char>|
                cache@.contains_key(k) ==> !knows_url(#[trigger] cache@[k], url@),
        },
{
    proof {
        use_type_invariant(cache);
        lemma_entry_map_members(cache.entries@);
    }
    let target = url.to_owned();
    let mut i: usize = 0;
    while i < cache.entries.len()
        invariant
            i <= cache.entries@.len(),
            target@ == url@,
            forall|j: int| 0 <= j < i ==> !knows_url(cache.entries@[j].1@, url@),
        decreases cache.entries.len() - i,
    {
        if contains_url(&cache.entries[i].1.known_urls, &target) {
            proof {
                use_type_invariant(cache);
                lemma_entry_map_members(cache.entries@);
                assert(entry_map(cache.entries@).contains_key(cache.entries@[i as int].0@));
            }
            return Some((&cache.entries[i].0, &cache.entries[i].1));
        }
        i = i + 1;
    }
    assert forall|k: Seq<char>| cache@.contains_key(k) implies !knows_url(
        #[trigger] cache@[k],
        url@,
    ) by {
        let j = choose|j: int| 0 <= j < cache.entries@.len() && cache.entries@[j].0@ == k;
        assert(cache@[cache.entries@[j].0@] == cache.entries@[j].1@);
    }
    None
}

/// The entry that a successful login with `client` at `url` leaves behind,
/// given what was recorded before for the server: the device id is kept,
/// the user and token are taken from the session, and `url` is added to the
/// known URLs unless it is there already.
pub open spec fn refreshed_entry(prev: Option<AuthEntryView>, url: Seq<char>, client: Client) -> AuthEntryView {
    let base = match prev {
        Some(e) => e,
        None => AuthEntryView {
            known_urls: Seq::empty(),
            device_id: client.device_id@,
            user_id: client.user_id@,
            username: client.user_name@,
            token: client.token@,
            salt: client.salt@,
        },
    };
    AuthEntryView {
        known_urls: if base.known_urls.contains(url) {
            base.known_urls
        } else {
            base.known_urls.push(url)
        },
        device_id: base.device_id,
        user_id: client.user_id@,
        username: client.user_name@,
        token: client.token@,
        salt: client.salt@,
    }
}

/// What was recorded for `id` in `m`, if anything.
pub open spec fn recorded(m: Map<Seq<char>, AuthEntryView>, id: Seq<char>) -> Option<AuthEntryView> {
    if m.contains_key(id) {
        Some(m[id])
    } else {
        None
    }
}

/// The cache after a successful login with `client` at `url`.
pub open spec fn cache_after_login(
    m: Map<Seq<char>, AuthEntryView>,
    url: Seq<char>,
    client: Client,
) -> Map<Seq<char>, AuthEntryView> {
    m.insert(client.server_id@, refreshed_entry(recorded(m, client.server_id@), url, client))
}

/// Records a successful connection: the server id of `client` maps to its
/// current credentials, and the selected server's URL is among its known URLs.
pub fn update_cache_with_new_auth(
    cache: AuthCache,
    selected_server: &SelectedServer,
    client: &Client,
) -> (res: AuthCache)
    ensures
        res@ == cache_after_login(cache@, selected_server.url@, *client),
{
    let mut cache = cache;
    let prev = cache.get(&client.server_id);
    let mut entry = match prev {
        Some(e) => AuthEntry {
            known_urls: e.known_urls.clone(),
            device_id: e.device_id.clone(),
            user_id: e.user_id.clone(),
            username: e.username.clone(),
            token: e.token.clone(),
            salt: e.salt.clone(),
        },
        None => AuthEntry {
            known_urls: Vec::new(),
            device_id: client.device_id.clone(),
            user_id: client.user_id.clone(),
            username: client.user_name.clone(),
            token: client.token.clone(),
            salt: client.salt.clone(),
        },
    };
    proof {
        if let Some(e) = prev {
            assert(entry.known_urls.deep_view() =~= e.known_urls.deep_view());
        } else {
            assert(entry.known_urls.deep_view() =~= Seq::<Seq<char>>::empty());
        }
    }
    let ghost before_urls = entry.known_urls.deep_view();
    if !contains_url(&entry.known_urls, &selected_server.url) {
        entry.known_urls.push(selected_server.url.clone());
        assert(entry.known_urls.deep_view() =~= before_urls.push(selected_server.url@));
    }
    entry.user_id = client.user_id.clone();
    entry.username = client.user_name.clone();
    entry.token = client.token.clone();
    entry.salt = client.salt.clone();
    cache.insert(client.server_id.clone(), entry);
    cache
}


/// After a login at `url` is recorded, the entry of the client's server lists
/// `url`, so a lookup by `url` finds a server.
pub proof fn law_login_url_is_known(m: Map<Seq<char>, AuthEntryView>, url: Seq<char>, client: Client)
    ensures
        cache_after_login(m, url, client).contains_key(client.server_id@),
        knows_url(cache_after_login(m, url, client)[client.server_id@], url),
{
    let e = refreshed_entry(recorded(m, client.server_id@), url, client);
    let base_urls = match recorded(m, client.server_id@) {
        Some(p) => p.known_urls,
        None => Seq::<Seq<char>>::empty(),
    };
    if !base_urls.contains(url) {
        assert(base_urls.push(url)[base_urls.len() as int] == url);
    }
}

/// After a login is recorded, the entry of the client's server holds the
/// client's user id, user name, token and salt, whether or not the URL was
/// known before. An entry that was there keeps its device id and, when it
/// already listed `url`, its known URLs; otherwise `url` is added at the end.
/// A server seen for the first time gets the client's device id and `url` alone.
pub proof fn law_login_takes_session_credentials(
    m: Map<Seq<char>, AuthEntryView>,
    url: Seq<char>,
    client: Client,
)
    ensures
        ({
            let after = cache_after_login(m, url, client);
            let e = after[client.server_id@];
            &&& after.contains_key(client.server_id@)
            &&& e.user_id == client.user_id@
            &&& e.username == client.user_name@
            &&& e.token == client.token@
            &&& e.salt == client.salt@
            &&& m.contains_key(client.server_id@) ==> {
                let prev = m[client.server_id@];
                &&& e.device_id == prev.device_id
                &&& prev.known_urls.contains(url) ==> e.known_urls == prev.known_urls
                &&& !prev.known_urls.contains(url) ==> e.known_urls == prev.known_urls.push(url)
            }
            &&& !m.contains_key(client.server_id@) ==> {
                &&& e.device_id == client.device_id@
                &&& e.known_urls == seq![url]
            }
        }),
{
    if !m.contains_key(client.server_id@) {
        assert(Seq::<Seq<char>>::empty().push(url) =~= seq![url]);
    }
}

/// Recording the same login twice leaves the cache as recording it once.
pub proof fn law_login_idempotent(m: Map<Seq<char>, AuthEntryView>, url: Seq<char>, client: Client)
    ensures
        cache_after_login(cache_after_login(m, url, client), url, client) == cache_after_login(
            m,
            url,
            client,
        ),
{
    let once = cache_after_login(m, url, client);
    law_login_url_is_known(m, url, client);
    let e = once[client.server_id@];
    assert(recorded(once, client.server_id@) == Some(e));
    assert(refreshed_entry(Some(e), url, client) == e);
    assert(once.insert(client.server_id@, e) =~= once);
}

/// A login leaves the entries of every other server as they were.
pub proof fn law_login_keeps_other_servers(
    m: Map<Seq<char>, AuthEntryView>,
    url: Seq<char>,
    client: Client,
    other: Seq<char>,
)
    requires
        other != client.server_id@,
    ensures
        cache_after_login(m, url, client).contains_key(other) == m.contains_key(other),
        m.contains_key(other) ==> cache_after_login(m, url, client)[other] == m[other],
{
}

/// A login never lists a URL twice among the known URLs of its server.
pub proof fn law_login_keeps_urls_distinct(
    m: Map<Seq<char>, AuthEntryView>,
    url: Seq<char>,
    client: Client,
)
    requires
        m.contains_key(client.server_id@) ==> m[client.server_id@].known_urls.no_duplicates(),
    ensures
        cache_after_login(m, url, client)[client.server_id@].known_urls.no_duplicates(),
{
    let base_urls = match recorded(m, client.server_id@) {
        Some(p) => p.known_urls,
        None => Seq::<Seq<char>>::empty(),
    };
    if !base_urls.contains(url) {
        let pushed = base_urls.push(url);
        assert forall|i: int, j: int| 0 <= i < pushed.len() && 0 <= j < pushed.len() && i != j
            implies pushed[i] != pushed[j] by {
            if i == base_urls.len() && j < base_urls.len() {
                assert(base_urls[j] == pushed[j]);
            }
            if j == base_urls.len() && i < base_urls.len() {
                assert(base_urls[i] == pushed[i]);
            }
        }
    }
}


/// One entry of the `servers` list of the configuration file: each field is
/// present when the file gives it as a string (`default` as a boolean).
#[derive(Debug, Clone)]
pub struct ServerConfig {
    pub name: Option<String>,
    pub url: Option<String>,
    pub username: Option<String>,
    pub password: Option<String>,
    pub password_file: Option<String>,
    pub default: bool,
}

/// Which configured server to use.
#[derive(Debug, Clone, Copy, PartialEq, Eq, Structural)]
pub enum ServerPick {
    /// The configuration lists no server.
    NoServers,
    /// The only configured server (index 0).
    Single,
    /// The server marked as default, at this index.
    Default(usize),
    /// The user has to choose.
    Ask,
}

/// The first server marked as default.
pub open spec fn first_default(servers: Seq<ServerConfig>) -> Option<int> {
    if exists|i: int| 0 <= i < servers.len() && servers[i].default {
        Some(choose|i: int| 0 <= i < servers.len() && servers[i].default
            && forall|j: int| 0 <= j < i ==> !servers[j].default)
    } else {
        None
    }
}

/// Decides which server to use: a single server is used as it is; among
/// several, the first marked as default, unless the user forces a choice.
pub fn pick_server(servers: &Vec<ServerConfig>, force_server_select: bool) -> (res: ServerPick)
    ensures
        servers@.len() == 0 ==> res == ServerPick::NoServers,
        servers@.len() == 1 ==> res == ServerPick::Single,
        servers@.len() > 1 ==> res == match first_default(servers@) {
            Some(i) => if force_server_select {
                ServerPick::Ask
            } else {
                ServerPick::Default(i as usize)
            },
            None => ServerPick::Ask,
        },
{
    if servers.len() == 0 {
        return ServerPick::NoServers;
    }
    if servers.len() == 1 {
        return ServerPick::Single;
    }
    let mut i: usize = 0;
    while i < servers.len()
        invariant
            i <= servers@.len(),
            servers@.len() > 1,
            forall|j: int| 0 <= j < i ==> !servers@[j].default,
        decreases servers.len() - i,
    {
        if servers[i].default {
            proof {
                let w = choose|k: int| 0 <= k < servers@.len() && servers@[k].default
                    && forall|j: int| 0 <= j < k ==> !servers@[j].default;
                assert(w == i) by {
                    if w < i {
                        assert(!servers@[w].default);
                    }
                    if w > i {
                        assert(!servers@[i as int].default);
                    }
                }
            }
            if force_server_select {
                return ServerPick::Ask;
            } else {
                return ServerPick::Default(i);
            }
        }
        i = i + 1;
    }
    ServerPick::Ask
}

/// `value`, or `fallback` when it is absent.
pub open spec fn or_else(value: Option<String>, fallback: Seq<char>) -> Seq<char> {
    match value {
        Some(v) => v@,
        None => fallback,
    }
}

/// The menu label of a server: `<name> (<url>)`.
pub open spec fn server_label_of(server: ServerConfig) -> Seq<char> {
    or_else(server.name, "Unnamed"@) + " ("@ + or_else(server.url, "Unknown"@) + ")"@
}

fn append_or(out: &mut String, value: &Option<String>, fallback: &str)
    ensures
        final(out)@ == old(out)@ + or_else(*value, fallback@),
{
    match value {
        Some(v) => out.append(v.as_str()),
        None => out.append(fallback),
    }
}

/// Builds the menu label of a server.
pub fn server_label(server: &ServerConfig) -> (res: String)
    ensures
        res@ == server_label_of(*server),
{
    let mut out = String::new();
    append_or(&mut out, &server.name, "Unnamed");
    out.append(" (");
    append_or(&mut out, &server.url, "Unknown");
    out.append(")");
    out
}

/// The notice shown when the default server is used:
/// ` - Server: <name> [<url>] — use --select-server to switch.`
pub open spec fn default_notice_of(server: ServerConfig) -> Seq<char> {
    " - Server: "@ + or_else(server.name, "Unnamed"@) + " ["@ + or_else(server.url, "Unknown"@)
        + "] \u{2014} use --select-server to switch."@
}

/// Builds the notice shown when the default server is used.
pub fn default_server_notice(server: &ServerConfig) -> (res: String)
    ensures
        res@ == default_notice_of(*server),
{
    let mut out = " - Server: ".to_string();
    append_or(&mut out, &server.name, "Unnamed");
    out.append(" [");
    append_or(&mut out, &server.url, "Unknown");
    out.append("] \u{2014} use --select-server to switch.");
    out
}

/// The entries of the server menu: one label per server, then the offline library.
pub fn server_menu(servers: &Vec<ServerConfig>) -> (res: Vec<String>)
    ensures
        res@.len() == servers@.len() + 1,
        forall|i: int| 0 <= i < servers@.len() ==> #[trigger] res@[i]@ == server_label_of(servers@[i]),
        res@[servers@.len() as int]@ == "Offline Library"@,
{
    let mut names: Vec<String> = Vec::new();
    let mut i: usize = 0;
    while i < servers.len()
        invariant
            i <= servers@.len(),
            names@.len() == i,
            forall|j: int| 0 <= j < i ==> #[trigger] names@[j]@ == server_label_of(servers@[j]),
        decreases servers.len() - i,
    {
        names.push(server_label(&servers[i]));
        i = i + 1;
    }
    names.push("Offline Library".to_string());
    names
}

/// The server that menu entry `selection` stands for; the last entry is the offline library.
pub fn server_for_selection(server_count: usize, selection: usize) -> (res: Option<usize>)
    requires
        selection <= server_count,
    ensures
        res == (if selection == server_count {
            None::<usize>
        } else {
            Some(selection)
        }),
{
    if selection == server_count {
        None
    } else {
        Some(selection)
    }
}

/// A server ready to use, or one whose password is still to be read from a file.
#[derive(Debug, Clone)]
pub enum ServerSetup {
    Ready(SelectedServer),
    NeedsPasswordFile { url: String, username: String, path: String },
}

/// A `ServerSetup`, as character sequences.
pub enum ServerSetupView {
    Ready { url: Seq<char>, username: Seq<char>, password: Seq<char> },
    NeedsPasswordFile { url: Seq<char>, username: Seq<char>, path: Seq<char> },
}

/// The view of a setup outcome.
pub open spec fn setup_view(r: Result<ServerSetup, String>) -> Result<ServerSetupView, Seq<char>> {
    match r {
        Ok(ServerSetup::Ready(s)) => match s.auth {
            AuthMethod::UserPass { username, password } => Ok(
                ServerSetupView::Ready { url: s.url@, username: username@, password: password@ },
            ),
        },
        Ok(ServerSetup::NeedsPasswordFile { url, username, path }) => Ok(
            ServerSetupView::NeedsPasswordFile { url: url@, username: username@, path: path@ },
        ),
        Err(e) => Err(e@),
    }
}

/// Where the password of a server comes from, once the user name is known.
pub open spec fn password_outcome(
    server: ServerConfig,
    env: Seq<(Seq<char>, Seq<char>)>,
    url: Seq<char>,
    username: Seq<char>,
) -> Result<ServerSetupView, Seq<char>> {
    match (server.password, server.password_file) {
        (None, Some(f)) => match expansion(f@, env) {
            Err(e) => Err(e),
            Ok(path) => Ok(ServerSetupView::NeedsPasswordFile { url, username, path }),
        },
        (Some(p), None) => match expansion(p@, env) {
            Err(e) => Err(e),
            Ok(password) => Ok(ServerSetupView::Ready { url, username, password }),
        },
        (Some(_), Some(_)) => Err(
            "Selected server has password and password_file configured, only choose one"@,
        ),
        (None, None) => Err("Selected server does not have a password configured"@),
    }
}

/// What a server entry yields: its expanded URL, user name and password
/// source, or the message of the first problem found, in the order URL,
/// name, user name, password.
pub open spec fn server_outcome(server: ServerConfig, env: Seq<(Seq<char>, Seq<char>)>) -> Result<
    ServerSetupView,
    Seq<char>,
> {
    match server.url {
        None => Err("Selected server does not have a URL configured"@),
        Some(u) => match expansion(u@, env) {
            Err(e) => Err(e),
            Ok(url) => if url.len() > 0 && url.last() == '/' {
                Err("Server URL must not end with a trailing slash"@)
            } else if server.name is None {
                Err("Selected server does not have a name configured"@)
            } else {
                match server.username {
                    None => Err("Selected server does not have a username configured"@),
                    Some(un) => match expansion(un@, env) {
                        Err(e) => Err(e),
                        Ok(username) => password_outcome(server, env, url, username),
                    },
                }
            },
        },
    }
}

fn password_setup(server: &ServerConfig, env: &Environment, url: String, username: String) -> (res:
    Result<ServerSetup, String>)
    ensures
        setup_view(res) == password_outcome(*server, env@, url@, username@),
{
    match (&server.password, &server.password_file) {
        (None, Some(f)) => match expand_env_vars(f.as_str(), env) {
            Err(e) => Err(e),
            Ok(path) => Ok(ServerSetup::NeedsPasswordFile { url, username, path }),
        },
        (Some(p), None) => match expand_env_vars(p.as_str(), env) {
            Err(e) => Err(e),
            Ok(password) => Ok(
                ServerSetup::Ready(SelectedServer { url, auth: AuthMethod::UserPass { username, password } }),
            ),
        },
        (Some(_), Some(_)) => Err(
            "Selected server has password and password_file configured, only choose one".to_string(),
        ),
        (None, None) => Err("Selected server does not have a password configured".to_string()),
    }
}

/// Reads a server entry: expands the variables in its URL, user name and
/// password (or password file path) and checks what the entry must hold.
/// An error carries the message to show.
pub fn parse_server(server: &ServerConfig, env: &Environment) -> (res: Result<ServerSetup, String>)
    ensures
        setup_view(res) == server_outcome(*server, env@),
{
    let url = match &server.url {
        None => {
            return Err("Selected server does not have a URL configured".to_string());
        },
        Some(u) => match expand_env_vars(u.as_str(), env) {
            Err(e) => {
                return Err(e);
            },
            Ok(url) => url,
        },
    };
    if ends_with_char(url.as_str(), '/') {
        return Err("Server URL must not end with a trailing slash".to_string());
    }
    if server.name.is_none() {
        return Err("Selected server does not have a name configured".to_string());
    }
    match &server.username {
        None => Err("Selected server does not have a username configured".to_string()),
        Some(un) => match expand_env_vars(un.as_str(), env) {
            Err(e) => Err(e),
            Ok(username) => password_setup(server, env, url, username),
        },
    }
}

/// A character that surrounds a password read from a file: a line feed or a carriage return.
pub open spec fn newline_char(c: char) -> bool {
    c == '\n' || c == '\r'
}

/// `s` without the line feeds and carriage returns at its ends.
pub open spec fn trim_newlines(s: Seq<char>) -> Seq<char>
    decreases s.len(),
{
    if s.len() > 0 && newline_char(s[0]) {
        trim_newlines(s.drop_first())
    } else if s.len() > 0 && newline_char(s.last()) {
        trim_newlines(s.drop_last())
    } else {
        s
    }
}

proof fn lemma_trim_front(s: Seq<char>, start: int)
    requires
        0 <= start <= s.len(),
        forall|k: int| 0 <= k < start ==> newline_char(s[k]),
    ensures
        trim_newlines(s) == trim_newlines(s.subrange(start, s.len() as int)),
    decreases start,
{
    if start > 0 {
        assert(s.drop_first().subrange(start - 1, s.drop_first().len() as int) =~= s.subrange(
            start,
            s.len() as int,
        ));
        lemma_trim_front(s.drop_first(), start - 1);
    } else {
        assert(s.subrange(0, s.len() as int) =~= s);
    }
}

proof fn lemma_trim_back(s: Seq<char>, end: int)
    requires
        0 <= end <= s.len(),
        s.len() == 0 || !newline_char(s[0]) || end == 0,
        forall|k: int| end <= k < s.len() ==> newline_char(s[k]),
        end > 0 ==> !newline_char(s[0]),
    ensures
        trim_newlines(s) == trim_newlines(s.subrange(0, end)),
    decreases s.len() - end,
{
    if end < s.len() {
        if s.len() > 0 && newline_char(s[0]) {
            assert(end == 0);
            lemma_all_newlines(s);
            lemma_all_newlines(s.subrange(0, 0));
        } else {
            assert(s.drop_last().subrange(0, end) =~= s.subrange(0, end));
            lemma_trim_back(s.drop_last(), end);
        }
    } else {
        assert(s.subrange(0, end) =~= s);
    }
}

proof fn lemma_all_newlines(s: Seq<char>)
    requires
        forall|k: int| 0 <= k < s.len() ==> newline_char(s[k]),
    ensures
        trim_newlines(s) == Seq::<char>::empty(),
    decreases s.len(),
{
    if s.len() > 0 {
        lemma_all_newlines(s.drop_first());
    }
}

/// The password stored in a password file: its content without surrounding line breaks.
pub fn password_from_file(contents: &str) -> (res: String)
    ensures
        res@ == trim_newlines(contents@),
{
    let chars = chars_of(contents);
    let mut start: usize = 0;
    while start < chars.len() && (chars[start] == '\n' || chars[start] == '\r')
        invariant
            start <= chars.len(),
            forall|k: int| 0 <= k < start ==> newline_char(chars@[k]),
        decreases chars.len() - start,
    {
        start = start + 1;
    }
    let mut end: usize = chars.len();
    while end > start && (chars[end - 1] == '\n' || chars[end - 1] == '\r')
        invariant
            start <= end <= chars.len(),
            forall|k: int| end <= k < chars.len() ==> newline_char(chars@[k]),
        decreases end,
    {
        end = end - 1;
    }
    proof {
        let s = chars@;
        lemma_trim_front(s, start as int);
        let mid = s.subrange(start as int, s.len() as int);
        if end > start {
            assert(!newline_char(mid[0]));
        }
        assert forall|k: int| end - start <= k < mid.len() implies newline_char(mid[k]) by {
            assert(mid[k] == s[start + k]);
        }
        lemma_trim_back(mid, end - start);
        assert(mid.subrange(0, end - start) =~= s.subrange(start as int, end as int));
    }
    string_from_range(&chars, start, end)
}

/// The server whose password was read from its password file.
pub fn selected_with_password_file(url: String, username: String, contents: &str) -> (res:
    SelectedServer)
    ensures
        res.url@ == url@,
        match res.auth {
            AuthMethod::UserPass { username: u, password: p } => u@ == username@ && p@
                == trim_newlines(contents@),
        },
{
    let password = password_from_file(contents);
    SelectedServer { url, auth: AuthMethod::UserPass { username, password } }
}

/// Does the setup dialog accept `input` as a server URL? It must start
/// with `http://`, or with `https://` and hold more than that.
pub fn is_valid_server_url(input: &str) -> (res: bool)
    ensures
        res == ("http://"@.is_prefix_of(input@) || ("https://"@.is_prefix_of(input@) && input@
            != "http://"@ && input@ != "https://"@)),
{
    starts_with(input, "http://") || (starts_with(input, "https://") && !str_equals(input, "http://")
        && !str_equals(input, "https://"))
}

/// `url` without one trailing `/`.
pub fn without_trailing_slash(url: &str) -> (res: String)
    ensures
        res@ == (if url@.len() > 0 && url@.last() == '/' {
            url@.drop_last()
        } else {
            url@
        }),
{
    let chars = chars_of(url);
    if chars.len() > 0 && chars[chars.len() - 1] == '/' {
        string_from_range(&chars, 0, chars.len() - 1)
    } else {
        let res = string_from_range(&chars, 0, chars.len());
        assert(chars@.subrange(0, chars@.len() as int) =~= chars@);
        res
    }
}

/// A configuration file from before multiple servers were supported: it has
/// a `server:` key but no `servers:` key.
pub fn config_is_outdated(content: &str) -> (res: bool)
    ensures
        res == (!contains_seq(content@, "servers:"@) && contains_seq(
            content@,
            "server:"@,
        )),
{
    !str_contains(content, "servers:") && str_contains(content, "server:")
}

/// What the setup dialog says after the user declined a working server for
/// the `attempts`-th time.
pub fn setup_retry_message(attempts: u32) -> (res: String)
    ensures
        res@ == (if attempts >= 3 {
            " I believe in you! You can do it!"@
        } else {
            " ! Let's try again.\n"@
        }),
{
    if attempts >= 3 {
        " I believe in you! You can do it!".to_string()
    } else {
        " ! Let's try again.\n".to_string()
    }
}

/// The directories kept under the application's data directory.
pub fn data_subdirectories() -> (res: Vec<String>)
    ensures
        res.deep_view() == seq![
            "log"@,
            "covers"@,
            "states"@,
            "preferences"@,
            "downloads"@,
            "databases"@,
            "mpv-scripts"@,
        ],
{
    let mut dirs: Vec<String> = Vec::new();
    dirs.push("log".to_string());
    dirs.push("covers".to_string());
    dirs.push("states".to_string());
    dirs.push("preferences".to_string());
    dirs.push("downloads".to_string());
    dirs.push("databases".to_string());
    dirs.push("mpv-scripts".to_string());
    assert(dirs.deep_view() =~= seq![
        "log"@,
        "covers"@,
        "states"@,
        "preferences"@,
        "downloads"@,
        "databases"@,
        "mpv-scripts"@,
    ]);
    dirs
}


/// Does the setup dialog accept the server's answer to its ping? The
/// `subsonic-response` object must be present with `status` `ok`.
pub fn ping_status_accepted(status: Option<&str>) -> (res: bool)
    ensures
        res == (status matches Some(st) && st@ == "ok"@),
{
    match status {
        Some(st) => str_equals(st, "ok"),
        None => false,
    }
}


/// When no other server lists `url`, the client's server is the only one
/// that a lookup by `url` can find after the login is recorded.
pub proof fn law_login_found_by_url(m: Map<Seq<char>, AuthEntryView>, url: Seq<char>, client: Client)
    requires
        forall|k: Seq<char>|
            m.contains_key(k) && k != client.server_id@ ==> !knows_url(#[trigger] m[k], url),
    ensures
        forall|k: Seq<char>|
            cache_after_login(m, url, client).contains_key(k) && knows_url(
                #[trigger] cache_after_login(m, url, client)[k],
                url,
            ) ==> k == client.server_id@,
{
}


/// A password read from a file neither starts nor ends with a line break.
pub proof fn law_password_has_no_outer_newlines(contents: Seq<char>)
    ensures
        trim_newlines(contents).len() > 0 ==> !newline_char(trim_newlines(contents)[0])
            && !newline_char(trim_newlines(contents).last()),
    decreases contents.len(),
{
    if contents.len() > 0 && newline_char(contents[0]) {
        law_password_has_no_outer_newlines(contents.drop_first());
    } else if contents.len() > 0 && newline_char(contents.last()) {
        law_password_has_no_outer_newlines(contents.drop_last());
    }
}

} // verus!
