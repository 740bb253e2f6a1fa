use navidrome_tui::client::{AuthMethod, Client, SelectedServer};
use navidrome_tui::config::{
    config_is_outdated, data_subdirectories, default_server_notice, find_cached_auth_by_url,
    is_valid_server_url, parse_server, ping_status_accepted, password_from_file, pick_server, selected_with_password_file,
    server_for_selection, server_label, server_menu, setup_retry_message,
    update_cache_with_new_auth, without_trailing_slash, AuthCache, AuthEntry, LyricsVisibility,
    ServerConfig, ServerPick, ServerSetup,
};
use navidrome_tui::env::Environment;
use navidrome_tui::expand::{expand_env_vars, is_env_var_char};

fn env_of(pairs: &[(&str, &str)]) -> Environment {
    let mut env = Environment::new();
    for (k, v) in pairs {
        env.set(k.to_string(), v.to_string());
    }
    env
}

#[test]
fn expands_braced_variable() {
    let env = env_of(&[("HOME", "/home/me")]);
    assert_eq!(expand_env_vars("${HOME}/music", &env), Ok("/home/me/music".to_string()));
}

#[test]
fn expands_bare_variable() {
    let env = env_of(&[("USER", "alice"), ("PORT", "4533")]);
    assert_eq!(
        expand_env_vars("http://$USER.example:$PORT/x", &env),
        Ok("http://alice.example:4533/x".to_string())
    );
}

#[test]
fn expands_percent_variable() {
    let env = env_of(&[("APPDATA", "C:\\Users\\a")]);
    assert_eq!(expand_env_vars("%APPDATA%\\nav", &env), Ok("C:\\Users\\a\\nav".to_string()));
}

#[test]
fn lone_dollar_is_kept() {
    let env = env_of(&[]);
    assert_eq!(expand_env_vars("cost: 5$ each $", &env), Ok("cost: 5$ each $".to_string()));
}

#[test]
fn percent_without_valid_name_is_kept() {
    let env = env_of(&[("A", "x")]);
    assert_eq!(expand_env_vars("100% sure", &env), Ok("100% sure".to_string()));
    assert_eq!(expand_env_vars("%%A%", &env), Ok("%x".to_string()));
    assert_eq!(expand_env_vars("%a b%", &env), Ok("%a b%".to_string()));
}

#[test]
fn plain_text_is_unchanged() {
    let env = env_of(&[("X", "y")]);
    assert_eq!(expand_env_vars("https://music.example.org", &env), Ok("https://music.example.org".to_string()));
    assert_eq!(expand_env_vars("", &env), Ok(String::new()));
}

#[test]
fn unclosed_brace_is_an_error() {
    let env = env_of(&[("HOME", "/h")]);
    assert_eq!(
        expand_env_vars("${HOME", &env),
        Err("Unclosed environment variable in '${HOME'".to_string())
    );
}

#[test]
fn unset_variable_is_an_error() {
    let env = env_of(&[]);
    assert_eq!(
        expand_env_vars("pw-$SECRET_PW", &env),
        Err("Environment variable 'SECRET_PW' is not set".to_string())
    );
    assert_eq!(
        expand_env_vars("${}", &env),
        Err("Environment variable '' is not set".to_string())
    );
}

#[test]
fn first_failure_wins() {
    let env = env_of(&[]);
    assert_eq!(
        expand_env_vars("$A ${B", &env),
        Err("Environment variable 'A' is not set".to_string())
    );
}

#[test]
fn env_set_replaces_binding() {
    let mut env = Environment::new();
    env.set("A".to_string(), "1".to_string());
    env.set("B".to_string(), "2".to_string());
    env.set("A".to_string(), "3".to_string());
    assert_eq!(env.get(&"A".to_string()), Some("3".to_string()));
    assert_eq!(env.get(&"B".to_string()), Some("2".to_string()));
    assert_eq!(env.get(&"C".to_string()), None);
}

#[test]
fn env_var_chars() {
    assert!(is_env_var_char('a'));
    assert!(is_env_var_char('Z'));
    assert!(is_env_var_char('7'));
    assert!(is_env_var_char('_'));
    assert!(!is_env_var_char('-'));
    assert!(!is_env_var_char('é'));
}

#[test]
fn lyrics_visibility_from_config() {
    assert_eq!(LyricsVisibility::from_config("auto"), LyricsVisibility::Auto);
    assert_eq!(LyricsVisibility::from_config("never"), LyricsVisibility::Never);
    assert_eq!(LyricsVisibility::from_config("always"), LyricsVisibility::Always);
    assert_eq!(LyricsVisibility::from_config("Auto"), LyricsVisibility::Always);
}

fn client(server_id: &str) -> Client {
    Client {
        base_url: "https://music.example".to_string(),
        server_id: server_id.to_string(),
        user_id: "alice".to_string(),
        user_name: "alice".to_string(),
        token: "tok".to_string(),
        salt: "salt".to_string(),
        device_id: "dev1".to_string(),
    }
}

fn selected(url: &str) -> SelectedServer {
    SelectedServer {
        url: url.to_string(),
        auth: AuthMethod::UserPass { username: "alice".to_string(), password: "pw".to_string() },
    }
}

#[test]
fn login_is_recorded_in_cache() {
    let cache = AuthCache::new();
    let cache = update_cache_with_new_auth(cache, &selected("https://music.example"), &client("srv"));
    let found = find_cached_auth_by_url(&cache, "https://music.example");
    let (id, entry) = found.expect("the login url is known");
    assert_eq!(id, "srv");
    assert_eq!(entry.known_urls, vec!["https://music.example".to_string()]);
    assert_eq!(entry.device_id, "dev1");
    assert_eq!(entry.token, "tok");
    assert!(find_cached_auth_by_url(&cache, "https://other.example").is_none());
}

#[test]
fn login_twice_records_url_once() {
    let cache = AuthCache::new();
    let c = client("srv");
    let s = selected("https://music.example");
    let cache = update_cache_with_new_auth(cache, &s, &c);
    let cache = update_cache_with_new_auth(cache, &s, &c);
    let entries = cache.into_entries();
    assert_eq!(entries.len(), 1);
    assert_eq!(entries[0].1.known_urls.len(), 1);
}

#[test]
fn relogin_keeps_device_and_adds_url() {
    let mut cache = AuthCache::new();
    cache.insert(
        "srv".to_string(),
        AuthEntry {
            known_urls: vec!["http://lan:4533".to_string()],
            device_id: "olddev".to_string(),
            user_id: "bob".to_string(),
            username: "bob".to_string(),
            token: "oldtok".to_string(),
            salt: "oldsalt".to_string(),
        },
    );
    cache.insert(
        "other".to_string(),
        AuthEntry {
            known_urls: vec!["http://x".to_string()],
            device_id: "d".to_string(),
            user_id: "u".to_string(),
            username: "u".to_string(),
            token: "t".to_string(),
            salt: "s".to_string(),
        },
    );
    let cache = update_cache_with_new_auth(cache, &selected("https://music.example"), &client("srv"));
    let e = cache.get(&"srv".to_string()).unwrap();
    assert_eq!(e.device_id, "olddev");
    assert_eq!(e.username, "alice");
    assert_eq!(e.user_id, "alice");
    assert_eq!(e.token, "tok");
    assert_eq!(e.salt, "salt");
    assert_eq!(e.known_urls, vec!["http://lan:4533".to_string(), "https://music.example".to_string()]);
    let o = cache.get(&"other".to_string()).unwrap();
    assert_eq!(o.token, "t");
    let (id, _) = find_cached_auth_by_url(&cache, "http://lan:4533").unwrap();
    assert_eq!(id, "srv");
}

#[test]
fn cache_insert_replaces() {
    let mut cache = AuthCache::new();
    let e = |t: &str| AuthEntry {
        known_urls: vec![],
        device_id: String::new(),
        user_id: String::new(),
        username: String::new(),
        token: t.to_string(),
        salt: String::new(),
    };
    cache.insert("a".to_string(), e("1"));
    cache.insert("a".to_string(), e("2"));
    assert_eq!(cache.get(&"a".to_string()).unwrap().token, "2");
    assert_eq!(cache.into_entries().len(), 1);
}

fn server(name: Option<&str>, url: Option<&str>, user: Option<&str>, pw: Option<&str>, pwf: Option<&str>, default: bool) -> ServerConfig {
    ServerConfig {
        name: name.map(|s| s.to_string()),
        url: url.map(|s| s.to_string()),
        username: user.map(|s| s.to_string()),
        password: pw.map(|s| s.to_string()),
        password_file: pwf.map(|s| s.to_string()),
        default,
    }
}

#[test]
fn pick_server_cases() {
    let a = server(Some("a"), Some("http://a"), None, None, None, false);
    let b = server(Some("b"), Some("http://b"), None, None, None, true);
    let c = server(Some("c"), Some("http://c"), None, None, None, true);
    assert_eq!(pick_server(&vec![], false), ServerPick::NoServers);
    assert_eq!(pick_server(&vec![b.clone()], true), ServerPick::Single);
    assert_eq!(pick_server(&vec![a.clone(), b.clone(), c.clone()], false), ServerPick::Default(1));
    assert_eq!(pick_server(&vec![a.clone(), b.clone()], true), ServerPick::Ask);
    assert_eq!(pick_server(&vec![a.clone(), a.clone()], false), ServerPick::Ask);
}

#[test]
fn server_menu_labels() {
    let a = server(Some("Home"), Some("http://a"), None, None, None, false);
    let b = server(None, None, None, None, None, false);
    assert_eq!(server_label(&a), "Home (http://a)");
    let menu = server_menu(&vec![a.clone(), b]);
    assert_eq!(menu, vec!["Home (http://a)".to_string(), "Unnamed (Unknown)".to_string(), "Offline Library".to_string()]);
    assert_eq!(server_for_selection(2, 2), None);
    assert_eq!(server_for_selection(2, 1), Some(1));
    assert_eq!(default_server_notice(&a), " - Server: Home [http://a] \u{2014} use --select-server to switch.");
}

fn ready(setup: ServerSetup) -> (String, String, String) {
    match setup {
        ServerSetup::Ready(SelectedServer { url, auth: AuthMethod::UserPass { username, password } }) => (url, username, password),
        other => panic!("unexpected {:?}", other),
    }
}

#[test]
fn parse_server_ready() {
    let env = env_of(&[("NAV_PW", "secret"), ("HOST", "music.example")]);
    let s = server(Some("Home"), Some("https://$HOST"), Some("alice"), Some("$NAV_PW"), None, false);
    let (url, user, pw) = ready(parse_server(&s, &env).unwrap());
    assert_eq!(url, "https://music.example");
    assert_eq!(user, "alice");
    assert_eq!(pw, "secret");
}

#[test]
fn parse_server_password_file() {
    let env = env_of(&[("HOME", "/home/a")]);
    let s = server(Some("Home"), Some("http://h"), Some("alice"), None, Some("${HOME}/.pw"), false);
    match parse_server(&s, &env).unwrap() {
        ServerSetup::NeedsPasswordFile { url, username, path } => {
            assert_eq!(url, "http://h");
            assert_eq!(username, "alice");
            assert_eq!(path, "/home/a/.pw");
            let sel = selected_with_password_file(url, username, "\r\nhunter2\n\n");
            match sel.auth {
                AuthMethod::UserPass { password, .. } => assert_eq!(password, "hunter2"),
            }
        }
        other => panic!("unexpected {:?}", other),
    }
}

#[test]
fn parse_server_errors() {
    let env = env_of(&[]);
    let msg = |s: ServerConfig| parse_server(&s, &env).unwrap_err();
    assert_eq!(msg(server(Some("n"), None, Some("u"), Some("p"), None, false)), "Selected server does not have a URL configured");
    assert_eq!(msg(server(Some("n"), Some("http://h/"), Some("u"), Some("p"), None, false)), "Server URL must not end with a trailing slash");
    assert_eq!(msg(server(Some("n"), Some("http://$H"), Some("u"), Some("p"), None, false)), "Environment variable 'H' is not set");
    assert_eq!(msg(server(None, Some("http://h"), Some("u"), Some("p"), None, false)), "Selected server does not have a name configured");
    assert_eq!(msg(server(Some("n"), Some("http://h"), None, Some("p"), None, false)), "Selected server does not have a username configured");
    assert_eq!(msg(server(Some("n"), Some("http://h"), Some("u"), Some("p"), Some("f"), false)), "Selected server has password and password_file configured, only choose one");
    assert_eq!(msg(server(Some("n"), Some("http://h"), Some("u"), None, None, false)), "Selected server does not have a password configured");
    assert_eq!(msg(server(Some("n"), Some("http://h"), Some("${U"), Some("p"), None, false)), "Unclosed environment variable in '${U'");
}

#[test]
fn password_file_trimming() {
    assert_eq!(password_from_file("pw\n"), "pw");
    assert_eq!(password_from_file("\n\r\n"), "");
    assert_eq!(password_from_file(" pw \n"), " pw ");
    assert_eq!(password_from_file("a\nb"), "a\nb");
}

#[test]
fn setup_url_validation() {
    assert!(is_valid_server_url("http://"));
    assert!(is_valid_server_url("http://music.local"));
    assert!(is_valid_server_url("https://music.example"));
    assert!(!is_valid_server_url("https://"));
    assert!(!is_valid_server_url("ftp://x"));
    assert!(!is_valid_server_url("music.example"));
}

#[test]
fn setup_helpers() {
    assert_eq!(without_trailing_slash("http://a/"), "http://a");
    assert_eq!(without_trailing_slash("http://a//"), "http://a/");
    assert_eq!(without_trailing_slash("http://a"), "http://a");
    assert!(config_is_outdated("server: http://a\nusername: x\n"));
    assert!(!config_is_outdated("servers:\n  - name: x\n"));
    assert!(!config_is_outdated("download_path: /x\n"));
    assert_eq!(setup_retry_message(1), " ! Let's try again.\n");
    assert_eq!(setup_retry_message(3), " I believe in you! You can do it!");
    assert_eq!(data_subdirectories().len(), 7);
}

#[test]
fn setup_ping_status() {
    assert!(ping_status_accepted(Some("ok")));
    assert!(!ping_status_accepted(Some("failed")));
    assert!(!ping_status_accepted(None));
}
