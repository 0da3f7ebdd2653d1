use ydclient::config::{Config, ConfigError, MountEntry, MountPointConfig};
use ydclient::scan::is_hidden;
use ydclient::watch::{
    file_kind_label, pick_event_path, watch_step, WatchSignal, WatchState,
};

#[test]
fn unconfigured_seed_values() {
    let c = Config::unconfigured();
    assert_eq!(c.yandex_disk_api_url, "https://cloud-api.yandex.net:443/v1/disk");
    assert_eq!(c.oauth_token, "uninitialized");
    assert_eq!(c.client_id, "uninitialized");
    assert_eq!(c.client_secret, "uninitialized");
    assert!(c.mounts.is_empty());
}

#[test]
fn token_override_replaces_only_the_token() {
    let mut c = Config::unconfigured();
    c.mounts.push(MountEntry {
        name: String::from("docs"),
        point: MountPointConfig {
            local_path: String::from("/tmp/docs"),
            remote_path: String::from("disk:/docs"),
        },
    });
    c.apply_token_override(Some(String::from("SECRET-REDACTED")));
    assert_eq!(c.oauth_token, "SECRET-REDACTED");
    assert_eq!(c.mounts.len(), 1);
    assert_eq!(c.mounts[0].point.local_path, "/tmp/docs");
    let before = c.oauth_token.clone();
    c.apply_token_override(None);
    assert_eq!(c.oauth_token, before);
}

#[test]
fn short_tokens_are_rejected() {
    let mut c = Config::unconfigured();
    c.oauth_token = String::from("abcd");
    assert_eq!(c.validate_oauth_token(), Err(ConfigError::NoOauthToken));
    assert_eq!(ConfigError::NoOauthToken.message(), "No OAuth token provided");
    c.oauth_token = String::from("abcde");
    assert_eq!(c.validate_oauth_token(), Ok(()));
}

#[test]
fn hidden_entries_start_with_a_dot() {
    assert!(is_hidden(".git"));
    assert!(is_hidden("."));
    assert!(!is_hidden("src"));
    assert!(!is_hidden(""));
    assert!(!is_hidden("a.hidden"));
}

#[test]
fn watcher_state_machine() {
    let s = watch_step(WatchState::Starting, WatchSignal::Subscribed);
    assert_eq!(s, WatchState::Watching);
    let s = watch_step(s, WatchSignal::EventHandled);
    assert_eq!(s, WatchState::Watching);
    let s = watch_step(s, WatchSignal::SourceFailed);
    assert_eq!(s, WatchState::Failed);
    // no restart after a failure
    assert_eq!(watch_step(s, WatchSignal::Subscribed), WatchState::Failed);
    assert_eq!(watch_step(s, WatchSignal::EventHandled), WatchState::Failed);
}

#[test]
fn events_act_on_their_first_path() {
    let paths = vec![String::from("/m/a"), String::from("/m/b")];
    assert_eq!(pick_event_path(&paths), Some(&paths[0]));
    let none: Vec<String> = vec![];
    assert_eq!(pick_event_path(&none), None);
}

#[test]
fn entry_kinds_are_labelled() {
    assert_eq!(file_kind_label(true), "Directory");
    assert_eq!(file_kind_label(false), "File");
}
