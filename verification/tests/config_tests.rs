//! The configuration rules: device, shortcut, account and author lists
//! and their defaults.

use cnctd::config::{
    Author, CargoTomlConfig, Config, Device, DeviceConfig, DeviceType, GitAccount, GitConfig,
    Shortcut,
};

fn empty_devices() -> DeviceConfig {
    DeviceConfig { ios: vec![], android: vec![], default_ios: None, default_android: None }
}

fn account(login: &str, default_url: &str, org_urls: Vec<&str>) -> GitAccount {
    GitAccount {
        login: String::from(login),
        token: String::from("SECRET-REDACTED"),
        personal_url: format!("https://example.com/{}", login),
        org_urls: org_urls.into_iter().map(String::from).collect(),
        default_url: String::from(default_url),
    }
}

#[test]
fn first_device_becomes_default() {
    let mut d = empty_devices();
    assert!(d.add_device(DeviceType::Ios, String::from("iphone-1")));
    assert_eq!(d.ios.len(), 1);
    assert_eq!(d.default_ios.as_deref(), Some("iphone-1"));
    assert!(d.android.is_empty());

    // a second device does not displace the default
    assert!(d.add_device(DeviceType::Ios, String::from("iphone-2")));
    assert_eq!(d.default_ios.as_deref(), Some("iphone-1"));
}

#[test]
fn duplicate_device_is_rejected() {
    let mut d = empty_devices();
    assert!(d.add_device(DeviceType::Android, String::from("pixel")));
    assert!(!d.add_device(DeviceType::Android, String::from("pixel")));
    assert_eq!(d.android.len(), 1);
}

#[test]
fn removing_the_default_device_promotes_the_first_left() {
    let mut d = empty_devices();
    d.add_device(DeviceType::Android, String::from("a"));
    d.add_device(DeviceType::Android, String::from("b"));
    assert_eq!(d.default_android.as_deref(), Some("a"));
    assert!(d.remove_device(DeviceType::Android, &String::from("a")));
    assert_eq!(d.android.len(), 1);
    assert_eq!(d.default_android.as_deref(), Some("b"));
    assert!(d.remove_device(DeviceType::Android, &String::from("b")));
    assert_eq!(d.default_android, None);
    // removing an unknown device changes nothing
    assert!(!d.remove_device(DeviceType::Android, &String::from("c")));
}

#[test]
fn set_default_device_by_kind() {
    let mut d = empty_devices();
    d.add_device(DeviceType::Ios, String::from("x"));
    d.add_device(DeviceType::Ios, String::from("y"));
    d.set_default_device(DeviceType::Ios, String::from("y"));
    assert_eq!(d.default_ios.as_deref(), Some("y"));
    assert_eq!(d.default_android, None);
}

#[test]
fn device_kind_labels() {
    assert_eq!(DeviceType::Ios.label(), "iOS");
    assert_eq!(DeviceType::Android.label(), "Android");
    let d = Device { device_type: DeviceType::Ios, device_id: String::from("z") };
    assert_eq!(d.device_id, "z");
}

#[test]
fn shortcuts_add_replace_remove_and_find() {
    let mut s: Vec<Shortcut> = vec![];
    assert!(Shortcut::add(&mut s, String::from("build"), String::from("cargo build"), false));
    // same name, no confirmation: unchanged
    assert!(!Shortcut::add(&mut s, String::from("build"), String::from("cargo b"), false));
    assert_eq!(s.len(), 1);
    // same name, confirmed: the replacement is appended after the old entry
    assert!(Shortcut::add(&mut s, String::from("build"), String::from("cargo b"), true));
    assert_eq!(s.len(), 2);
    assert_eq!(
        Shortcut::find_command(&s, &String::from("build")).as_deref(),
        Some("cargo build")
    );
    assert!(Shortcut::find_command(&s, &String::from("test")).is_none());
    assert!(Shortcut::remove(&mut s, &String::from("build")));
    assert_eq!(s.len(), 1);
    assert_eq!(s[0].command, "cargo b");
    assert!(!Shortcut::remove(&mut s, &String::from("gone")));
}

#[test]
fn first_account_becomes_default() {
    let mut g = GitConfig { git_accounts: None, default_account: None };
    assert!(g.add_account(account("alice", "https://example.com/alice", vec![])));
    assert_eq!(g.default_account.as_deref(), Some("alice"));
    assert!(g.add_account(account("bob", "https://example.com/bob", vec![])));
    assert_eq!(g.default_account.as_deref(), Some("alice"));
    // a duplicate login is rejected
    assert!(!g.add_account(account("alice", "https://example.com/alice", vec![])));
    assert_eq!(g.get_accounts().len(), 2);
}

#[test]
fn removing_the_default_account_promotes_the_first_left() {
    let mut g = GitConfig { git_accounts: None, default_account: None };
    g.add_account(account("alice", "u", vec![]));
    g.add_account(account("bob", "u", vec![]));
    assert!(g.remove_account(&String::from("alice")));
    assert_eq!(g.default_account.as_deref(), Some("bob"));
    assert!(!g.remove_account(&String::from("nobody")));
    assert!(g.remove_account(&String::from("bob")));
    assert_eq!(g.default_account, None);
}

#[test]
fn default_url_and_org_flag() {
    let mut g = GitConfig { git_accounts: None, default_account: None };
    g.add_account(account("alice", "https://example.com/alice", vec!["https://example.com/org"]));
    assert!(g.set_default_url(&String::from("alice"), String::from("https://example.com/org")));
    let (login, url, is_org) = g.get_default_account_and_url().unwrap();
    assert_eq!(login, "alice");
    assert_eq!(url, "https://example.com/org");
    assert!(is_org);
    assert!(!g.set_default_url(&String::from("carol"), String::from("x")));

    let acc = g.get_default_account().unwrap();
    assert_eq!(acc.login, "alice");
}

#[test]
fn set_default_account_requires_accounts() {
    let mut g = GitConfig { git_accounts: None, default_account: None };
    assert!(!g.set_default_account(String::from("alice")));
    g.add_account(account("alice", "u", vec![]));
    assert!(g.set_default_account(String::from("alice")));
    assert_eq!(g.default_account.as_deref(), Some("alice"));
}

#[test]
fn first_author_becomes_default() {
    let mut c =
        CargoTomlConfig { authors: None, default_author: None, default_license: None };
    let a = Author {
        name: String::from("Alice"),
        organization: String::from("Acme"),
        email: String::from("alice@example.com"),
    };
    assert!(c.add_author(a.clone()));
    assert_eq!(c.default_author.as_deref(), Some("alice@example.com"));
    assert!(!c.add_author(a));
    assert!(c.remove_author(&String::from("alice@example.com")));
    assert_eq!(c.default_author, None);
}

#[test]
fn license_is_recorded_and_returned() {
    let mut c =
        CargoTomlConfig { authors: None, default_author: None, default_license: None };
    let l = c.set_default_license(String::from("MIT"));
    assert_eq!(l, "MIT");
    assert_eq!(c.default_license.as_deref(), Some("MIT"));
}

#[test]
fn fresh_config_is_empty() {
    let c = Config::new();
    assert!(c.git.git_accounts.is_none());
    assert!(c.cargo_toml.authors.is_none());
    assert!(c.devices.ios.is_empty() && c.devices.android.is_empty());
    assert!(c.shortcuts.is_empty());
}
