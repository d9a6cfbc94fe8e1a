//! The persisted configuration: git accounts, manifest authorship
//! defaults, registered devices and named shell shortcuts.
//!
//! Reading the answers to prompts and persisting the configuration file
//! are the caller's business; the rules — what a given answer does to
//! the stored lists and defaults — live here, each with its contract.

use vstd::prelude::*;

verus! {

/// The two kinds of registered device.
#[derive(Debug, Clone, Copy, PartialEq, Eq, Structural)]
pub enum DeviceType {
    Ios,
    Android,
}

impl DeviceType {
    /// The user-facing name of the device kind.
    pub fn label(&self) -> (r: &'static str)
        ensures
            *self == DeviceType::Ios ==> r@ == "iOS"@,
            *self == DeviceType::Android ==> r@ == "Android"@,
    {
        match self {
            DeviceType::Ios => "iOS",
            DeviceType::Android => "Android",
        }
    }
}

/// One registered device.
#[derive(Debug, Clone, PartialEq, Eq)]
pub struct Device {
    pub device_type: DeviceType,
    pub device_id: String,
}

/// The registered devices, with one optional default per kind.
#[derive(Debug, Clone, PartialEq, Eq)]
pub struct DeviceConfig {
    pub ios: Vec<Device>,
    pub android: Vec<Device>,
    pub default_ios: Option<String>,
    pub default_android: Option<String>,
}

/// The identifiers of a device list, in order.
pub open spec fn device_ids(devices: Seq<Device>) -> Seq<Seq<char>> {
    devices.map_values(|d: Device| d.device_id@)
}

/// Whether an optional default names `id`.
pub open spec fn default_is(d: Option<String>, id: Seq<char>) -> bool {
    d is Some && d->0@ == id
}

/// Whether `id` is one of the identifiers of `devices`.
fn contains_device_id(devices: &Vec<Device>, id: &String) -> (r: bool)
    ensures
        r == device_ids(devices@).contains(id@),
{
    let mut i: usize = 0;
    while i < devices.len()
        invariant
            i <= devices.len(),
            forall|j: int| 0 <= j < i ==> device_ids(devices@)[j] != id@,
        decreases devices.len() - i,
    {
        proof {
            assert(device_ids(devices@)[i as int] == devices@[i as int].device_id@);
        }
        if devices[i].device_id == *id {
            return true;
        }
        i = i + 1;
    }
    false
}

/// Remove the device with the selected identifier from `devices`, and
/// repair the default: when the removed device was the default, the
/// first remaining device becomes the default, or none is left.  An
/// unknown identifier changes nothing.
#[verifier::loop_isolation(false)]
pub fn remove_device_from_list(
    devices: &mut Vec<Device>,
    default_device: &mut Option<String>,
    selected_device_id: &String,
) -> (removed: bool)
    ensures
        removed == device_ids(old(devices)@).contains(selected_device_id@),
        !removed ==> final(devices)@ == old(devices)@ && *final(default_device) == *old(
            default_device,
        ),
        removed ==> exists|i: int|
            0 <= i < old(devices)@.len() && (#[trigger] old(devices)@[i]).device_id@
                == selected_device_id@ && (forall|j: int|
                0 <= j < i ==> (#[trigger] old(devices)@[j]).device_id@ != selected_device_id@)
                && final(devices)@ == old(devices)@.remove(i),
        removed ==> {
            if default_is(*old(default_device), selected_device_id@) {
                if final(devices)@.len() > 0 {
                    default_is(*final(default_device), final(devices)@[0].device_id@)
                } else {
                    *final(default_device) is None
                }
            } else {
                *final(default_device) == *old(default_device)
            }
        },
{
    let mut i: usize = 0;
    while i < devices.len()
        invariant
            i <= devices.len(),
            devices@ == old(devices)@,
            default_device == old(default_device),
            forall|j: int|
                0 <= j < i ==> (#[trigger] devices@[j]).device_id@ != selected_device_id@,
        decreases devices.len() - i,
    {
        if devices[i].device_id == *selected_device_id {
            let ghost found: int = i as int;
            devices.remove(i);
            let was_default = match default_device {
                Some(d) => *d == *selected_device_id,
                None => false,
            };
            if was_default {
                if devices.len() > 0 {
                    *default_device = Some(devices[0].device_id.clone());
                } else {
                    *default_device = None;
                }
            }
            proof {
                assert(device_ids(old(devices)@)[found] == selected_device_id@);
            }
            return true;
        }
        i = i + 1;
    }
    proof {
        if device_ids(devices@).contains(selected_device_id@) {
            let j = choose|j: int|
                0 <= j < device_ids(devices@).len() && device_ids(devices@)[j]
                    == selected_device_id@;
            assert(devices@[j].device_id@ == selected_device_id@);
        }
    }
    false
}

impl DeviceConfig {
    /// Register a device under its kind, unless its identifier is
    /// already registered there; the first device of a kind becomes
    /// that kind's default.
    pub fn add_device(&mut self, device_type: DeviceType, device_id: String) -> (added: bool)
        ensures
            final(self).ios@.len() <= old(self).ios@.len() + 1,
            match device_type {
                DeviceType::Android => {
                    &&& final(self).ios == old(self).ios
                    &&& final(self).default_ios == old(self).default_ios
                    &&& added == !device_ids(old(self).android@).contains(device_id@)
                    &&& (!added ==> final(self).android == old(self).android && final(self).default_android == old(self).default_android)
                    &&& (added ==> final(self).android@ == old(self).android@.push(
                        Device { device_type: DeviceType::Android, device_id },
                    ) && (if old(self).android@.len() == 0 {
                        default_is(final(self).default_android, device_id@)
                    } else {
                        final(self).default_android == old(self).default_android
                    }))
                },
                DeviceType::Ios => {
                    &&& final(self).android == old(self).android
                    &&& final(self).default_android == old(self).default_android
                    &&& added == !device_ids(old(self).ios@).contains(device_id@)
                    &&& (!added ==> final(self).ios == old(self).ios && final(self).default_ios
                        == old(self).default_ios)
                    &&& (added ==> final(self).ios@ == old(self).ios@.push(
                        Device { device_type: DeviceType::Ios, device_id },
                    ) && (if old(self).ios@.len() == 0 {
                        default_is(final(self).default_ios, device_id@)
                    } else {
                        final(self).default_ios == old(self).default_ios
                    }))
                },
            },
    {
        match device_type {
            DeviceType::Android => {
                if contains_device_id(&self.android, &device_id) {
                    false
                } else {
                    let was_empty = self.android.len() == 0;
                    self.android.push(
                        Device { device_type: DeviceType::Android, device_id: device_id.clone() },
                    );
                    if was_empty {
                        self.default_android = Some(device_id);
                    }
                    true
                }
            },
            DeviceType::Ios => {
                if contains_device_id(&self.ios, &device_id) {
                    false
                } else {
                    let was_empty = self.ios.len() == 0;
                    self.ios.push(
                        Device { device_type: DeviceType::Ios, device_id: device_id.clone() },
                    );
                    if was_empty {
                        self.default_ios = Some(device_id);
                    }
                    true
                }
            },
        }
    }

    /// Remove the selected device from the list of its kind, repairing
    /// that kind's default.
    pub fn remove_device(
        &mut self,
        device_type: DeviceType,
        selected_device_id: &String,
    ) -> (removed: bool)
        ensures
            match device_type {
                DeviceType::Android => final(self).ios == old(self).ios && final(self).default_ios
                    == old(self).default_ios && removed == device_ids(
                    old(self).android@,
                ).contains(selected_device_id@),
                DeviceType::Ios => final(self).android == old(self).android
                    && final(self).default_android == old(self).default_android && removed == device_ids(
                    old(self).ios@,
                ).contains(selected_device_id@),
            },
    {
        match device_type {
            DeviceType::Android => remove_device_from_list(
                &mut self.android,
                &mut self.default_android,
                selected_device_id,
            ),
            DeviceType::Ios => remove_device_from_list(
                &mut self.ios,
                &mut self.default_ios,
                selected_device_id,
            ),
        }
    }

    /// Make the selected identifier the default of its kind.
    pub fn set_default_device(&mut self, device_type: DeviceType, selected_device_id: String)
        ensures
            final(self).ios == old(self).ios,
            final(self).android == old(self).android,
            match device_type {
                DeviceType::Android => default_is(final(self).default_android, selected_device_id@)
                    && final(self).default_ios == old(self).default_ios,
                DeviceType::Ios => default_is(final(self).default_ios, selected_device_id@)
                    && final(self).default_android == old(self).default_android,
            },
    {
        match device_type {
            DeviceType::Android => self.default_android = Some(selected_device_id),
            DeviceType::Ios => self.default_ios = Some(selected_device_id),
        }
    }
}

/// One named shell shortcut.
#[derive(Debug, Clone, PartialEq, Eq)]
pub struct Shortcut {
    pub name: String,
    pub command: String,
}

/// The names of a shortcut list, in order.
pub open spec fn shortcut_names(shortcuts: Seq<Shortcut>) -> Seq<Seq<char>> {
    shortcuts.map_values(|s: Shortcut| s.name@)
}

/// Whether `name` is one of the names of `shortcuts`.
fn contains_shortcut_name(shortcuts: &Vec<Shortcut>, name: &String) -> (r: bool)
    ensures
        r == shortcut_names(shortcuts@).contains(name@),
{
    let mut i: usize = 0;
    while i < shortcuts.len()
        invariant
            i <= shortcuts.len(),
            forall|j: int| 0 <= j < i ==> shortcut_names(shortcuts@)[j] != name@,
        decreases shortcuts.len() - i,
    {
        proof {
            assert(shortcut_names(shortcuts@)[i as int] == shortcuts@[i as int].name@);
        }
        if shortcuts[i].name == *name {
            return true;
        }
        i = i + 1;
    }
    false
}

impl Shortcut {
    /// Record a shortcut.  A fresh name is always recorded; recording
    /// over an existing name happens only when the caller confirmed the
    /// replacement, and appends the new entry after the old one — the
    /// old entry stays, and lookup keeps finding it first.
    pub fn add(
        shortcuts: &mut Vec<Shortcut>,
        name: String,
        command: String,
        replace: bool,
    ) -> (added: bool)
        ensures
            added == (!shortcut_names(old(shortcuts)@).contains(name@) || replace),
            added ==> final(shortcuts)@ == old(shortcuts)@.push(Shortcut { name, command }),
            !added ==> final(shortcuts)@ == old(shortcuts)@,
    {
        if contains_shortcut_name(shortcuts, &name) {
            if replace {
                shortcuts.push(Shortcut { name, command });
                true
            } else {
                false
            }
        } else {
            shortcuts.push(Shortcut { name, command });
            true
        }
    }

    /// Remove the first shortcut with the selected name, if any.
    pub fn remove(shortcuts: &mut Vec<Shortcut>, name: &String) -> (removed: bool)
        ensures
            removed == shortcut_names(old(shortcuts)@).contains(name@),
            !removed ==> final(shortcuts)@ == old(shortcuts)@,
            removed ==> exists|i: int|
                0 <= i < old(shortcuts)@.len() && (#[trigger] old(shortcuts)@[i]).name@ == name@
                    && (forall|j: int|
                    0 <= j < i ==> (#[trigger] old(shortcuts)@[j]).name@ != name@)
                    && final(shortcuts)@ == old(shortcuts)@.remove(i),
    {
        let mut i: usize = 0;
        while i < shortcuts.len()
            invariant
                i <= shortcuts.len(),
                shortcuts@ == old(shortcuts)@,
                forall|j: int| 0 <= j < i ==> (#[trigger] shortcuts@[j]).name@ != name@,
            decreases shortcuts.len() - i,
        {
            if shortcuts[i].name == *name {
                let ghost found: int = i as int;
                shortcuts.remove(i);
                proof {
                    assert(shortcut_names(old(shortcuts)@)[found] == name@);
                }
                return true;
            }
            i = i + 1;
        }
        proof {
            if shortcut_names(shortcuts@).contains(name@) {
                let j = choose|j: int|
                    0 <= j < shortcut_names(shortcuts@).len() && shortcut_names(shortcuts@)[j]
                        == name@;
                assert(shortcuts@[j].name@ == name@);
            }
        }
        false
    }

    /// The command of the first shortcut with the given name: what
    /// executing a named shortcut runs.
    pub fn find_command(shortcuts: &Vec<Shortcut>, name: &String) -> (r: Option<String>)
        ensures
            r is Some <==> shortcut_names(shortcuts@).contains(name@),
            r is Some ==> exists|i: int|
                0 <= i < shortcuts@.len() && (#[trigger] shortcuts@[i]).name@ == name@
                    && shortcuts@[i].command@ == r->0@ && (forall|j: int|
                    0 <= j < i ==> (#[trigger] shortcuts@[j]).name@ != name@),
    {
        let mut i: usize = 0;
        while i < shortcuts.len()
            invariant
                i <= shortcuts.len(),
                forall|j: int| 0 <= j < i ==> (#[trigger] shortcuts@[j]).name@ != name@,
            decreases shortcuts.len() - i,
        {
            if shortcuts[i].name == *name {
                proof {
                    assert(shortcut_names(shortcuts@)[i as int] == name@);
                }
                return Some(shortcuts[i].command.clone());
            }
            i = i + 1;
        }
        proof {
            if shortcut_names(shortcuts@).contains(name@) {
                let j = choose|j: int|
                    0 <= j < shortcut_names(shortcuts@).len() && shortcut_names(shortcuts@)[j]
                        == name@;
                assert(shortcuts@[j].name@ == name@);
            }
        }
        None
    }
}

/// One configured git hosting account, as this tool reads it: the login
/// and token it authenticates with, the personal URL, any organisation
/// URLs, and which of those URLs is the default.
#[derive(Debug, Clone, PartialEq, Eq)]
pub struct GitAccount {
    pub login: String,
    pub token: String,
    pub personal_url: String,
    pub org_urls: Vec<String>,
    pub default_url: String,
}

/// The logins of an account list, in order.
pub open spec fn account_logins(accounts: Seq<GitAccount>) -> Seq<Seq<char>> {
    accounts.map_values(|a: GitAccount| a.login@)
}

/// The configured git accounts, with an optional default login.
#[derive(Debug, Clone, PartialEq, Eq)]
pub struct GitConfig {
    pub git_accounts: Option<Vec<GitAccount>>,
    pub default_account: Option<String>,
}

/// Whether `login` is one of the logins of `accounts`.
fn contains_login(accounts: &Vec<GitAccount>, login: &String) -> (r: bool)
    ensures
        r == account_logins(accounts@).contains(login@),
{
    let mut i: usize = 0;
    while i < accounts.len()
        invariant
            i <= accounts.len(),
            forall|j: int| 0 <= j < i ==> account_logins(accounts@)[j] != login@,
        decreases accounts.len() - i,
    {
        proof {
            assert(account_logins(accounts@)[i as int] == accounts@[i as int].login@);
        }
        if accounts[i].login == *login {
            return true;
        }
        i = i + 1;
    }
    false
}

/// The spec-level content of an account: every field as its view.
pub open spec fn account_model(a: GitAccount) -> (
    Seq<char>,
    Seq<char>,
    Seq<char>,
    Seq<Seq<char>>,
    Seq<char>,
) {
    (a.login@, a.token@, a.personal_url@, a.org_urls.deep_view(), a.default_url@)
}

/// A copy of an account, field by field.
fn clone_account(a: &GitAccount) -> (r: GitAccount)
    ensures
        account_model(r) == account_model(*a),
{
    let mut org_urls: Vec<String> = Vec::new();
    let mut i: usize = 0;
    while i < a.org_urls.len()
        invariant
            i <= a.org_urls.len(),
            org_urls@ == a.org_urls@.subrange(0, i as int),
        decreases a.org_urls.len() - i,
    {
        org_urls.push(a.org_urls[i].clone());
        proof {
            assert(org_urls@ =~= a.org_urls@.subrange(0, i + 1));
        }
        i = i + 1;
    }
    proof {
        assert(org_urls@ =~= a.org_urls@);
        assert(org_urls.deep_view() =~= a.org_urls.deep_view());
    }
    GitAccount {
        login: a.login.clone(),
        token: a.token.clone(),
        personal_url: a.personal_url.clone(),
        org_urls,
        default_url: a.default_url.clone(),
    }
}

impl GitConfig {
    /// Record an account: a fresh login joins the list, and the very
    /// first account recorded becomes the default.
    pub fn add_account(&mut self, account: GitAccount) -> (added: bool)
        ensures
            match old(self).git_accounts {
                None => added && final(self).git_accounts is Some && final(self).git_accounts->0@ =~= seq![account] && default_is(
                    final(self).default_account,
                    account.login@,
                ),
                Some(accounts) => {
                    &&& added == !account_logins(accounts@).contains(account.login@)
                    &&& (!added ==> *final(self) == *old(self))
                    &&& (added ==> final(self).git_accounts is Some && final(self).git_accounts->0@ == accounts@.push(account) && (if accounts@.len() == 0 {
                        default_is(final(self).default_account, account.login@)
                    } else {
                        final(self).default_account == old(self).default_account
                    }))
                },
            },
    {
        match self.git_accounts.take() {
            Some(mut accounts) => {
                if contains_login(&accounts, &account.login) {
                    self.git_accounts = Some(accounts);
                    false
                } else {
                    let was_empty = accounts.len() == 0;
                    let login = account.login.clone();
                    accounts.push(account);
                    self.git_accounts = Some(accounts);
                    if was_empty {
                        self.default_account = Some(login);
                    }
                    true
                }
            },
            None => {
                let login = account.login.clone();
                let mut accounts: Vec<GitAccount> = Vec::new();
                accounts.push(account);
                self.git_accounts = Some(accounts);
                self.default_account = Some(login);
                true
            },
        }
    }

    /// Remove the account with the selected login, repairing the
    /// default: when the removed account was the default, the first
    /// remaining account's login becomes the default, or none is left.
    #[verifier::loop_isolation(false)]
    pub fn remove_account(&mut self, selected_login: &String) -> (removed: bool)
        ensures
            old(self).git_accounts is None ==> !removed && *final(self) == *old(self),
            old(self).git_accounts is Some ==> {
                &&& removed == account_logins(old(self).git_accounts->0@).contains(
                    selected_login@,
                )
                &&& (!removed ==> *final(self) == *old(self))
                &&& (removed ==> final(self).git_accounts is Some && exists|i: int|
                    0 <= i < old(self).git_accounts->0@.len() && (#[trigger] old(self).git_accounts->0@[i]).login@ == selected_login@ && final(self).git_accounts->0@ == old(self).git_accounts->0@.remove(i))
                &&& (removed ==> (if default_is(old(self).default_account, selected_login@) {
                    if final(self).git_accounts->0@.len() > 0 {
                        default_is(
                            final(self).default_account,
                            final(self).git_accounts->0@[0].login@,
                        )
                    } else {
                        final(self).default_account is None
                    }
                } else {
                    final(self).default_account == old(self).default_account
                }))
            },
    {
        let mut accounts = match self.git_accounts.take() {
            None => {
                return false;
            },
            Some(accounts) => accounts,
        };
        let mut i: usize = 0;
        while i < accounts.len()
            invariant
                i <= accounts.len(),
                accounts == old(self).git_accounts->0,
                self.git_accounts is None,
                self.default_account == old(self).default_account,
                forall|j: int| 0 <= j < i ==> (#[trigger] accounts@[j]).login@ != selected_login@,
            decreases accounts.len() - i,
        {
            if accounts[i].login == *selected_login {
                let ghost found: int = i as int;
                accounts.remove(i);
                let was_default = match &self.default_account {
                    Some(d) => *d == *selected_login,
                    None => false,
                };
                let has_rest = accounts.len() > 0;
                let first = if has_rest {
                    Some(accounts[0].login.clone())
                } else {
                    None
                };
                self.git_accounts = Some(accounts);
                if was_default {
                    self.default_account = first;
                }
                proof {
                    assert(account_logins(old(self).git_accounts->0@)[found]
                        == selected_login@);
                }
                return true;
            }
            i = i + 1;
        }
        self.git_accounts = Some(accounts);
        proof {
            assert(old(self).git_accounts == Some(old(self).git_accounts->0));
            assert(self.git_accounts == old(self).git_accounts);
            if account_logins(old(self).git_accounts->0@).contains(selected_login@) {
                let j = choose|j: int|
                    0 <= j < account_logins(old(self).git_accounts->0@).len() && account_logins(
                        old(self).git_accounts->0@,
                    )[j] == selected_login@;
                assert(old(self).git_accounts->0@[j].login@ == selected_login@);
            }
        }
        false
    }

    /// Make the selected login the default account; with no accounts
    /// configured there is nothing to select.
    pub fn set_default_account(&mut self, selected_login: String) -> (changed: bool)
        ensures
            final(self).git_accounts == old(self).git_accounts,
            changed == (old(self).git_accounts is Some && old(self).git_accounts->0@.len() > 0),
            changed ==> default_is(final(self).default_account, selected_login@),
            !changed ==> final(self).default_account == old(self).default_account,
    {
        match &self.git_accounts {
            Some(accounts) => {
                if accounts.len() == 0 {
                    false
                } else {
                    self.default_account = Some(selected_login);
                    true
                }
            },
            None => false,
        }
    }

    /// Set the default URL of the account with the selected login to the
    /// selected URL; an unknown login changes nothing.
    #[verifier::loop_isolation(false)]
    pub fn set_default_url(&mut self, selected_login: &String, selected_default: String) -> (
        changed: bool)
        ensures
            final(self).default_account == old(self).default_account,
            old(self).git_accounts is None ==> !changed && *final(self) == *old(self),
            old(self).git_accounts is Some ==> {
                &&& changed == account_logins(old(self).git_accounts->0@).contains(
                    selected_login@,
                )
                &&& (!changed ==> *final(self) == *old(self))
                &&& (changed ==> final(self).git_accounts is Some && exists|i: int|
                    {
                        &&& 0 <= i < old(self).git_accounts->0@.len()
                        &&& (#[trigger] old(self).git_accounts->0@[i]).login@ == selected_login@
                        &&& final(self).git_accounts->0@.len() == old(self).git_accounts->0@.len()
                        &&& (forall|j: int|
                            0 <= j < old(self).git_accounts->0@.len() && j != i ==> final(self).git_accounts->0@[j] == old(self).git_accounts->0@[j])
                        &&& final(self).git_accounts->0@[i].login == old(self).git_accounts->0@[i].login
                        &&& final(self).git_accounts->0@[i].token == old(self).git_accounts->0@[i].token
                        &&& final(self).git_accounts->0@[i].personal_url == old(self).git_accounts->0@[i].personal_url
                        &&& final(self).git_accounts->0@[i].org_urls == old(self).git_accounts->0@[i].org_urls
                        &&& final(self).git_accounts->0@[i].default_url@ == selected_default@
                    })
            },
    {
        let mut accounts = match self.git_accounts.take() {
            None => {
                return false;
            },
            Some(accounts) => accounts,
        };
        let mut i: usize = 0;
        while i < accounts.len()
            invariant
                i <= accounts.len(),
                accounts == old(self).git_accounts->0,
                self.git_accounts is None,
                self.default_account == old(self).default_account,
                forall|j: int| 0 <= j < i ==> (#[trigger] accounts@[j]).login@ != selected_login@,
            decreases accounts.len() - i,
        {
            if accounts[i].login == *selected_login {
                let ghost found: int = i as int;
                let acc = accounts.remove(i);
                let updated = GitAccount {
                    login: acc.login,
                    token: acc.token,
                    personal_url: acc.personal_url,
                    org_urls: acc.org_urls,
                    default_url: selected_default,
                };
                accounts.insert(i, updated);
                self.git_accounts = Some(accounts);
                proof {
                    assert(account_logins(old(self).git_accounts->0@)[found]
                        == selected_login@);
                }
                return true;
            }
            i = i + 1;
        }
        self.git_accounts = Some(accounts);
        proof {
            assert(old(self).git_accounts == Some(old(self).git_accounts->0));
            assert(self.git_accounts == old(self).git_accounts);
            if account_logins(old(self).git_accounts->0@).contains(selected_login@) {
                let j = choose|j: int|
                    0 <= j < account_logins(old(self).git_accounts->0@).len() && account_logins(
                        old(self).git_accounts->0@,
                    )[j] == selected_login@;
                assert(old(self).git_accounts->0@[j].login@ == selected_login@);
            }
        }
        false
    }

    /// The configured accounts, or nothing when none were configured.
    pub fn get_accounts(&self) -> (r: Vec<GitAccount>)
        ensures
            self.git_accounts is Some ==> r@.len() == self.git_accounts->0@.len() && forall|i: int|
                0 <= i < r@.len() ==> account_model(#[trigger] r@[i]) == account_model(
                    self.git_accounts->0@[i],
                ),
            self.git_accounts is None ==> r@.len() == 0,
    {
        match &self.git_accounts {
            Some(accounts) => {
                let mut r: Vec<GitAccount> = Vec::new();
                let mut i: usize = 0;
                while i < accounts.len()
                    invariant
                        i <= accounts.len(),
                        r@.len() == i,
                        forall|j: int|
                            0 <= j < i ==> account_model(#[trigger] r@[j]) == account_model(
                                accounts@[j],
                            ),
                    decreases accounts.len() - i,
                {
                    r.push(clone_account(&accounts[i]));
                    i = i + 1;
                }
                r
            },
            None => Vec::new(),
        }
    }

    /// The account that the default login names, if both exist.
    #[verifier::loop_isolation(false)]
    pub fn get_default_account(&self) -> (r: Option<GitAccount>)
        ensures
            match r {
                Some(acc) => self.default_account is Some && self.git_accounts is Some
                    && exists|i: int|
                    0 <= i < self.git_accounts->0@.len() && account_model(
                        #[trigger] self.git_accounts->0@[i],
                    ) == account_model(acc) && acc.login@ == self.default_account->0@ && (
                    forall|j: int|
                        0 <= j < i ==> (#[trigger] self.git_accounts->0@[j]).login@
                            != self.default_account->0@),
                None => self.default_account is None || self.git_accounts is None || forall|i: int|
                    0 <= i < self.git_accounts->0@.len()
                        ==> (#[trigger] self.git_accounts->0@[i]).login@
                        != self.default_account->0@,
            },
    {
        let login = match &self.default_account {
            None => {
                return None;
            },
            Some(login) => login,
        };
        let accounts = match &self.git_accounts {
            None => {
                return None;
            },
            Some(accounts) => accounts,
        };
        let mut i: usize = 0;
        while i < accounts.len()
            invariant
                i <= accounts.len(),
                forall|j: int| 0 <= j < i ==> (#[trigger] accounts@[j]).login@ != login@,
            decreases accounts.len() - i,
        {
            if accounts[i].login == *login {
                let acc = clone_account(&accounts[i]);
                proof {
                    assert(account_model(self.git_accounts->0@[i as int]) == account_model(acc));
                }
                return Some(acc);
            }
            i = i + 1;
        }
        None
    }

    /// The default account's login, its default URL, and whether that
    /// URL is one of the account's organisation URLs.
    #[verifier::loop_isolation(false)]
    pub fn get_default_account_and_url(&self) -> (r: Option<(String, String, bool)>)
        ensures
            match r {
                Some(t) => self.default_account is Some && self.git_accounts is Some
                    && exists|i: int|
                    {
                        &&& 0 <= i < self.git_accounts->0@.len()
                        &&& (#[trigger] self.git_accounts->0@[i]).login@
                            == self.default_account->0@
                        &&& t.0@ == self.git_accounts->0@[i].login@
                        &&& t.1@ == self.git_accounts->0@[i].default_url@
                        &&& t.2 == self.git_accounts->0@[i].org_urls.deep_view().contains(
                            self.git_accounts->0@[i].default_url@,
                        )
                    },
                None => self.default_account is None || self.git_accounts is None || forall|i: int|
                    0 <= i < self.git_accounts->0@.len()
                        ==> (#[trigger] self.git_accounts->0@[i]).login@
                        != self.default_account->0@,
            },
    {
        let acc = match self.get_default_account() {
            None => {
                return None;
            },
            Some(acc) => acc,
        };
        let mut is_org = false;
        let mut i: usize = 0;
        while i < acc.org_urls.len()
            invariant
                i <= acc.org_urls.len(),
                is_org == exists|j: int|
                    0 <= j < i && acc.org_urls.deep_view()[j] == acc.default_url@,
            decreases acc.org_urls.len() - i,
        {
            proof {
                assert(acc.org_urls.deep_view()[i as int] == acc.org_urls@[i as int]@);
            }
            if acc.org_urls[i] == acc.default_url {
                is_org = true;
            }
            i = i + 1;
        }
        proof {
            if acc.org_urls.deep_view().contains(acc.default_url@) {
                let j = choose|j: int|
                    0 <= j < acc.org_urls.deep_view().len() && acc.org_urls.deep_view()[j]
                        == acc.default_url@;
                assert(0 <= j < acc.org_urls.len());
            }
        }
        let url = acc.default_url.clone();
        Some((acc.login, url, is_org))
    }
}

/// One manifest author.
#[derive(Debug, Clone, PartialEq, Eq)]
pub struct Author {
    pub name: String,
    pub organization: String,
    pub email: String,
}

/// The emails of an author list, in order.
pub open spec fn author_emails(authors: Seq<Author>) -> Seq<Seq<char>> {
    authors.map_values(|a: Author| a.email@)
}

/// The manifest authorship defaults: authors, a default author's email,
/// and a default license.
#[derive(Debug, Clone, PartialEq, Eq)]
pub struct CargoTomlConfig {
    pub authors: Option<Vec<Author>>,
    pub default_author: Option<String>,
    pub default_license: Option<String>,
}

/// Whether `email` is one of the emails of `authors`.
fn contains_email(authors: &Vec<Author>, email: &String) -> (r: bool)
    ensures
        r == author_emails(authors@).contains(email@),
{
    let mut i: usize = 0;
    while i < authors.len()
        invariant
            i <= authors.len(),
            forall|j: int| 0 <= j < i ==> author_emails(authors@)[j] != email@,
        decreases authors.len() - i,
    {
        proof {
            assert(author_emails(authors@)[i as int] == authors@[i as int].email@);
        }
        if authors[i].email == *email {
            return true;
        }
        i = i + 1;
    }
    false
}

impl CargoTomlConfig {
    /// Record an author: a fresh email joins the list, and the very
    /// first author recorded becomes the default.
    pub fn add_author(&mut self, author: Author) -> (added: bool)
        ensures
            final(self).default_license == old(self).default_license,
            match old(self).authors {
                None => added && final(self).authors is Some && final(self).authors->0@
                    =~= seq![author] && default_is(final(self).default_author, author.email@),
                Some(authors) => {
                    &&& added == !author_emails(authors@).contains(author.email@)
                    &&& (!added ==> *final(self) == *old(self))
                    &&& (added ==> final(self).authors is Some && final(self).authors->0@
                        == authors@.push(author) && (if authors@.len() == 0 {
                        default_is(final(self).default_author, author.email@)
                    } else {
                        final(self).default_author == old(self).default_author
                    }))
                },
            },
    {
        match self.authors.take() {
            Some(mut authors) => {
                if contains_email(&authors, &author.email) {
                    self.authors = Some(authors);
                    false
                } else {
                    let was_empty = authors.len() == 0;
                    let email = author.email.clone();
                    authors.push(author);
                    self.authors = Some(authors);
                    if was_empty {
                        self.default_author = Some(email);
                    }
                    true
                }
            },
            None => {
                let email = author.email.clone();
                let mut authors: Vec<Author> = Vec::new();
                authors.push(author);
                self.authors = Some(authors);
                self.default_author = Some(email);
                true
            },
        }
    }

    /// Remove the author with the selected email, repairing the default:
    /// when the removed author was the default, the first remaining
    /// author's email becomes the default, or none is left.
    #[verifier::loop_isolation(false)]
    pub fn remove_author(&mut self, selected_email: &String) -> (removed: bool)
        ensures
            final(self).default_license == old(self).default_license,
            old(self).authors is None ==> !removed && *final(self) == *old(self),
            old(self).authors is Some ==> {
                &&& removed == author_emails(old(self).authors->0@).contains(selected_email@)
                &&& (!removed ==> *final(self) == *old(self))
                &&& (removed ==> final(self).authors is Some && exists|i: int|
                    0 <= i < old(self).authors->0@.len() && (#[trigger] old(self).authors->0@[i]).email@ == selected_email@ && final(self).authors->0@
                        == old(self).authors->0@.remove(i))
                &&& (removed ==> (if default_is(old(self).default_author, selected_email@) {
                    if final(self).authors->0@.len() > 0 {
                        default_is(final(self).default_author, final(self).authors->0@[0].email@)
                    } else {
                        final(self).default_author is None
                    }
                } else {
                    final(self).default_author == old(self).default_author
                }))
            },
    {
        let mut authors = match self.authors.take() {
            None => {
                return false;
            },
            Some(authors) => authors,
        };
        let mut i: usize = 0;
        while i < authors.len()
            invariant
                i <= authors.len(),
                authors == old(self).authors->0,
                self.authors is None,
                self.default_author == old(self).default_author,
                self.default_license == old(self).default_license,
                forall|j: int| 0 <= j < i ==> (#[trigger] authors@[j]).email@ != selected_email@,
            decreases authors.len() - i,
        {
            if authors[i].email == *selected_email {
                let ghost found: int = i as int;
                authors.remove(i);
                let was_default = match &self.default_author {
                    Some(d) => *d == *selected_email,
                    None => false,
                };
                let has_rest = authors.len() > 0;
                let first = if has_rest {
                    Some(authors[0].email.clone())
                } else {
                    None
                };
                self.authors = Some(authors);
                if was_default {
                    self.default_author = first;
                }
                proof {
                    assert(author_emails(old(self).authors->0@)[found] == selected_email@);
                }
                return true;
            }
            i = i + 1;
        }
        self.authors = Some(authors);
        proof {
            assert(old(self).authors == Some(old(self).authors->0));
            assert(self.authors == old(self).authors);
            if author_emails(old(self).authors->0@).contains(selected_email@) {
                let j = choose|j: int|
                    0 <= j < author_emails(old(self).authors->0@).len() && author_emails(
                        old(self).authors->0@,
                    )[j] == selected_email@;
                assert(old(self).authors->0@[j].email@ == selected_email@);
            }
        }
        false
    }

    /// Make the selected email the default author; with no authors
    /// configured there is nothing to select.
    pub fn set_default_author(&mut self, selected_email: String) -> (changed: bool)
        ensures
            final(self).authors == old(self).authors,
            final(self).default_license == old(self).default_license,
            changed == (old(self).authors is Some && old(self).authors->0@.len() > 0),
            changed ==> default_is(final(self).default_author, selected_email@),
            !changed ==> final(self).default_author == old(self).default_author,
    {
        match &self.authors {
            Some(authors) => {
                if authors.len() == 0 {
                    false
                } else {
                    self.default_author = Some(selected_email);
                    true
                }
            },
            None => false,
        }
    }

    /// Record the entered license as the default, and hand it back.
    pub fn set_default_license(&mut self, license: String) -> (r: String)
        ensures
            final(self).authors == old(self).authors,
            final(self).default_author == old(self).default_author,
            default_is(final(self).default_license, license@),
            r@ == license@,
    {
        let r = license.clone();
        self.default_license = Some(license);
        r
    }
}

/// The whole persisted configuration.
#[derive(Debug)]
pub struct Config {
    pub git: GitConfig,
    pub cargo_toml: CargoTomlConfig,
    pub devices: DeviceConfig,
    pub shortcuts: Vec<Shortcut>,
}

impl Config {
    /// The configuration a fresh installation starts from: everything
    /// empty, nothing default.
    pub fn new() -> (r: Config)
        ensures
            r.git.git_accounts is None,
            r.git.default_account is None,
            r.cargo_toml.authors is None,
            r.cargo_toml.default_author is None,
            r.cargo_toml.default_license is None,
            r.devices.ios@.len() == 0,
            r.devices.android@.len() == 0,
            r.devices.default_ios is None,
            r.devices.default_android is None,
            r.shortcuts@.len() == 0,
    {
        Config {
            git: GitConfig { git_accounts: None, default_account: None },
            cargo_toml: CargoTomlConfig {
                authors: None,
                default_author: None,
                default_license: None,
            },
            devices: DeviceConfig {
                ios: Vec::new(),
                android: Vec::new(),
                default_ios: None,
                default_android: None,
            },
            shortcuts: Vec::new(),
        }
    }
}

} // verus!
