//! Whole procedures, carried out on files and processes that are held in memory.

use std::collections::{BTreeMap, BTreeSet};

use codex_account_hub::accounts::{AccountIndex, AccountInfo, SavedAccount, INDEX_VERSION};
use codex_account_hub::app_server::{
    query_usage, to_snapshot, QueryUsage, UsageAction, UsageEvent, UsageSnapshot,
};
use codex_account_hub::child_process::{stop, ChildRecord, Identity, Record, Stop};
use codex_account_hub::codex_desktop::RestartOutcome;
use codex_account_hub::commands::{
    log_in, query_saved_usage, switch_saved_account, Login, LoginAction, LoginEvent, LoginPhase,
    Purpose, QuerySaved, ReauthorizationOutcome, SavedAction, SavedEvent, Switch, SwitchAction,
    SwitchEvent, SwitchOutcome,
};
use codex_account_hub::credentials::auth_identity;
use codex_account_hub::effects::{Action, Entry, Event, Home, HomeFile, Place, Step};
use codex_account_hub::json::parse;
use codex_account_hub::login::{LoginState, WaitAction, WaitChild, WaitEvent};
use codex_account_hub::paths::{place_path, Base};
use codex_account_hub::recovery::{
    begin, clear_child, cleanup_login, ensure_idle, ensure_no_pending, finish, record_child, run,
    Begin, CheckedRemove, CleanLogin, EnsureIdle, Pending, RecordChild, Report, Run, Transaction,
};
use codex_account_hub::vault::{
    activate_account, cleanup_stale_login_auth, complete_reauthorization, current_account_id,
    delete_account, finish_isolated_home, import_current, isolated_account_id, list_accounts,
    load_saved_auth, prepare_isolated_home, prune_switch_backups, remove_plain_auth,
    rename_account, replace_current_auth, save_current_before_switch, Activate, CleanLogins,
    Delete, Finish, Import, LoadSaved, Prepare, Prune, Reauthorize, RemovePlain, Rename, Replace,
    SaveCurrent,
};

const OLD: &[u8] = br#"{"tokens":{"access_token":"fixture-old","account_id":"fixture-a"}}"#;
const NEW: &[u8] = br#"{"tokens":{"access_token":"fixture-renewed","account_id":"fixture-a"}}"#;
const OTHER: &[u8] = br#"{"tokens":{"access_token":"fixture-other","account_id":"fixture-b"}}"#;
const TARGET: &[u8] = br#"{"tokens":{"access_token":"fixture-new","account_id":"fixture-b"}}"#;
const EXTERNAL: &[u8] =
    br#"{"tokens":{"access_token":"fixture-external","account_id":"fixture-c"}}"#;
const HOME: &str = "C:\\Users\\fixture\\.codex";
const OWN: u32 = 4;

/// How the credentials are found after they were written.
#[derive(Clone, Copy, PartialEq)]
enum Sabotage {
    Unreadable,
    Garbage,
    WrongAccount,
    UnreadableAndBlocked,
}

/// Files, processes and a clock.
struct Hub {
    files: BTreeMap<String, Vec<u8>>,
    blocked: BTreeSet<String>,
    linked: BTreeSet<String>,
    index: Option<AccountIndex>,
    damaged_index: bool,
    index_is_read_only: bool,
    sealing_fails: bool,
    transactions: Vec<Transaction>,
    records: Vec<Record>,
    running: BTreeMap<u32, Identity>,
    ended: Vec<u32>,
    held: Option<u32>,
    sabotage: Option<Sabotage>,
    sabotaged: bool,
    seen: Option<Vec<u8>>,
    seconds: u64,
    sleeps: u32,
    ends_after: Option<(u32, u32)>,
    log: Vec<String>,
}

fn key(place: &Place) -> String {
    let (base, names) = place_path(place);
    let root = match base {
        Base::CodexHome => "codex".to_string(),
        Base::DataDir => "data".to_string(),
    };
    let mut path = root;
    for name in names.iter() {
        path = format!("{path}/{name}");
    }
    path
}

fn seal(plain: &[u8]) -> Vec<u8> {
    let mut sealed = b"sealed:".to_vec();
    for byte in plain.iter() {
        sealed.push(byte ^ 0x5a);
    }
    sealed
}

fn unseal(sealed: &[u8]) -> Option<Vec<u8>> {
    let rest = sealed.strip_prefix(b"sealed:".as_slice())?;
    Some(rest.iter().map(|byte| byte ^ 0x5a).collect())
}

fn identity(pid: u32) -> Identity {
    Identity { pid, created: 1000 + pid as u64, image: format!("C:\\bin\\{pid}.exe") }
}

fn copy_identity(of: &Identity) -> Identity {
    Identity { pid: of.pid, created: of.created, image: of.image.clone() }
}

fn copy_record(of: &Record) -> Record {
    Record {
        version: of.version,
        process: copy_identity(&of.process),
        owner: copy_identity(&of.owner),
    }
}

fn copy_transaction(of: &Transaction) -> Transaction {
    Transaction {
        version: of.version,
        codex_home: of.codex_home.clone(),
        target_id: of.target_id.clone(),
        target_hash: of.target_hash.clone(),
        before: of.before.clone(),
    }
}

fn auth_of(home: &Home) -> Place {
    Place::InHome(home.clone(), HomeFile::Auth)
}

fn active() -> Place {
    auth_of(&Home::Active)
}

fn login(name: &str) -> Home {
    Home::Login(name.to_string())
}

fn id_of(auth: &[u8]) -> String {
    auth_identity(auth).unwrap()
}

impl Hub {
    fn new() -> Hub {
        let mut running = BTreeMap::new();
        running.insert(OWN, identity(OWN));
        Hub {
            files: BTreeMap::new(),
            blocked: BTreeSet::new(),
            linked: BTreeSet::new(),
            index: None,
            damaged_index: false,
            index_is_read_only: false,
            sealing_fails: false,
            transactions: Vec::new(),
            records: Vec::new(),
            running,
            ended: Vec::new(),
            held: None,
            sabotage: None,
            sabotaged: false,
            seen: None,
            seconds: 1_700_000_000,
            sleeps: 0,
            ends_after: None,
            log: Vec::new(),
        }
    }

    fn with_login(auth: &[u8]) -> Hub {
        let mut hub = Hub::new();
        hub.put(&active(), auth);
        hub
    }

    fn put(&mut self, place: &Place, bytes: &[u8]) {
        self.files.insert(key(place), bytes.to_vec());
    }

    fn get(&self, place: &Place) -> Option<Vec<u8>> {
        self.files.get(&key(place)).cloned()
    }

    fn remove(&mut self, place: &Place) {
        self.files.remove(&key(place));
    }

    fn block(&mut self, place: &Place) {
        self.blocked.insert(key(place));
    }

    fn opened(&self, place: &Place) -> Option<Vec<u8>> {
        unseal(&self.get(place)?)
    }

    fn backups(&self) -> Vec<Vec<u8>> {
        self.files
            .iter()
            .filter(|(path, _)| path.starts_with("data/switch-backups/"))
            .map(|(_, bytes)| unseal(bytes).unwrap())
            .collect()
    }

    fn failed(&self, path: String, error: &str) -> Event {
        Event::Failed { path, error: error.to_string() }
    }

    fn missing(&self, path: String) -> Event {
        Event::Missing { path, error: "系统找不到指定的文件。 (os error 2)".to_string() }
    }

    fn read(&self, place: &Place) -> Event {
        let path = key(place);
        if self.blocked.contains(&path) {
            return self.failed(path, "拒绝访问。 (os error 5)");
        }
        match self.files.get(&path) {
            Some(bytes) => Event::Bytes(bytes.clone()),
            None => self.missing(path),
        }
    }

    fn observe(&self, pid: u32) -> Event {
        match self.running.get(&pid) {
            Some(process) => Event::Alive(copy_identity(process)),
            None => Event::Gone,
        }
    }

    fn names_in(&self, directory: &str) -> Vec<String> {
        let prefix = format!("{directory}/");
        let mut names = BTreeSet::new();
        for path in self.files.keys() {
            if let Some(rest) = path.strip_prefix(&prefix) {
                names.insert(rest.split('/').next().unwrap().to_string());
            }
        }
        names.into_iter().collect()
    }

    fn perform(&mut self, action: Action) -> Event {
        match action {
            Action::Read(place) => {
                if self.sabotaged && key(&place) == key(&active()) {
                    self.sabotaged = false;
                    self.seen = self.get(&place);
                    return match self.sabotage.take().unwrap() {
                        Sabotage::Unreadable => {
                            self.failed(key(&place), "无法读取认证文件")
                        }
                        Sabotage::Garbage => Event::Bytes(b"not-json".to_vec()),
                        Sabotage::WrongAccount => Event::Bytes(OTHER.to_vec()),
                        Sabotage::UnreadableAndBlocked => {
                            self.block(&Place::InHome(Home::Active, HomeFile::SwitchDraft));
                            self.failed(key(&place), "校验读取失败")
                        }
                    };
                }
                self.read(&place)
            }
            Action::Write(place, bytes) => {
                let path = key(&place);
                if self.blocked.contains(&path) {
                    return Event::Rejected("写入临时文件失败：拒绝访问。 (os error 5)".to_string());
                }
                self.log.push(format!("write {path}"));
                self.files.insert(path, bytes);
                Event::Done
            }
            Action::ReplaceActive(bytes) => {
                if self.blocked.contains(&key(&Place::InHome(Home::Active, HomeFile::SwitchDraft)))
                {
                    return Event::Rejected(
                        "无法清理旧切换临时文件：拒绝访问。 (os error 5)".to_string(),
                    );
                }
                self.log.push("replace".to_string());
                self.put(&active(), &bytes);
                self.sabotaged = self.sabotage.is_some();
                Event::Done
            }
            Action::Remove(place) => {
                let path = key(&place);
                if self.blocked.contains(&path) {
                    return self.failed(path, "拒绝访问。 (os error 5)");
                }
                self.log.push(format!("remove {path}"));
                match self.files.remove(&path) {
                    Some(_) => Event::Done,
                    None => self.missing(path),
                }
            }
            Action::RemoveTree(place) => {
                let prefix = format!("{}/", key(&place));
                self.files.retain(|path, _| !path.starts_with(&prefix));
                Event::Done
            }
            Action::Exists(place) => {
                let path = key(&place);
                let prefix = format!("{path}/");
                Event::Present(
                    self.blocked.contains(&path)
                        || self.files.contains_key(&path)
                        || self.files.keys().any(|other| other.starts_with(&prefix)),
                )
            }
            Action::IsDir(place) => {
                let prefix = format!("{}/", key(&place));
                Event::Present(self.files.keys().any(|path| path.starts_with(&prefix)))
            }
            Action::Rename(from, to) => match self.files.remove(&key(&from)) {
                Some(bytes) => {
                    self.files.insert(key(&to), bytes);
                    Event::Done
                }
                None => self.missing(key(&from)),
            },
            Action::CreateDir(_) => Event::Done,
            Action::List(place) => {
                let path = key(&place);
                let names = self.names_in(&path);
                if names.is_empty() {
                    self.missing(path)
                } else {
                    Event::Names(names.into_iter().map(Entry::Named).collect())
                }
            }
            Action::CheckPath(place) => {
                if self.linked.contains(&key(&place)) {
                    Event::Rejected("恢复路径包含链接或重解析点，已停止自动处理".to_string())
                } else {
                    Event::Done
                }
            }
            Action::Seal(plain) => {
                if self.sealing_fails {
                    Event::Rejected("Windows DPAPI 加密失败：5".to_string())
                } else {
                    Event::Bytes(seal(&plain))
                }
            }
            Action::Unseal(sealed) => match unseal(&sealed) {
                Some(plain) => Event::Bytes(plain),
                None => Event::Rejected("Windows DPAPI 解密失败：13".to_string()),
            },
            Action::ReadIndex => {
                if self.damaged_index {
                    return Event::Damaged("expected value at line 1 column 1".to_string());
                }
                match &self.index {
                    Some(index) => Event::Index(AccountIndex {
                        version: index.version,
                        accounts: index.accounts.clone(),
                    }),
                    None => self.missing("data/accounts.json".to_string()),
                }
            }
            Action::WriteIndex(index) => {
                if self.index_is_read_only {
                    return Event::Rejected("写入临时文件失败：拒绝访问。 (os error 5)".to_string());
                }
                self.index = Some(index);
                Event::Done
            }
            Action::Encode(transaction) => {
                self.transactions.push(transaction);
                Event::Bytes(format!("tx:{}", self.transactions.len() - 1).into_bytes())
            }
            Action::Decode(bytes) => {
                let text = String::from_utf8(bytes).unwrap_or_default();
                match text.strip_prefix("tx:").and_then(|number| number.parse::<usize>().ok()) {
                    Some(at) => Event::Journal(copy_transaction(&self.transactions[at])),
                    None => Event::Damaged("expected value".to_string()),
                }
            }
            Action::ReadChild(home) => {
                match self.get(&Place::InHome(home.clone(), HomeFile::Child)) {
                    None => self.missing("hub-child.json".to_string()),
                    Some(bytes) => {
                        let text = String::from_utf8(bytes).unwrap_or_default();
                        if let Some(pid) = text.strip_prefix("legacy:") {
                            return Event::Child(ChildRecord::Legacy(pid.parse().unwrap()));
                        }
                        match text.strip_prefix("record:").and_then(|at| at.parse::<usize>().ok())
                        {
                            Some(at) => Event::Child(ChildRecord::Verified(copy_record(
                                &self.records[at],
                            ))),
                            None => Event::Damaged("data did not match".to_string()),
                        }
                    }
                }
            }
            Action::EncodeChild(record) => {
                self.records.push(record);
                Event::Bytes(format!("record:{}", self.records.len() - 1).into_bytes())
            }
            Action::IsRunning(pid) => Event::Present(self.running.contains_key(&pid)),
            Action::Identify(pid) => self.observe(pid),
            Action::Observe(pid) => self.observe(pid),
            Action::Hold(pid) => {
                self.held = Some(pid);
                self.observe(pid)
            }
            Action::TerminateHeld => {
                let pid = self.held.unwrap();
                self.running.remove(&pid);
                self.ended.push(pid);
                Event::Done
            }
            Action::ObserveHeld => Event::Present(self.running.contains_key(&self.held.unwrap())),
            Action::WaitHeld(_) => {
                if self.running.contains_key(&self.held.unwrap()) {
                    Event::TimedOut
                } else {
                    Event::Exited
                }
            }
            Action::Now => {
                self.seconds += 1;
                Event::Time { seconds: self.seconds, nanos: self.seconds as u128 * 1_000_000_000 }
            }
            Action::Sleep(_) => {
                self.sleeps += 1;
                if let Some((sleeps, pid)) = self.ends_after {
                    if self.sleeps >= sleeps {
                        self.running.remove(&pid);
                    }
                }
                Event::Done
            }
        }
    }

    fn drive<M, T>(
        &mut self,
        first: Step<Action, M, T>,
        resume: impl Fn(M, Event) -> Step<Action, M, T>,
    ) -> Result<T, String> {
        let mut step = first;
        loop {
            match step {
                Step::Done(result) => return result,
                Step::Ask(action, machine) => {
                    let event = self.perform(action);
                    step = resume(machine, event);
                }
            }
        }
    }

    fn import(
        &mut self,
        home: Home,
        account: Option<AccountInfo>,
        label: Option<&str>,
    ) -> Result<SavedAccount, String> {
        let step = import_current(home, account, label.map(|text| text.to_string()));
        self.drive(step, Import::resume)
    }

    fn load(&mut self, id: &str) -> Result<Vec<u8>, String> {
        self.drive(load_saved_auth(id), LoadSaved::resume)
    }

    fn activate(&mut self, id: &str) -> Result<(), String> {
        self.drive(activate_account(id, HOME), Activate::resume)
    }

    fn save_current(&mut self, id: &str) -> Result<(), String> {
        self.drive(save_current_before_switch(id), SaveCurrent::resume)
    }

    fn replace(&mut self, auth: &[u8], id: &str, same: bool) -> Result<(), String> {
        self.drive(replace_current_auth(HOME, auth.to_vec(), id, same), Replace::resume)
    }

    fn reauthorize(&mut self, home: Home, id: &str) -> Result<(SavedAccount, bool), String> {
        self.drive(complete_reauthorization(HOME, home, id, None), Reauthorize::resume)
    }

    fn delete(&mut self, id: &str, current: Option<&str>) -> Result<(), String> {
        let current = current.map(|text| text.to_string());
        self.drive(delete_account(id, &current), Delete::resume)
    }

    fn prepare(&mut self, id: &str) -> Result<Home, String> {
        self.drive(prepare_isolated_home(id), Prepare::resume)
    }

    fn finish_home(&mut self, id: &str) -> Result<(), String> {
        self.drive(finish_isolated_home(id), Finish::resume)
    }

    fn begin(&mut self, target: &[u8], before: Option<&[u8]>) -> Result<(), String> {
        let step = begin(
            HOME,
            &target.to_vec(),
            &id_of(target),
            before.map(|bytes| bytes.to_vec()),
        );
        self.drive(step, Begin::resume)
    }

    fn recover_at(&mut self, home: Result<String, String>) -> Report {
        self.drive(run(home, OWN), Run::resume).unwrap()
    }

    fn recover(&mut self) -> Report {
        self.recover_at(Ok(HOME.to_string()))
    }

    fn record(&mut self, home: &Home, pid: u32) -> Result<(), String> {
        self.drive(record_child(home.clone(), pid, OWN), RecordChild::resume)
    }

    fn listed(&mut self) -> Vec<SavedAccount> {
        let event = self.perform(Action::ReadIndex);
        list_accounts(event).unwrap()
    }
}

#[test]
fn restores_original_state_after_post_write_verification_errors() {
    let target_id = id_of(NEW);
    for sabotage in [Sabotage::Unreadable, Sabotage::Garbage, Sabotage::WrongAccount] {
        let mut hub = Hub::with_login(OLD);
        hub.sabotage = Some(sabotage);
        let error = hub.replace(NEW, &target_id, false).unwrap_err();
        assert_eq!(hub.seen.as_deref(), Some(NEW));
        assert!(error.contains("已恢复原认证状态"));
        assert_eq!(hub.get(&active()).unwrap(), OLD);
        assert!(hub.get(&Place::Journal).is_none());
    }
    let mut hub = Hub::new();
    hub.sabotage = Some(Sabotage::Unreadable);
    assert!(hub.replace(NEW, &target_id, false).is_err());
    assert!(hub.get(&active()).is_none());
}

#[test]
fn recovery_failure_keeps_encrypted_backup_and_reports_partial_result() {
    let mut hub = Hub::with_login(OLD);
    hub.sabotage = Some(Sabotage::UnreadableAndBlocked);
    let error = hub.replace(NEW, &id_of(NEW), false).unwrap_err();
    assert!(error.contains("恢复原认证失败"));
    assert_eq!(
        error,
        "无法验证切换结果：校验读取失败；恢复原认证失败：无法清理旧切换临时文件：拒绝访问。 (os error 5)"
    );
    assert_eq!(hub.get(&active()).unwrap(), NEW);
    assert_eq!(hub.backups(), vec![OLD.to_vec()]);
    assert!(hub.get(&Place::Journal).is_some());
}

#[test]
fn reauthorizes_current_account_and_preserves_new_credentials_across_switches() {
    let mut hub = Hub::with_login(OLD);
    hub.put(&auth_of(&login("login")), NEW);
    hub.put(&auth_of(&login("other")), OTHER);
    let a = hub.import(Home::Active, None, Some("工作")).unwrap();
    let b = hub.import(login("other"), None, None).unwrap();
    let (saved, updated) = hub.reauthorize(login("login"), &a.id).unwrap();
    assert!(updated);
    assert_eq!(saved.label, "工作");
    assert_eq!(hub.get(&active()).unwrap(), NEW);
    assert_eq!(hub.load(&a.id).unwrap(), NEW);
    hub.save_current(&b.id).unwrap();
    hub.activate(&b.id).unwrap();
    hub.save_current(&a.id).unwrap();
    hub.activate(&a.id).unwrap();
    assert_eq!(hub.get(&active()).unwrap(), NEW);
}

#[test]
fn reauthorizing_saved_account_does_not_replace_an_external_login() {
    let mut hub = Hub::with_login(OLD);
    hub.put(&auth_of(&login("login")), NEW);
    let a = hub.import(Home::Active, None, None).unwrap();
    hub.put(&active(), OTHER);
    let (_, updated) = hub.reauthorize(login("login"), &a.id).unwrap();
    assert!(!updated);
    assert_eq!(hub.get(&active()).unwrap(), OTHER);
    assert_eq!(hub.load(&a.id).unwrap(), NEW);
}

#[test]
fn wrong_login_and_failed_active_write_do_not_overwrite_vault() {
    let mut hub = Hub::with_login(OLD);
    hub.put(&auth_of(&login("login")), OTHER);
    let a = hub.import(Home::Active, None, None).unwrap();
    assert!(hub.reauthorize(login("login"), &a.id).is_err());
    assert_eq!(hub.get(&active()).unwrap(), OLD);
    assert_eq!(hub.load(&a.id).unwrap(), OLD);
    hub.put(&auth_of(&login("login")), NEW);
    hub.block(&Place::InHome(Home::Active, HomeFile::SwitchDraft));
    assert!(hub.reauthorize(login("login"), &a.id).is_err());
    assert_eq!(hub.get(&active()).unwrap(), OLD);
    assert_eq!(hub.load(&a.id).unwrap(), OLD);
}

#[test]
fn restores_missing_corrupt_and_same_identity_active_credentials() {
    let mut hub = Hub::new();
    hub.put(&auth_of(&login("source")), NEW);
    let a = hub.import(login("source"), None, None).unwrap();
    hub.save_current(&a.id).unwrap();
    hub.activate(&a.id).unwrap();
    assert_eq!(hub.get(&active()).unwrap(), NEW);
    for auth in [b"not-json".as_slice(), OLD] {
        hub.put(&active(), auth);
        hub.save_current(&a.id).unwrap();
        hub.activate(&a.id).unwrap();
        assert_eq!(hub.get(&active()).unwrap(), NEW);
        assert_eq!(hub.load(&a.id).unwrap(), NEW);
    }
    assert!(hub.backups().iter().any(|backup| backup == b"not-json"));
}

#[test]
fn refuses_unreadable_main_auth_and_mismatched_vault_credentials() {
    let mut hub = Hub::new();
    hub.put(&auth_of(&login("source")), NEW);
    let a = hub.import(login("source"), None, None).unwrap();
    hub.block(&active());
    assert!(hub.save_current(&a.id).is_err());
    hub.blocked.clear();
    hub.put(&active(), NEW);
    hub.put(&Place::Vault(a.id.clone()), &seal(OTHER));
    assert_eq!(hub.activate(&a.id).unwrap_err(), "保存的凭据与目标账号不一致");
    assert_eq!(hub.get(&active()).unwrap(), NEW);
}

#[test]
fn keeps_only_the_newest_switch_backups() {
    let mut hub = Hub::new();
    for number in 0..7 {
        hub.put(&Place::Backup(format!("{number:02}-account.dpapi")), b"test");
    }
    hub.put(&Place::Backup("ignore.txt".to_string()), b"test");
    hub.drive(prune_switch_backups(5), Prune::resume).unwrap();
    let names = hub.names_in("data/switch-backups");
    let kept: Vec<&String> = names.iter().filter(|name| name.ends_with(".dpapi")).collect();
    assert_eq!(kept.len(), 5);
    assert_eq!(kept[0], "02-account.dpapi");
    assert!(hub.get(&Place::Backup("ignore.txt".to_string())).is_some());
}

#[test]
fn renames_and_safely_deletes_saved_accounts() {
    let mut hub = Hub::new();
    let account_id = "aaaaaaaaaaaaaaaaaaaaaaaa";
    let other_id = "bbbbbbbbbbbbbbbbbbbbbbbb";
    let account = SavedAccount {
        id: account_id.to_string(),
        label: "旧名称".to_string(),
        email: None,
        plan_type: None,
        imported_at: 1,
        is_active: false,
    };
    hub.index = Some(AccountIndex { version: INDEX_VERSION, accounts: vec![account] });
    hub.put(&Place::Vault(account_id.to_string()), b"encrypted-fixture");
    let renamed = hub.drive(rename_account(account_id, "新名称"), Rename::resume).unwrap();
    assert_eq!(renamed.label, "新名称");
    assert!(hub.delete(account_id, Some(account_id)).is_err());
    assert_eq!(hub.listed().len(), 1);
    hub.delete(account_id, Some(other_id)).unwrap();
    assert!(hub.listed().is_empty());
    assert!(hub.get(&Place::Vault(account_id.to_string())).is_none());
    assert!(hub.get(&Place::Staged(account_id.to_string())).is_none());
}

#[test]
fn journal_is_encrypted_and_uncommitted_transaction_keeps_original_login() {
    let mut hub = Hub::with_login(OLD);
    hub.begin(TARGET, Some(OLD)).unwrap();
    let encrypted = hub.get(&Place::Journal).unwrap();
    assert!(!encrypted.windows(OLD.len()).any(|part| part == OLD));
    assert_eq!(unseal(&encrypted).unwrap(), b"tx:0");
    assert!(!hub.recover().needs_attention);
    assert_eq!(hub.get(&active()).unwrap(), OLD);
    assert!(hub.get(&Place::Journal).is_none());
    assert!(hub.recover().messages.is_empty());
}

#[test]
fn completed_transaction_preserves_target_and_synchronizes_vault() {
    let mut hub = Hub::with_login(OLD);
    hub.begin(TARGET, Some(OLD)).unwrap();
    hub.put(&active(), TARGET);
    let report = hub.recover();
    assert!(!report.needs_attention);
    assert!(report.restart_suggested);
    assert_eq!(hub.get(&active()).unwrap(), TARGET);
    assert_eq!(hub.opened(&Place::Vault(id_of(TARGET))).unwrap(), TARGET);
}

#[test]
fn corruption_or_missing_auth_restores_backup_but_external_login_is_preserved() {
    for current in [Some(b"broken".as_slice()), None, Some(EXTERNAL)] {
        let mut hub = Hub::with_login(OLD);
        hub.begin(TARGET, Some(OLD)).unwrap();
        match current {
            Some(auth) => hub.put(&active(), auth),
            None => hub.remove(&active()),
        }
        assert!(!hub.recover().needs_attention);
        let expected = if current == Some(EXTERNAL) { EXTERNAL } else { OLD };
        assert_eq!(hub.get(&active()).unwrap(), expected);
    }
}

#[test]
fn damaged_journal_and_changed_home_are_reported_without_overwriting_auth() {
    let mut hub = Hub::with_login(OLD);
    hub.begin(TARGET, Some(OLD)).unwrap();
    hub.put(&active(), EXTERNAL);
    assert!(hub.recover_at(Ok("D:\\other".to_string())).needs_attention);
    assert_eq!(hub.get(&active()).unwrap(), EXTERNAL);
    hub.put(&active(), OLD);
    assert!(hub.get(&Place::Journal).is_some());
    hub.put(&Place::Journal, b"damaged");
    assert!(hub.recover().needs_attention);
    assert_eq!(hub.get(&active()).unwrap(), OLD);
    assert!(hub.get(&Place::Journal).is_some());
}

#[test]
fn startup_cleans_login_and_runtime_plaintext_preserving_refreshed_credentials() {
    let mut hub = Hub::with_login(OLD);
    let saved = hub.import(Home::Active, None, None).unwrap();
    let isolated = hub.prepare(&saved.id).unwrap();
    hub.put(&auth_of(&isolated), NEW);
    hub.put(&Place::InHome(isolated.clone(), HomeFile::AuthDraft), OLD);
    hub.put(&auth_of(&login("fixture")), TARGET);
    let report = hub.recover();
    assert!(!report.needs_attention);
    assert_eq!(report.messages, vec!["已清理 3 份遗留临时认证文件。".to_string()]);
    assert!(hub.get(&auth_of(&isolated)).is_none());
    assert!(hub.get(&Place::InHome(isolated.clone(), HomeFile::AuthDraft)).is_none());
    assert!(hub.get(&auth_of(&login("fixture"))).is_none());
    assert_eq!(hub.opened(&Place::Vault(saved.id.clone())).unwrap(), NEW);
    assert_eq!(hub.get(&active()).unwrap(), OLD);
}

#[test]
fn running_child_blocks_cleanup_and_new_query_until_retry() {
    let mut hub = Hub::with_login(OLD);
    let saved = hub.import(Home::Active, None, None).unwrap();
    let isolated = hub.prepare(&saved.id).unwrap();
    hub.record(&isolated, OWN).unwrap();
    assert!(hub.recover().needs_attention);
    assert!(hub.get(&auth_of(&isolated)).is_some());
    assert!(hub.prepare(&saved.id).is_err());
    hub.drive(clear_child(isolated.clone()), CheckedRemove::resume).unwrap();
    assert!(!hub.recover().needs_attention);
    assert!(hub.get(&auth_of(&isolated)).is_none());
}

#[test]
fn restore_failure_retains_journal_for_successful_retry() {
    let mut hub = Hub::with_login(OLD);
    hub.begin(TARGET, Some(OLD)).unwrap();
    hub.put(&active(), b"damaged");
    let draft = Place::InHome(Home::Active, HomeFile::SwitchDraft);
    hub.block(&draft);
    assert!(hub.recover().needs_attention);
    assert!(hub.get(&Place::Journal).is_some());
    hub.blocked.clear();
    assert!(!hub.recover().needs_attention);
    assert_eq!(hub.get(&active()).unwrap(), OLD);
}

#[test]
fn retry_recovery_stops_verified_child_and_cleans_legacy_dead_marker() {
    let mut hub = Hub::with_login(OLD);
    let home = login("abandoned");
    let marker = Place::InHome(home.clone(), HomeFile::Child);
    hub.put(&auth_of(&home), TARGET);
    hub.running.insert(77, identity(77));
    hub.put(&marker, b"legacy:77");
    let report = hub.recover();
    assert!(report.needs_attention);
    assert!(report.messages[0].contains("PID 77"));
    assert!(hub.running.contains_key(&77));
    hub.record(&home, 77).unwrap();
    assert!(!hub.recover().needs_attention);
    assert!(!hub.running.contains_key(&77));
    assert!(hub.get(&auth_of(&home)).is_none());
    assert!(hub.get(&marker).is_none());
    hub.put(&marker, b"legacy:77");
    assert!(!hub.recover().needs_attention);
    assert!(hub.get(&marker).is_none());
    assert_eq!(hub.get(&active()).unwrap(), OLD);
}

#[test]
fn cleanup_login_removes_fixture_auth_after_cancelled_process() {
    let mut hub = Hub::with_login(OLD);
    let home = login("fixture");
    hub.put(&auth_of(&home), TARGET);
    let mut state = LoginState::default();
    let session = state.begin("fixture".to_string()).unwrap();
    hub.running.insert(90, identity(90));
    hub.record(&home, 90).unwrap();
    state.cancel("fixture").unwrap();
    let mut step = session.wait_child(&state, false);
    let result = loop {
        match step {
            Step::Done(result) => break result,
            Step::Ask(action, machine) => {
                let event = match action {
                    WaitAction::Poll(_) => WaitEvent::Running,
                    WaitAction::Kill => {
                        hub.running.remove(&90);
                        WaitEvent::Done
                    }
                    WaitAction::Reap => WaitEvent::Done,
                };
                step = WaitChild::resume(machine, event, session.check(&state), false);
            }
        }
    };
    assert!(result.is_err());
    hub.drive(cleanup_login(home.clone()), CleanLogin::resume).unwrap();
    assert!(hub.get(&auth_of(&home)).is_none());
    assert!(hub.get(&Place::InHome(home.clone(), HomeFile::Child)).is_none());
    assert_eq!(hub.get(&active()).unwrap(), OLD);
}

#[test]
fn verified_recovery_rejects_reused_pid_and_live_other_owner() {
    let mut hub = Hub::new();
    hub.running.insert(50, identity(50));
    hub.running.insert(60, identity(60));
    let mut record = Record { version: 1, process: identity(50), owner: identity(OWN) };
    record.process.created += 1;
    hub.drive(stop(copy_record(&record), OWN), Stop::resume).unwrap();
    assert!(hub.running.contains_key(&50));
    record.process = identity(50);
    record.process.image.push_str(".different");
    hub.drive(stop(copy_record(&record), OWN), Stop::resume).unwrap();
    assert!(hub.running.contains_key(&50));
    record.process = identity(50);
    record.owner = identity(60);
    assert!(hub.drive(stop(copy_record(&record), OWN), Stop::resume).is_err());
    assert!(hub.running.contains_key(&50));
    hub.running.remove(&60);
    hub.drive(stop(copy_record(&record), OWN), Stop::resume).unwrap();
    assert!(!hub.running.contains_key(&50));
    assert_eq!(hub.ended, vec![50]);
}

#[test]
fn stop_refuses_the_hub_itself_and_unknown_versions() {
    let mut hub = Hub::new();
    let own = Record { version: 1, process: identity(OWN), owner: identity(OWN) };
    assert_eq!(
        hub.drive(stop(own, OWN), Stop::resume).unwrap_err(),
        "恢复记录指向管理器自身，已拒绝结束进程"
    );
    let unknown = Record { version: 2, process: identity(50), owner: identity(OWN) };
    assert_eq!(
        hub.drive(stop(unknown, OWN), Stop::resume).unwrap_err(),
        "子进程记录版本不受支持"
    );
    assert!(hub.ended.is_empty());
}

#[test]
fn stop_reports_a_process_that_will_not_end() {
    let record = Record { version: 1, process: identity(50), owner: identity(OWN) };
    let machine = match stop(record, OWN) {
        Step::Ask(Action::Observe(50), machine) => machine,
        other => panic!("{other:?}"),
    };
    let machine = match Stop::resume(machine, Event::Alive(identity(50))) {
        Step::Ask(Action::Identify(OWN), machine) => machine,
        other => panic!("{other:?}"),
    };
    let machine = match Stop::resume(machine, Event::Alive(identity(OWN))) {
        Step::Ask(Action::Hold(50), machine) => machine,
        other => panic!("{other:?}"),
    };
    let machine = match Stop::resume(machine, Event::Alive(identity(50))) {
        Step::Ask(Action::TerminateHeld, machine) => machine,
        other => panic!("{other:?}"),
    };
    let failed = Event::Failed { path: String::new(), error: "5".to_string() };
    let machine = match Stop::resume(machine, failed) {
        Step::Ask(Action::ObserveHeld, machine) => machine,
        other => panic!("{other:?}"),
    };
    match Stop::resume(machine, Event::Present(true)) {
        Step::Done(Err(error)) => assert_eq!(error, "无法结束遗留子进程 PID 50，请重试恢复"),
        other => panic!("{other:?}"),
    }
}

#[test]
fn import_seals_credentials_and_tells_each_error() {
    let mut hub = Hub::new();
    assert_eq!(
        hub.import(Home::Active, None, None).unwrap_err(),
        "无法读取当前认证文件 codex/auth.json：系统找不到指定的文件。 (os error 2)"
    );
    hub.put(&active(), b"{}");
    assert_eq!(
        hub.import(Home::Active, None, None).unwrap_err(),
        "当前 auth.json 不包含 ChatGPT access token"
    );
    hub.put(&active(), br#"{"tokens":{"access_token":"x"}}"#);
    assert_eq!(
        hub.import(Home::Active, None, None).unwrap_err(),
        "无法从认证文件识别账号"
    );
    hub.put(&active(), OLD);
    let long = "名".repeat(81);
    assert_eq!(
        hub.import(Home::Active, None, Some(&long)).unwrap_err(),
        "账号名称不能超过 80 个字符"
    );
    assert!(hub.index.is_none());
    let info = AccountInfo {
        account_type: None,
        email: Some("a***@example.com".to_string()),
        plan_type: Some("plus".to_string()),
    };
    let saved = hub.import(Home::Active, Some(info), Some("   ")).unwrap();
    assert_eq!(saved.id, id_of(OLD));
    assert_eq!(saved.label, "a***@example.com");
    assert_eq!(saved.plan_type.as_deref(), Some("plus"));
    let again = hub.import(Home::Active, None, Some(" 家 ")).unwrap();
    assert_eq!(again.label, "家");
    assert_eq!(again.email.as_deref(), Some("a***@example.com"));
    assert_eq!(hub.listed().len(), 1);
    assert_eq!(hub.opened(&Place::Vault(saved.id.clone())).unwrap(), OLD);
    let sealed = hub.get(&Place::Vault(saved.id.clone())).unwrap();
    assert!(!sealed.windows(OLD.len()).any(|part| part == OLD));
    hub.damaged_index = true;
    assert_eq!(
        hub.import(Home::Active, None, None).unwrap_err(),
        "账号索引损坏：expected value at line 1 column 1"
    );
    hub.damaged_index = false;
    hub.index = Some(AccountIndex { version: 2, accounts: Vec::new() });
    assert_eq!(
        hub.import(Home::Active, None, None).unwrap_err(),
        "不支持的账号索引版本：2"
    );
}

#[test]
fn load_tells_each_error() {
    let mut hub = Hub::with_login(OLD);
    assert_eq!(hub.load("../auth").unwrap_err(), "账号 ID 格式无效");
    let id = id_of(OLD);
    assert_eq!(hub.load(&id).unwrap_err(), "找不到这个保险库账号");
    hub.import(Home::Active, None, None).unwrap();
    assert_eq!(hub.load(&id).unwrap(), OLD);
    hub.put(&Place::Vault(id.clone()), b"rubbish");
    assert_eq!(hub.load(&id).unwrap_err(), "Windows DPAPI 解密失败：13");
    hub.remove(&Place::Vault(id.clone()));
    assert!(hub.load(&id).unwrap_err().starts_with("无法读取加密账号 data/vault/"));
}

#[test]
fn replacement_stops_when_the_login_changes_under_it() {
    let id = id_of(NEW);
    let mut hub = Hub::new();
    let mut reads = 0;
    let mut step = replace_current_auth(HOME, NEW.to_vec(), &id, false);
    let result = loop {
        match step {
            Step::Done(result) => break result,
            Step::Ask(action, machine) => {
                if matches!(action, Action::Read(_)) {
                    reads += 1;
                }
                if reads == 2 && matches!(action, Action::Read(_)) {
                    assert!(hub.get(&Place::Journal).is_some());
                    hub.put(&active(), OTHER);
                }
                let event = hub.perform(action);
                step = Replace::resume(machine, event);
            }
        }
    };
    assert_eq!(result.unwrap_err(), "当前登录已发生变化，已取消写入，请重试");
    assert_eq!(hub.get(&active()).unwrap(), OTHER);
    assert!(hub.get(&Place::Journal).is_none());
    let mut hub = Hub::with_login(OTHER);
    assert_eq!(
        hub.replace(NEW, &id, true).unwrap_err(),
        "当前登录已发生变化，已取消写入，请重试"
    );
    assert_eq!(
        hub.replace(OTHER, &id, false).unwrap_err(),
        "保存的凭据与目标账号不一致，已取消写入"
    );
    hub.put(&active(), NEW);
    hub.replace(NEW, &id, true).unwrap();
    assert!(hub.backups().is_empty());
}

#[test]
fn backups_are_named_by_time_and_kept_to_five() {
    let mut hub = Hub::with_login(OTHER);
    for round in 0..8 {
        let (auth, id) = if round % 2 == 0 {
            (OLD, id_of(OLD))
        } else {
            (OTHER, id_of(OTHER))
        };
        hub.replace(auth, &id, false).unwrap();
    }
    let names = hub.names_in("data/switch-backups");
    assert_eq!(names.len(), 5);
    let other = id_of(OTHER);
    assert!(names.iter().any(|name| {
        *name == format!("1700000007-1700000007000000000-{other}.dpapi")
    }));
    hub.put(&active(), b"garbage");
    hub.replace(OLD, &id_of(OLD), false).unwrap();
    assert!(hub
        .names_in("data/switch-backups")
        .iter()
        .any(|name| name.ends_with("-unrecognized.dpapi")));
}

#[test]
fn deletion_puts_the_file_back_when_the_index_cannot_be_written() {
    let mut hub = Hub::with_login(OLD);
    let saved = hub.import(Home::Active, None, None).unwrap();
    let home = hub.prepare(&saved.id).unwrap();
    hub.put(&Place::Staged(saved.id.clone()), b"left over");
    hub.index_is_read_only = true;
    assert!(hub.delete(&saved.id, None).is_err());
    assert_eq!(hub.opened(&Place::Vault(saved.id.clone())).unwrap(), OLD);
    assert!(hub.get(&Place::Staged(saved.id.clone())).is_none());
    assert!(hub.get(&auth_of(&home)).is_none());
    assert_eq!(hub.listed().len(), 1);
    hub.index_is_read_only = false;
    hub.delete(&saved.id, None).unwrap();
    assert!(hub.listed().is_empty());
    assert_eq!(hub.delete(&saved.id, None).unwrap_err(), "找不到这个保险库账号");
}

#[test]
fn renaming_tells_each_error() {
    let mut hub = Hub::with_login(OLD);
    let saved = hub.import(Home::Active, None, None).unwrap();
    let mut rename = |id: &str, label: &str| hub.drive(rename_account(id, label), Rename::resume);
    assert_eq!(rename("x", "新").unwrap_err(), "账号 ID 格式无效");
    assert_eq!(rename(&saved.id, " \u{3000} ").unwrap_err(), "账号名称不能为空");
    assert_eq!(
        rename(&saved.id, &"长".repeat(81)).unwrap_err(),
        "账号名称不能超过 80 个字符"
    );
    assert_eq!(
        rename("aaaaaaaaaaaaaaaaaaaaaaaa", "新").unwrap_err(),
        "找不到这个保险库账号"
    );
    assert_eq!(rename(&saved.id, &"长".repeat(80)).unwrap().label, "长".repeat(80));
}

#[test]
fn isolated_credentials_stay_when_they_cannot_be_saved() {
    let mut hub = Hub::with_login(OLD);
    let saved = hub.import(Home::Active, None, None).unwrap();
    let home = hub.prepare(&saved.id).unwrap();
    hub.put(&auth_of(&home), NEW);
    hub.sealing_fails = true;
    assert_eq!(hub.finish_home(&saved.id).unwrap_err(), "Windows DPAPI 加密失败：5");
    assert_eq!(hub.get(&auth_of(&home)).unwrap(), NEW);
    hub.sealing_fails = false;
    hub.block(&Place::Vault(saved.id.clone()));
    assert!(hub.finish_home(&saved.id).is_err());
    assert_eq!(hub.get(&auth_of(&home)).unwrap(), NEW);
    hub.blocked.clear();
    hub.finish_home(&saved.id).unwrap();
    assert!(hub.get(&auth_of(&home)).is_none());
    assert_eq!(hub.load(&saved.id).unwrap(), NEW);
    hub.finish_home(&saved.id).unwrap();
}

#[test]
fn foreign_isolated_credentials_are_removed_and_not_saved() {
    let mut hub = Hub::with_login(OLD);
    let saved = hub.import(Home::Active, None, None).unwrap();
    let home = hub.prepare(&saved.id).unwrap();
    hub.put(&auth_of(&home), OTHER);
    assert_eq!(
        hub.finish_home(&saved.id).unwrap_err(),
        "隔离凭据与目标账号不一致，已取消回写"
    );
    assert!(hub.get(&auth_of(&home)).is_none());
    assert_eq!(hub.load(&saved.id).unwrap(), OLD);
    hub.put(&auth_of(&home), b"garbage");
    hub.block(&auth_of(&home));
    assert_eq!(
        hub.finish_home(&saved.id).unwrap_err(),
        "无法读取隔离认证状态：拒绝访问。 (os error 5)；无法清理临时认证文件：拒绝访问。 (os error 5)"
    );
}

#[test]
fn stale_login_credentials_are_removed() {
    let mut hub = Hub::new();
    hub.drive(cleanup_stale_login_auth(), CleanLogins::resume).unwrap();
    hub.put(&auth_of(&login("one")), OLD);
    hub.put(&auth_of(&login("two")), NEW);
    hub.put(&Place::InHome(login("three"), HomeFile::Child), b"legacy:1");
    hub.drive(cleanup_stale_login_auth(), CleanLogins::resume).unwrap();
    assert!(hub.get(&auth_of(&login("one"))).is_none());
    assert!(hub.get(&auth_of(&login("two"))).is_none());
    hub.drive(remove_plain_auth(login("one")), RemovePlain::resume).unwrap();
}

#[test]
fn recovery_refuses_linked_paths_and_pending_updates() {
    let mut hub = Hub::with_login(OLD);
    hub.begin(TARGET, Some(OLD)).unwrap();
    assert!(hub
        .drive(ensure_no_pending(), Pending::resume)
        .unwrap_err()
        .starts_with("有未完成的认证恢复记录"));
    assert!(hub.begin(TARGET, Some(OLD)).is_err());
    hub.drive(finish(), CheckedRemove::resume).unwrap();
    hub.drive(finish(), CheckedRemove::resume).unwrap();
    hub.drive(ensure_no_pending(), Pending::resume).unwrap();
    hub.linked.insert(key(&Place::DataDir));
    let report = hub.recover();
    assert!(report.needs_attention);
    assert_eq!(
        report.messages,
        vec!["恢复路径包含链接或重解析点，已停止自动处理".to_string()]
    );
    hub.linked.clear();
    hub.put(&auth_of(&login("fixture")), TARGET);
    hub.linked.insert(key(&auth_of(&login("fixture"))));
    assert!(hub.recover().needs_attention);
    assert!(hub.get(&auth_of(&login("fixture"))).is_some());
    let unknown = hub.recover_at(Err("无法确定 Codex Home：缺少 USERPROFILE".to_string()));
    assert!(unknown.messages.iter().any(|text| text.contains("USERPROFILE")));
}

#[test]
fn recovery_without_a_usable_login_asks_for_attention() {
    let mut hub = Hub::with_login(b"broken");
    hub.begin(TARGET, Some(b"also broken")).unwrap();
    let report = hub.recover();
    assert!(report.needs_attention);
    assert!(!report.restart_suggested);
    assert_eq!(hub.get(&active()).unwrap(), b"broken");
    assert!(hub.get(&Place::Journal).is_none());
}

#[test]
fn login_home_is_cleared_once_its_process_has_ended() {
    let mut hub = Hub::new();
    let home = login("slow");
    hub.put(&auth_of(&home), OLD);
    hub.running.insert(70, identity(70));
    hub.record(&home, 70).unwrap();
    hub.ends_after = Some((10, 70));
    hub.drive(cleanup_login(home.clone()), CleanLogin::resume).unwrap();
    assert_eq!(hub.sleeps, 10);
    assert!(hub.get(&auth_of(&home)).is_none());
    hub.put(&auth_of(&home), OLD);
    hub.running.insert(71, identity(71));
    hub.record(&home, 71).unwrap();
    hub.ends_after = None;
    hub.sleeps = 0;
    assert_eq!(
        hub.drive(cleanup_login(home.clone()), CleanLogin::resume).unwrap_err(),
        "登录进程尚未退出，临时认证已保留，请结束该进程后重试恢复"
    );
    assert_eq!(hub.sleeps, 60);
    assert!(hub.get(&auth_of(&home)).is_some());
    assert_eq!(
        hub.drive(ensure_idle(home.clone()), EnsureIdle::resume).unwrap_err(),
        "遗留查询进程仍在运行，请先重试恢复"
    );
}

#[test]
fn account_in_a_home_is_told_from_its_credentials() {
    assert_eq!(current_account_id(Event::Bytes(OLD.to_vec())).unwrap(), id_of(OLD));
    assert_eq!(isolated_account_id(Event::Bytes(OTHER.to_vec())).unwrap(), id_of(OTHER));
    let gone = Event::Missing { path: "p".to_string(), error: "e".to_string() };
    assert_eq!(current_account_id(gone).unwrap_err(), "无法读取当前认证文件 p：e");
    let gone = Event::Missing { path: "p".to_string(), error: "e".to_string() };
    assert_eq!(isolated_account_id(gone).unwrap_err(), "无法读取隔离认证文件：e");
}

fn run_query(
    hub: &mut Hub,
    meanwhile: &[u8],
    result: Result<UsageSnapshot, String>,
) -> Result<UsageSnapshot, String> {
    let mut step = query_usage();
    let mut result = Some(result);
    loop {
        match step {
            Step::Done(outcome) => return outcome,
            Step::Ask(action, machine) => {
                let event = match action {
                    UsageAction::Identify => {
                        UsageEvent::Identity(current_account_id(hub.read(&active())))
                    }
                    UsageAction::Converse => {
                        hub.put(&active(), meanwhile);
                        UsageEvent::Snapshot(result.take().unwrap())
                    }
                    _ => UsageEvent::Finished(Ok(())),
                };
                step = QueryUsage::resume(machine, event);
            }
        }
    }
}

#[test]
fn binds_results_to_auth_identity_and_rejects_external_switch() {
    let a = br#"{"tokens":{"access_token":"fixture-a","account_id":"account-a"}}"#;
    let a_refreshed = br#"{"tokens":{"access_token":"fixture-renewed","account_id":"account-a"}}"#;
    let b = br#"{"tokens":{"access_token":"fixture-b","account_id":"account-b"}}"#;
    let mut hub = Hub::with_login(a);
    let expected = current_account_id(hub.read(&active())).unwrap();
    let empty = parse(b"{}").unwrap();
    let snapshot = run_query(&mut hub, a_refreshed, Ok(to_snapshot(&empty, &empty, 1))).unwrap();
    assert_eq!(snapshot.account_id, expected);
    let result = run_query(&mut hub, b, Ok(to_snapshot(&empty, &empty, 2)));
    assert!(result.unwrap_err().contains("查询期间账号已变化"));
    let failed = run_query(&mut hub, b, Err("App Server 请求超时".to_string()));
    assert_eq!(failed.unwrap_err(), "App Server 请求超时");
}

fn run_switch(
    hub: &mut Hub,
    id: &str,
    restart: bool,
    result: Result<RestartOutcome, String>,
) -> Result<SwitchOutcome, String> {
    let mut step = switch_saved_account(id, HOME, restart);
    let mut result = Some(result);
    loop {
        match step {
            Step::Done(outcome) => return outcome,
            Step::Ask(action, machine) => {
                let event = match action {
                    SwitchAction::Do(action) => SwitchEvent::Did(hub.perform(action)),
                    SwitchAction::Restart => SwitchEvent::Restarted(result.take().unwrap()),
                };
                step = Switch::resume(machine, event);
            }
        }
    }
}

#[test]
fn switch_keeps_both_accounts_and_reports_the_restart() {
    let mut hub = Hub::with_login(OLD);
    hub.put(&auth_of(&login("other")), OTHER);
    let b = hub.import(login("other"), None, None).unwrap();
    let done = RestartOutcome { was_running: true, processes_closed: 2 };
    let outcome = run_switch(&mut hub, &b.id, true, Ok(done)).unwrap();
    assert_eq!(outcome.account.id, b.id);
    assert!(outcome.restart_requested && outcome.restart_succeeded);
    assert!(outcome.codex_was_running);
    assert_eq!(outcome.processes_closed, 2);
    assert!(outcome.restart_warning.is_none());
    assert_eq!(hub.get(&active()).unwrap(), OTHER);
    let a = id_of(OLD);
    assert_eq!(hub.load(&a).unwrap(), OLD);
    let outcome = run_switch(&mut hub, &a, true, Err("无法枚举 Windows 进程".to_string())).unwrap();
    assert!(outcome.restart_requested && !outcome.restart_succeeded);
    assert_eq!(outcome.restart_warning.as_deref(), Some("无法枚举 Windows 进程"));
    let outcome = run_switch(&mut hub, &b.id, false, Err(String::new())).unwrap();
    assert!(!outcome.restart_requested);
    assert_eq!(outcome.processes_closed, 0);
    assert_eq!(hub.get(&active()).unwrap(), OTHER);
}

#[test]
fn saved_account_is_queried_in_a_home_of_its_own() {
    let mut hub = Hub::with_login(OTHER);
    hub.put(&auth_of(&login("one")), OLD);
    let saved = hub.import(login("one"), None, None).unwrap();
    let empty = parse(b"{}").unwrap();
    let mut step = query_saved_usage(&saved.id);
    let result = loop {
        match step {
            Step::Done(result) => break result,
            Step::Ask(action, machine) => {
                let event = match action {
                    SavedAction::Do(action) => SavedEvent::Did(hub.perform(action)),
                    SavedAction::Query(home) => {
                        assert_eq!(hub.get(&auth_of(&home)).unwrap(), OLD);
                        hub.put(&auth_of(&home), NEW);
                        SavedEvent::Queried(Ok(to_snapshot(&empty, &empty, 7)))
                    }
                };
                step = QuerySaved::resume(machine, event);
            }
        }
    };
    assert_eq!(result.unwrap().captured_at, 7);
    assert_eq!(hub.load(&saved.id).unwrap(), NEW);
    assert!(hub.names_in("data/runtime").is_empty());
    assert_eq!(hub.get(&active()).unwrap(), OTHER);
}

fn run_login(
    hub: &mut Hub,
    purpose: Purpose,
    logs_in: &[u8],
    cancelled_at: Option<LoginPhase>,
) -> (Result<ReauthorizationOutcome, String>, Vec<LoginPhase>) {
    let mut phases = Vec::new();
    let mut step = log_in(purpose);
    loop {
        match step {
            Step::Done(result) => return (result, phases),
            Step::Ask(action, machine) => {
                let event = match action {
                    LoginAction::Phase(phase) => {
                        phases.push(phase);
                        if Some(phase) == cancelled_at {
                            LoginEvent::Finished(Err("登录已取消".to_string()))
                        } else {
                            LoginEvent::Finished(Ok(()))
                        }
                    }
                    LoginAction::CreateHome => LoginEvent::Created(Ok("4-1".to_string())),
                    LoginAction::LogIn => {
                        hub.put(&auth_of(&login("4-1")), logs_in);
                        LoginEvent::Finished(Ok(()))
                    }
                    LoginAction::Query => LoginEvent::Queried(Ok(()), None),
                    LoginAction::Do(action) => LoginEvent::Did(hub.perform(action)),
                    LoginAction::Acquire => LoginEvent::Finished(Ok(())),
                    LoginAction::Discover => LoginEvent::Found(Ok(HOME.to_string())),
                };
                step = Login::resume(machine, event);
            }
        }
    }
}

#[test]
fn login_adds_an_account_and_clears_its_home() {
    let mut hub = Hub::with_login(OLD);
    let purpose = Purpose::Add { label: Some("第二".to_string()) };
    let (result, phases) = run_login(&mut hub, purpose, OTHER, None);
    let outcome = result.unwrap();
    assert_eq!(outcome.account.label, "第二");
    assert!(!outcome.current_auth_updated);
    assert_eq!(
        phases,
        vec![
            LoginPhase::Queued,
            LoginPhase::Waiting,
            LoginPhase::Verifying,
            LoginPhase::Saving
        ]
    );
    assert!(hub.names_in("data/login").is_empty());
    assert_eq!(hub.load(&id_of(OTHER)).unwrap(), OTHER);
    assert_eq!(hub.get(&active()).unwrap(), OLD);
}

#[test]
fn cancelled_login_saves_nothing_and_clears_its_home() {
    for phase in [LoginPhase::Waiting, LoginPhase::Verifying, LoginPhase::Saving] {
        let mut hub = Hub::with_login(OLD);
        let purpose = Purpose::Add { label: None };
        let (result, _) = run_login(&mut hub, purpose, OTHER, Some(phase));
        assert_eq!(result.unwrap_err(), "登录已取消");
        assert!(hub.names_in("data/login").is_empty());
        assert!(hub.index.is_none());
        assert!(hub.names_in("data/vault").is_empty());
    }
}

#[test]
fn login_renews_only_the_account_that_was_chosen() {
    let mut hub = Hub::with_login(OLD);
    let saved = hub.import(Home::Active, None, None).unwrap();
    let purpose = Purpose::Renew { id: saved.id.clone() };
    let (result, _) = run_login(&mut hub, purpose, OTHER, None);
    assert_eq!(
        result.unwrap_err(),
        "登录的不是所选账号，已取消覆盖；请用该账号重新登录"
    );
    assert_eq!(hub.load(&saved.id).unwrap(), OLD);
    let purpose = Purpose::Renew { id: saved.id.clone() };
    let (result, _) = run_login(&mut hub, purpose, NEW, None);
    assert!(result.unwrap().current_auth_updated);
    assert_eq!(hub.get(&active()).unwrap(), NEW);
    assert_eq!(hub.load(&saved.id).unwrap(), NEW);
    let purpose = Purpose::Renew { id: "aaaaaaaaaaaaaaaaaaaaaaaa".to_string() };
    let (result, _) = run_login(&mut hub, purpose, NEW, None);
    assert_eq!(result.unwrap_err(), "找不到这个保险库账号");
}

#[test]
fn deleted_account_leaves_nothing_in_its_runtime_home() {
    let mut hub = Hub::with_login(OLD);
    let saved = hub.import(Home::Active, None, None).unwrap();
    let home = hub.prepare(&saved.id).unwrap();
    hub.put(&Place::InHome(home.clone(), HomeFile::AuthDraft), OLD);
    hub.put(&Place::InHome(home.clone(), HomeFile::SwitchDraft), OLD);
    hub.delete(&saved.id, None).unwrap();
    for file in [HomeFile::Auth, HomeFile::AuthDraft, HomeFile::SwitchDraft, HomeFile::Child] {
        assert!(hub.get(&Place::InHome(home.clone(), file)).is_none());
    }
    assert!(hub.get(&Place::Vault(saved.id.clone())).is_none());
}

#[test]
fn second_recovery_after_a_settled_one_is_silent() {
    let mut hub = Hub::with_login(OLD);
    let saved = hub.import(Home::Active, None, None).unwrap();
    let home = hub.prepare(&saved.id).unwrap();
    hub.put(&auth_of(&home), NEW);
    hub.put(&Place::InHome(home.clone(), HomeFile::AuthDraft), OLD);
    hub.put(&Place::InHome(login("left"), HomeFile::SwitchDraft), OLD);
    hub.put(&Place::InHome(Home::Active, HomeFile::SwitchDraft), OLD);
    hub.begin(OTHER, Some(OLD)).unwrap();
    let first = hub.recover();
    assert!(!first.needs_attention);
    assert_eq!(
        first.messages,
        vec![
            "上次认证更新未提交或已回滚，已保留原登录。".to_string(),
            "已清理 3 份遗留临时认证文件。".to_string(),
        ]
    );
    assert_eq!(hub.opened(&Place::Vault(saved.id.clone())).unwrap(), NEW);
    assert!(hub.get(&Place::InHome(Home::Active, HomeFile::SwitchDraft)).is_none());
    let files = hub.files.clone();
    let second = hub.recover();
    assert!(second.messages.is_empty());
    assert!(!second.needs_attention);
    assert!(!second.restart_suggested);
    assert_eq!(hub.files, files);
}

#[test]
fn renewed_credentials_give_way_to_the_login_that_an_update_put_in_use() {
    let mut hub = Hub::with_login(OTHER);
    let renewed = br#"{"tokens":{"access_token":"fixture-query","account_id":"fixture-a"}}"#;
    hub.begin(NEW, Some(OTHER)).unwrap();
    hub.put(&active(), NEW);
    let id = id_of(NEW);
    hub.put(&auth_of(&Home::Runtime(id.clone())), renewed);
    assert!(!hub.recover().needs_attention);
    assert_eq!(hub.opened(&Place::Vault(id)).unwrap(), NEW);
}

#[test]
fn server_that_cannot_be_attached_is_killed() {
    let hub = Hub::with_login(OLD);
    let mut step = query_usage();
    let mut asked = Vec::new();
    let error = loop {
        match step {
            Step::Done(outcome) => break outcome.unwrap_err(),
            Step::Ask(action, machine) => {
                asked.push(format!("{action:?}"));
                let event = match action {
                    UsageAction::Identify => {
                        UsageEvent::Identity(current_account_id(hub.read(&active())))
                    }
                    UsageAction::Attach => UsageEvent::Finished(Err("无法托管子进程".to_string())),
                    _ => UsageEvent::Finished(Ok(())),
                };
                step = QueryUsage::resume(machine, event);
            }
        }
    };
    assert_eq!(error, "无法托管子进程");
    assert_eq!(asked, vec!["Identify", "Start", "Attach", "Kill", "Identify"]);
}

#[test]
fn interrupted_switch_is_recorded_and_settled_at_the_next_start() {
    let mut hub = Hub::with_login(OLD);
    let mut step = replace_current_auth(HOME, OTHER.to_vec(), &id_of(OTHER), false);
    loop {
        match step {
            Step::Done(outcome) => panic!("{outcome:?}"),
            Step::Ask(action, machine) => {
                let replaces = matches!(action, Action::ReplaceActive(_));
                let event = hub.perform(action);
                if replaces {
                    break;
                }
                step = Replace::resume(machine, event);
            }
        }
    }
    assert_eq!(hub.get(&active()).unwrap(), OTHER);
    let record = hub.get(&Place::Journal).unwrap();
    assert!(!record.windows(OLD.len()).any(|part| part == OLD));
    assert_eq!(
        hub.replace(OLD, &id_of(OLD), false).unwrap_err(),
        "有未完成的认证恢复记录，请先点击“检查并恢复”或“重试恢复”"
    );
    let report = hub.recover();
    assert!(!report.needs_attention);
    assert!(report.restart_suggested);
    assert_eq!(hub.get(&active()).unwrap(), OTHER);
    assert_eq!(hub.load(&id_of(OTHER)).unwrap(), OTHER);
    assert!(hub.get(&Place::Journal).is_none());
    hub.replace(OLD, &id_of(OLD), false).unwrap();
    assert!(hub.get(&Place::Journal).is_none());
}

#[test]
fn record_of_another_version_is_refused_and_nothing_changes() {
    let mut hub = Hub::with_login(OLD);
    let saved = hub.import(Home::Active, None, None).unwrap();
    let home = hub.prepare(&saved.id).unwrap();
    hub.running.insert(80, identity(80));
    hub.record(&home, 80).unwrap();
    hub.running.remove(&80);
    hub.drive(ensure_idle(home.clone()), EnsureIdle::resume).unwrap();
    let record = Record { version: 2, process: identity(80), owner: identity(OWN) };
    let bytes = match hub.perform(Action::EncodeChild(record)) {
        Event::Bytes(bytes) => bytes,
        other => panic!("{other:?}"),
    };
    hub.put(&Place::InHome(home.clone(), HomeFile::Child), &bytes);
    let files = hub.files.clone();
    assert_eq!(
        hub.drive(ensure_idle(home), EnsureIdle::resume).unwrap_err(),
        "子进程记录版本不受支持"
    );
    assert_eq!(hub.files, files);
}
