//! The account vault: saving credentials, loading them, and switching between them.
//!
//! Every procedure here is a machine (see `effects`). The credentials of an account leave it in
//! the clear only for the home that they are meant for; what it writes into the vault or among
//! the backups is the answer to a request to seal them.

use vstd::prelude::*;
use vstd::string::*;

use crate::accounts::{
    check_label, enter, entered, forget, forgotten, is_listed, listed, merge, merged, relabel,
    relabelled, renamed_label, AccountIndex, AccountIndexView, AccountInfo, AccountInfoView,
    SavedAccount, SavedAccountView,
};
use crate::backups::{backup_file_name, backup_name, outdated, outdated_backups, MAX_SWITCH_BACKUPS};
use crate::bytes::{copy_bytes, copy_optional_bytes, same_bytes, same_optional_bytes};
use crate::credentials::{
    account_id_verdict, auth_identity, identity, usable_auth_identity, usable_identity,
    validate_account_id,
};
use crate::effects::{
    auth_reply, done_reply, done_reply_as, expect_done, expect_done_as, expect_index,
    expect_optional_auth, failure, failure_text, index_reply, is_present, located_failure,
    located_failure_text, names_of, present, readable_names, Action, ActionView, Entry, EntryView,
    Event, EventView, Home, HomeFile, HomeView, Place, PlaceView, Step, StepView,
};
use crate::recovery::{
    begin, begin_next, beginning, checked_remove_next, ensure_idle, ensure_idle_next, ensuring_idle,
    finish, finishing, Begin, BeginView, CheckedRemove, CheckedRemoveView, EnsureIdle,
    EnsureIdleView,
};
use crate::text::{first_and_rest, held, join2, join3, outcome, same, split_first, views};

verus! {

/// Loading the saved credentials of an account: its index entry is awaited, then its encrypted
/// file, then what that holds.
#[derive(Debug)]
pub enum LoadSaved {
    Index(String),
    Sealed(String),
    Opened(String),
}

/// What `LoadSaved` says.
#[verifier::ext_equal]
pub enum LoadSavedView {
    Index(Seq<char>),
    Sealed(Seq<char>),
    Opened(Seq<char>),
}

impl View for LoadSaved {
    type V = LoadSavedView;

    open spec fn view(&self) -> LoadSavedView {
        match self {
            LoadSaved::Index(inner) => LoadSavedView::Index(inner@),
            LoadSaved::Sealed(inner) => LoadSavedView::Sealed(inner@),
            LoadSaved::Opened(inner) => LoadSavedView::Opened(inner@),
        }
    }
}

/// Loads the saved credentials of an account.
pub open spec fn loading_saved(
    account_id: Seq<char>,
) -> StepView<ActionView, LoadSavedView, Seq<u8>> {
    match account_id_verdict(account_id) {
        Err(error) => StepView::Done(Err(error)),
        Ok(_) => StepView::Ask(ActionView::ReadIndex, LoadSavedView::Index(account_id)),
    }
}

/// Loads the saved credentials of an account.
pub fn load_saved_auth(account_id: &str) -> (r: Step<Action, LoadSaved, Vec<u8>>)
    ensures
        r@ == loading_saved(account_id@),
{
    match validate_account_id(account_id) {
        Err(error) => Step::Done(Err(error)),
        Ok(_) => Step::Ask(Action::ReadIndex, LoadSaved::Index(account_id.to_owned())),
    }
}

/// Goes on with the answer to what was asked.
pub open spec fn load_saved_next(
    state: LoadSavedView,
    event: EventView,
) -> StepView<ActionView, LoadSavedView, Seq<u8>> {
    match state {
        LoadSavedView::Index(id) => match index_reply(event) {
            Err(error) => StepView::Done(Err(error)),
            Ok(index) => if listed(index.accounts, id) {
                StepView::Ask(ActionView::Read(PlaceView::Vault(id)), LoadSavedView::Sealed(id))
            } else {
                StepView::Done(Err("找不到这个保险库账号"@))
            },
        },
        LoadSavedView::Sealed(id) => match event {
            EventView::Bytes(sealed) => StepView::Ask(
                ActionView::Unseal(sealed),
                LoadSavedView::Opened(id),
            ),
            other => StepView::Done(
                Err("无法读取加密账号 "@ + located_failure_text(other)),
            ),
        },
        LoadSavedView::Opened(id) => match event {
            EventView::Bytes(auth) => match usable_identity(auth) {
                Err(error) => StepView::Done(Err(error)),
                Ok(found) => if found == id {
                    StepView::Done(Ok(auth))
                } else {
                    StepView::Done(Err("保存的凭据与目标账号不一致"@))
                },
            },
            other => StepView::Done(Err(failure_text(other))),
        },
    }
}

impl LoadSaved {
    /// Goes on with the answer to what was asked.
    pub fn resume(self, event: Event) -> (r: Step<Action, LoadSaved, Vec<u8>>)
        ensures
            r@ == load_saved_next(self@, event@),
    {
        match self {
            LoadSaved::Index(id) => match expect_index(event) {
                Err(error) => Step::Done(Err(error)),
                Ok(index) => if is_listed(&index.accounts, id.as_str()) {
                    Step::Ask(Action::Read(Place::Vault(id.clone())), LoadSaved::Sealed(id))
                } else {
                    Step::Done(Err("找不到这个保险库账号".to_owned()))
                },
            },
            LoadSaved::Sealed(id) => match event {
                Event::Bytes(sealed) => Step::Ask(Action::Unseal(sealed), LoadSaved::Opened(id)),
                other => Step::Done(
                    Err(join2("无法读取加密账号 ", located_failure(other).as_str())),
                ),
            },
            LoadSaved::Opened(id) => match event {
                Event::Bytes(auth) => match usable_auth_identity(auth.as_slice()) {
                    Err(error) => Step::Done(Err(error)),
                    Ok(found) => if same(found.as_str(), id.as_str()) {
                        Step::Done(Ok(auth))
                    } else {
                        Step::Done(Err("保存的凭据与目标账号不一致".to_owned()))
                    },
                },
                other => Step::Done(Err(failure(other))),
            },
        }
    }
}

/// The saved accounts, from what the index was answered with.
pub fn list_accounts(event: Event) -> (r: Result<Vec<SavedAccount>, String>)
    ensures
        match (r, index_reply(event@)) {
            (Ok(accounts), Ok(index)) => views(accounts@) == index.accounts,
            (Err(error), Err(reason)) => error@ == reason,
            _ => false,
        },
{
    match expect_index(event) {
        Ok(index) => Ok(index.accounts),
        Err(error) => Err(error),
    }
}

/// The account that is in use, from what its credential file was answered with.
pub open spec fn current_id_reply(event: EventView) -> Result<Seq<char>, Seq<char>> {
    match event {
        EventView::Bytes(auth) => usable_identity(auth),
        other => Err("无法读取当前认证文件 "@ + located_failure_text(other)),
    }
}

/// The account that is in use, from what its credential file was answered with.
pub fn current_account_id(event: Event) -> (r: Result<String, String>)
    ensures
        outcome(r) == current_id_reply(event@),
{
    match event {
        Event::Bytes(auth) => usable_auth_identity(auth.as_slice()),
        other => Err(join2("无法读取当前认证文件 ", located_failure(other).as_str())),
    }
}

/// The account of a home of the hub's own, from what its credential file was answered with.
pub open spec fn isolated_id_reply(event: EventView) -> Result<Seq<char>, Seq<char>> {
    match event {
        EventView::Bytes(auth) => usable_identity(auth),
        other => Err("无法读取隔离认证文件："@ + failure_text(other)),
    }
}

/// The account of a home of the hub's own, from what its credential file was answered with.
pub fn isolated_account_id(event: Event) -> (r: Result<String, String>)
    ensures
        outcome(r) == isolated_id_reply(event@),
{
    match event {
        Event::Bytes(auth) => usable_auth_identity(auth.as_slice()),
        other => Err(join2("无法读取隔离认证文件：", failure(other).as_str())),
    }
}

/// Importing the credentials of a home into the vault.
#[derive(Debug)]
pub enum Import {
    Read { account: Option<AccountInfo>, label: Option<String> },
    Sealed { id: String, account: Option<AccountInfo>, label: Option<String> },
    Created { id: String, sealed: Vec<u8>, account: Option<AccountInfo>, label: Option<String> },
    Written { id: String, account: Option<AccountInfo>, label: Option<String> },
    Index { id: String, account: Option<AccountInfo>, label: Option<String> },
    Clock {
        index: AccountIndex,
        id: String,
        account: Option<AccountInfo>,
        label: Option<String>,
    },
    Entered(SavedAccount),
}

/// What `Import` says.
#[verifier::ext_equal]
pub enum ImportView {
    Read { account: Option<AccountInfoView>, label: Option<Seq<char>> },
    Sealed { id: Seq<char>, account: Option<AccountInfoView>, label: Option<Seq<char>> },
    Created {
        id: Seq<char>,
        sealed: Seq<u8>,
        account: Option<AccountInfoView>,
        label: Option<Seq<char>>,
    },
    Written { id: Seq<char>, account: Option<AccountInfoView>, label: Option<Seq<char>> },
    Index { id: Seq<char>, account: Option<AccountInfoView>, label: Option<Seq<char>> },
    Clock {
        index: AccountIndexView,
        id: Seq<char>,
        account: Option<AccountInfoView>,
        label: Option<Seq<char>>,
    },
    Entered(SavedAccountView),
}

impl View for Import {
    type V = ImportView;

    open spec fn view(&self) -> ImportView {
        match self {
            Import::Read { account, label } => ImportView::Read {
                account: held(*account),
                label: held(*label),
            },
            Import::Sealed { id, account, label } => ImportView::Sealed {
                id: id@,
                account: held(*account),
                label: held(*label),
            },
            Import::Created { id, sealed, account, label } => ImportView::Created {
                id: id@,
                sealed: sealed@,
                account: held(*account),
                label: held(*label),
            },
            Import::Written { id, account, label } => ImportView::Written {
                id: id@,
                account: held(*account),
                label: held(*label),
            },
            Import::Index { id, account, label } => ImportView::Index {
                id: id@,
                account: held(*account),
                label: held(*label),
            },
            Import::Clock { index, id, account, label } => ImportView::Clock {
                index: index@,
                id: id@,
                account: held(*account),
                label: held(*label),
            },
            Import::Entered(inner) => ImportView::Entered(inner@),
        }
    }
}

/// Imports the credentials of a home into the vault.
pub open spec fn importing(
    home: HomeView,
    account: Option<AccountInfoView>,
    label: Option<Seq<char>>,
) -> StepView<ActionView, ImportView, SavedAccountView> {
    StepView::Ask(
        ActionView::Read(PlaceView::InHome(home, HomeFile::Auth)),
        ImportView::Read { account, label },
    )
}

/// Imports the credentials of a home into the vault.
pub fn import_current(home: Home, account: Option<AccountInfo>, label: Option<String>) -> (r: Step<
    Action,
    Import,
    SavedAccount,
>)
    ensures
        r@ == importing(home@, held(account), held(label)),
{
    Step::Ask(Action::Read(Place::InHome(home, HomeFile::Auth)), Import::Read { account, label })
}

/// Goes on with the answer to what was asked.
pub open spec fn import_next(
    state: ImportView,
    event: EventView,
) -> StepView<ActionView, ImportView, SavedAccountView> {
    match state {
        ImportView::Read { account, label } => match event {
            EventView::Bytes(auth) => match usable_identity(auth) {
                Err(error) => StepView::Done(Err(error)),
                Ok(id) => StepView::Ask(
                    ActionView::Seal(auth),
                    ImportView::Sealed { id, account, label },
                ),
            },
            other => StepView::Done(
                Err("无法读取当前认证文件 "@ + located_failure_text(other)),
            ),
        },
        ImportView::Sealed { id, account, label } => match event {
            EventView::Bytes(sealed) => StepView::Ask(
                ActionView::CreateDir(PlaceView::VaultDir),
                ImportView::Created { id, sealed, account, label },
            ),
            other => StepView::Done(Err(failure_text(other))),
        },
        ImportView::Created { id, sealed, account, label } => match done_reply_as(
            event,
            "无法创建账号保险库："@,
        ) {
            Err(error) => StepView::Done(Err(error)),
            Ok(_) => StepView::Ask(
                ActionView::Write(PlaceView::Vault(id), sealed),
                ImportView::Written { id, account, label },
            ),
        },
        ImportView::Written { id, account, label } => match done_reply(event) {
            Err(error) => StepView::Done(Err(error)),
            Ok(_) => StepView::Ask(ActionView::ReadIndex, ImportView::Index { id, account, label }),
        },
        ImportView::Index { id, account, label } => match index_reply(event) {
            Err(error) => StepView::Done(Err(error)),
            Ok(index) => StepView::Ask(
                ActionView::Now,
                ImportView::Clock { index, id, account, label },
            ),
        },
        ImportView::Clock { index, id, account, label } => match event {
            EventView::Time { seconds, nanos: _ } => match merged(
                index,
                id,
                account,
                label,
                seconds,
            ) {
                Err(error) => StepView::Done(Err(error)),
                Ok(saved) => StepView::Ask(
                    ActionView::WriteIndex(entered(index, saved)),
                    ImportView::Entered(saved),
                ),
            },
            other => StepView::Done(Err(failure_text(other))),
        },
        ImportView::Entered(saved) => match done_reply(event) {
            Err(error) => StepView::Done(Err(error)),
            Ok(_) => StepView::Done(Ok(saved)),
        },
    }
}

impl Import {
    /// Goes on with the answer to what was asked.
    pub fn resume(self, event: Event) -> (r: Step<Action, Import, SavedAccount>)
        ensures
            r@ == import_next(self@, event@),
    {
        match self {
            Import::Read { account, label } => match event {
                Event::Bytes(auth) => match usable_auth_identity(auth.as_slice()) {
                    Err(error) => Step::Done(Err(error)),
                    Ok(id) => Step::Ask(Action::Seal(auth), Import::Sealed { id, account, label }),
                },
                other => Step::Done(
                    Err(join2("无法读取当前认证文件 ", located_failure(other).as_str())),
                ),
            },
            Import::Sealed { id, account, label } => match event {
                Event::Bytes(sealed) => Step::Ask(
                    Action::CreateDir(Place::VaultDir),
                    Import::Created { id, sealed, account, label },
                ),
                other => Step::Done(Err(failure(other))),
            },
            Import::Created { id, sealed, account, label } => match expect_done_as(
                event,
                "无法创建账号保险库：",
            ) {
                Err(error) => Step::Done(Err(error)),
                Ok(_) => Step::Ask(
                    Action::Write(Place::Vault(id.clone()), sealed),
                    Import::Written { id, account, label },
                ),
            },
            Import::Written { id, account, label } => match expect_done(event) {
                Err(error) => Step::Done(Err(error)),
                Ok(_) => Step::Ask(Action::ReadIndex, Import::Index { id, account, label }),
            },
            Import::Index { id, account, label } => match expect_index(event) {
                Err(error) => Step::Done(Err(error)),
                Ok(index) => Step::Ask(Action::Now, Import::Clock { index, id, account, label }),
            },
            Import::Clock { index, id, account, label } => match event {
                Event::Time { seconds, nanos: _ } => match merge(
                    &index,
                    id.as_str(),
                    account,
                    label,
                    seconds,
                ) {
                    Err(error) => Step::Done(Err(error)),
                    Ok(saved) => Step::Ask(
                        Action::WriteIndex(enter(index, &saved)),
                        Import::Entered(saved),
                    ),
                },
                other => Step::Done(Err(failure(other))),
            },
            Import::Entered(saved) => match expect_done(event) {
                Err(error) => Step::Done(Err(error)),
                Ok(_) => Step::Done(Ok(saved)),
            },
        }
    }
}

/// Removing the backups that are no longer kept: whether there are any is awaited, then their
/// names, then the removal of the first of those that go.
#[derive(Debug)]
pub enum Prune {
    Present { keep: usize },
    Listed { keep: usize },
    Removed { rest: Vec<String> },
}

/// What `Prune` says.
#[verifier::ext_equal]
pub enum PruneView {
    Present { keep: usize },
    Listed { keep: usize },
    Removed { rest: Seq<Seq<char>> },
}

impl View for Prune {
    type V = PruneView;

    open spec fn view(&self) -> PruneView {
        match self {
            Prune::Present { keep } => PruneView::Present {
                keep: *keep,
            },
            Prune::Listed { keep } => PruneView::Listed {
                keep: *keep,
            },
            Prune::Removed { rest } => PruneView::Removed {
                rest: views(rest@),
            },
        }
    }
}

/// Removes all backups but the newest ones.
pub open spec fn pruning(keep: usize) -> StepView<ActionView, PruneView, ()> {
    StepView::Ask(ActionView::Exists(PlaceView::BackupDir), PruneView::Present { keep })
}

/// Removes all backups but the newest ones.
pub fn prune_switch_backups(keep: usize) -> (r: Step<Action, Prune, ()>)
    ensures
        r@ == pruning(keep),
{
    Step::Ask(Action::Exists(Place::BackupDir), Prune::Present { keep })
}

/// Removes the backups with these names, one by one.
pub open spec fn prune_rest(names: Seq<Seq<char>>) -> StepView<ActionView, PruneView, ()> {
    match first_and_rest(names) {
        None => StepView::Done(Ok(())),
        Some((first, rest)) => StepView::Ask(
            ActionView::Remove(PlaceView::Backup(first)),
            PruneView::Removed { rest },
        ),
    }
}

/// Removes the backups with these names, one by one.
pub fn remove_backups(names: Vec<String>) -> (r: Step<Action, Prune, ()>)
    ensures
        r@ == prune_rest(views(names@)),
{
    match split_first(names) {
        None => Step::Done(Ok(())),
        Some((first, rest)) => Step::Ask(
            Action::Remove(Place::Backup(first)),
            Prune::Removed { rest },
        ),
    }
}

/// Goes on with the answer to what was asked.
pub open spec fn prune_next(
    state: PruneView,
    event: EventView,
) -> StepView<ActionView, PruneView, ()> {
    match state {
        PruneView::Present { keep } => if present(event) {
            StepView::Ask(ActionView::List(PlaceView::BackupDir), PruneView::Listed { keep })
        } else {
            StepView::Done(Ok(()))
        },
        PruneView::Listed { keep } => match event {
            EventView::Names(entries) => prune_rest(
                outdated(names_of(entries), keep),
            ),
            other => StepView::Done(
                Err("无法读取切换备份目录："@ + failure_text(other)),
            ),
        },
        PruneView::Removed { rest } => match done_reply_as(event, "无法轮换切换备份："@) {
            Err(error) => StepView::Done(Err(error)),
            Ok(_) => prune_rest(rest),
        },
    }
}

impl Prune {
    /// Goes on with the answer to what was asked.
    pub fn resume(self, event: Event) -> (r: Step<Action, Prune, ()>)
        ensures
            r@ == prune_next(self@, event@),
    {
        match self {
            Prune::Present { keep } => if is_present(event) {
                Step::Ask(Action::List(Place::BackupDir), Prune::Listed { keep })
            } else {
                Step::Done(Ok(()))
            },
            Prune::Listed { keep } => match event {
                Event::Names(entries) => remove_backups(
                    outdated_backups(&readable_names(entries), keep),
                ),
                other => Step::Done(
                    Err(join2("无法读取切换备份目录：", failure(other).as_str())),
                ),
            },
            Prune::Removed { rest } => match expect_done_as(event, "无法轮换切换备份：") {
                Err(error) => Step::Done(Err(error)),
                Ok(_) => remove_backups(rest),
            },
        }
    }
}

/// Credentials on their way into the active home: what is written there, whose it is, and what
/// was there before.
#[derive(Debug)]
pub struct Exchange {
    pub codex_home: String,
    pub target: Vec<u8>,
    pub id: String,
    pub before: Option<Vec<u8>>,
}

/// What `Exchange` says.
#[verifier::ext_equal]
pub struct ExchangeView {
    pub codex_home: Seq<char>,
    pub target: Seq<u8>,
    pub id: Seq<char>,
    pub before: Option<Seq<u8>>,
}

impl View for Exchange {
    type V = ExchangeView;

    open spec fn view(&self) -> ExchangeView {
        ExchangeView {
            codex_home: self.codex_home@,
            target: self.target@,
            id: self.id@,
            before: held(self.before),
        }
    }
}

/// Replacing the credentials that Codex uses.
///
/// What is there is read, sealed and kept as a backup; then the update is recorded. What is there
/// is read again, and only if it is still the same are the new credentials written. They are read
/// back, and where that does not show the account that was meant, what was there before is put
/// back. The record is removed once the new credentials or those of before are in place; where it
/// cannot be removed it stays, and the next start settles it.
#[derive(Debug)]
pub enum Replace {
    Read { codex_home: String, target: Vec<u8>, id: String, same_account: bool },
    Clock(Exchange),
    Sealed(Exchange, String),
    BackedUp(Exchange),
    Pruned(Exchange, Prune),
    Recorded(Exchange, Begin),
    Confirmed(Exchange),
    Written(Exchange),
    Verified(Exchange),
    Restored(String),
    Ended { result: Result<(), String>, remove: CheckedRemove },
}

/// What `Replace` says.
#[verifier::ext_equal]
pub enum ReplaceView {
    Read { codex_home: Seq<char>, target: Seq<u8>, id: Seq<char>, same_account: bool },
    Clock(ExchangeView),
    Sealed(ExchangeView, Seq<char>),
    BackedUp(ExchangeView),
    Pruned(ExchangeView, PruneView),
    Recorded(ExchangeView, BeginView),
    Confirmed(ExchangeView),
    Written(ExchangeView),
    Verified(ExchangeView),
    Restored(Seq<char>),
    Ended { result: Result<(), Seq<char>>, remove: CheckedRemoveView },
}

impl View for Replace {
    type V = ReplaceView;

    open spec fn view(&self) -> ReplaceView {
        match self {
            Replace::Read { codex_home, target, id, same_account } => ReplaceView::Read {
                codex_home: codex_home@,
                target: target@,
                id: id@,
                same_account: *same_account,
            },
            Replace::Clock(inner) => ReplaceView::Clock(inner@),
            Replace::Sealed(first, second) => ReplaceView::Sealed(first@, second@),
            Replace::BackedUp(inner) => ReplaceView::BackedUp(inner@),
            Replace::Pruned(first, second) => ReplaceView::Pruned(first@, second@),
            Replace::Recorded(first, second) => ReplaceView::Recorded(first@, second@),
            Replace::Confirmed(inner) => ReplaceView::Confirmed(inner@),
            Replace::Written(inner) => ReplaceView::Written(inner@),
            Replace::Verified(inner) => ReplaceView::Verified(inner@),
            Replace::Restored(inner) => ReplaceView::Restored(inner@),
            Replace::Ended { result, remove } => ReplaceView::Ended {
                result: outcome(*result),
                remove: remove@,
            },
        }
    }
}

/// Replaces the credentials that Codex uses in the home of this path, with `same_account` only
/// those of the same account.
pub open spec fn replacing(
    codex_home: Seq<char>,
    target: Seq<u8>,
    id: Seq<char>,
    same_account: bool,
) -> StepView<ActionView, ReplaceView, ()> {
    match usable_identity(target) {
        Err(error) => StepView::Done(Err(error)),
        Ok(found) => if found == id {
            StepView::Ask(
                ActionView::Read(PlaceView::InHome(HomeView::Active, HomeFile::Auth)),
                ReplaceView::Read { codex_home, target, id, same_account },
            )
        } else {
            StepView::Done(Err("保存的凭据与目标账号不一致，已取消写入"@))
        },
    }
}

/// Replaces the credentials that Codex uses in the home of this path, with `same_account` only
/// those of the same account.
pub fn replace_current_auth(
    codex_home: &str,
    target: Vec<u8>,
    id: &str,
    same_account: bool,
) -> (r: Step<Action, Replace, ()>)
    ensures
        r@ == replacing(codex_home@, target@, id@, same_account),
{
    match usable_auth_identity(target.as_slice()) {
        Err(error) => Step::Done(Err(error)),
        Ok(found) => if same(found.as_str(), id) {
            Step::Ask(
                Action::Read(Place::InHome(Home::Active, HomeFile::Auth)),
                Replace::Read {
                    codex_home: codex_home.to_owned(),
                    target,
                    id: id.to_owned(),
                    same_account,
                },
            )
        } else {
            Step::Done(Err("保存的凭据与目标账号不一致，已取消写入".to_owned()))
        },
    }
}

/// Whether credentials, if there are any, are those of an account.
pub open spec fn belongs_to(auth: Option<Seq<u8>>, id: Seq<char>) -> bool {
    match auth {
        Some(auth) => match identity(auth) {
            Ok(found) => (found == id),
            Err(_) => false,
        },
        None => false,
    }
}

/// Whether credentials, if there are any, are those of an account.
pub fn is_account(auth: &Option<Vec<u8>>, id: &str) -> (r: bool)
    ensures
        r == belongs_to(held(*auth), id@),
{
    match auth {
        Some(auth) => match auth_identity(auth.as_slice()) {
            Ok(found) => same(found.as_str(), id),
            Err(_) => false,
        },
        None => false,
    }
}

/// Whether credentials, if there are any, are these.
pub open spec fn is_target(auth: Option<Seq<u8>>, target: Seq<u8>) -> bool {
    match auth {
        Some(auth) => (auth == target),
        None => false,
    }
}

/// Whether credentials, if there are any, are these.
pub fn is_exactly(auth: &Option<Vec<u8>>, target: &Vec<u8>) -> (r: bool)
    ensures
        r == is_target(held(*auth), target@),
{
    match auth {
        Some(auth) => same_bytes(auth, target),
        None => false,
    }
}

/// The account that a backup is named after.
pub open spec fn backup_owner(auth: Seq<u8>) -> Seq<char> {
    match identity(auth) {
        Ok(id) => id,
        Err(_) => "unrecognized"@,
    }
}

/// The account that a backup is named after.
pub fn owner_name(auth: &Vec<u8>) -> (r: String)
    ensures
        r@ == backup_owner(auth@),
{
    match auth_identity(auth.as_slice()) {
        Ok(id) => id,
        Err(_) => "unrecognized".to_owned(),
    }
}

/// Decides on an exchange once the credentials in use are known.
pub open spec fn exchange_read(
    exchange: ExchangeView,
    same_account: bool,
) -> StepView<ActionView, ReplaceView, ()> {
    if same_account && !belongs_to(exchange.before, exchange.id) {
        StepView::Done(Err("当前登录已发生变化，已取消写入，请重试"@))
    } else if is_target(exchange.before, exchange.target) {
        StepView::Done(Ok(()))
    } else {
        match exchange.before is Some {
            true => StepView::Ask(ActionView::Now, ReplaceView::Clock(exchange)),
            false => exchange_record(exchange),
        }
    }
}

/// Decides on an exchange once the credentials in use are known.
pub fn begin_exchange(exchange: Exchange, same_account: bool) -> (r: Step<Action, Replace, ()>)
    ensures
        r@ == exchange_read(exchange@, same_account),
{
    if same_account && !is_account(&exchange.before, exchange.id.as_str()) {
        Step::Done(Err("当前登录已发生变化，已取消写入，请重试".to_owned()))
    } else if is_exactly(&exchange.before, &exchange.target) {
        Step::Done(Ok(()))
    } else {
        match exchange.before.is_some() {
            true => Step::Ask(Action::Now, Replace::Clock(exchange)),
            false => record_exchange(exchange),
        }
    }
}

/// Reads once more what is about to be replaced.
pub open spec fn exchange_confirm(exchange: ExchangeView) -> StepView<ActionView, ReplaceView, ()> {
    StepView::Ask(
        ActionView::Read(PlaceView::InHome(HomeView::Active, HomeFile::Auth)),
        ReplaceView::Confirmed(exchange),
    )
}

/// Reads once more what is about to be replaced.
pub fn confirm_exchange(exchange: Exchange) -> (r: Step<Action, Replace, ()>)
    ensures
        r@ == exchange_confirm(exchange@),
{
    Step::Ask(
        Action::Read(Place::InHome(Home::Active, HomeFile::Auth)),
        Replace::Confirmed(exchange),
    )
}

/// Goes on with an exchange that is being recorded.
pub open spec fn exchange_recorded(
    exchange: ExchangeView,
    step: StepView<ActionView, BeginView, ()>,
) -> StepView<ActionView, ReplaceView, ()> {
    match step {
        StepView::Ask(action, begin) => StepView::Ask(
            action,
            ReplaceView::Recorded(exchange, begin),
        ),
        StepView::Done(Err(error)) => StepView::Done(Err(error)),
        StepView::Done(Ok(_)) => exchange_confirm(exchange),
    }
}

/// Goes on with an exchange that is being recorded.
pub fn exchange_after_record(
    exchange: Exchange,
    step: Step<Action, Begin, ()>,
) -> (r: Step<Action, Replace, ()>)
    ensures
        r@ == exchange_recorded(exchange@, step@),
{
    match step {
        Step::Ask(action, begin) => Step::Ask(action, Replace::Recorded(exchange, begin)),
        Step::Done(Err(error)) => Step::Done(Err(error)),
        Step::Done(Ok(_)) => confirm_exchange(exchange),
    }
}

/// Records an exchange before it is made.
pub open spec fn exchange_record(exchange: ExchangeView) -> StepView<ActionView, ReplaceView, ()> {
    exchange_recorded(
        exchange,
        beginning(exchange.codex_home, exchange.target, exchange.id, exchange.before),
    )
}

/// Records an exchange before it is made.
pub fn record_exchange(exchange: Exchange) -> (r: Step<Action, Replace, ()>)
    ensures
        r@ == exchange_record(exchange@),
{
    let before = copy_optional_bytes(&exchange.before);
    let step = begin(
        exchange.codex_home.as_str(),
        &exchange.target,
        exchange.id.as_str(),
        before,
    );
    exchange_after_record(exchange, step)
}

/// Goes on with the record of an exchange that is over being removed.
pub open spec fn exchange_ended(
    result: Result<(), Seq<char>>,
    step: StepView<ActionView, CheckedRemoveView, ()>,
) -> StepView<ActionView, ReplaceView, ()> {
    match step {
        StepView::Ask(action, remove) => StepView::Ask(
            action,
            ReplaceView::Ended { result, remove },
        ),
        StepView::Done(_) => StepView::Done(result),
    }
}

/// Goes on with the record of an exchange that is over being removed.
pub fn exchange_after_end(
    result: Result<(), String>,
    step: Step<Action, CheckedRemove, ()>,
) -> (r: Step<Action, Replace, ()>)
    ensures
        r@ == exchange_ended(outcome(result), step@),
{
    match step {
        Step::Ask(action, remove) => Step::Ask(action, Replace::Ended { result, remove }),
        Step::Done(_) => Step::Done(result),
    }
}

/// Removes the record of an exchange that has come to a result.
pub open spec fn exchange_end(
    result: Result<(), Seq<char>>,
) -> StepView<ActionView, ReplaceView, ()> {
    exchange_ended(result, finishing())
}

/// Removes the record of an exchange that has come to a result.
pub fn end_exchange(result: Result<(), String>) -> (r: Step<Action, Replace, ()>)
    ensures
        r@ == exchange_end(outcome(result)),
{
    exchange_after_end(result, finish())
}

/// Goes on with an exchange whose backup was written.
pub open spec fn exchange_prune(
    exchange: ExchangeView,
    step: StepView<ActionView, PruneView, ()>,
) -> StepView<ActionView, ReplaceView, ()> {
    match step {
        StepView::Ask(action, prune) => StepView::Ask(action, ReplaceView::Pruned(exchange, prune)),
        StepView::Done(Err(error)) => StepView::Done(Err(error)),
        StepView::Done(Ok(_)) => exchange_record(exchange),
    }
}

/// Goes on with an exchange whose backup was written.
pub fn prune_exchange(
    exchange: Exchange,
    step: Step<Action, Prune, ()>,
) -> (r: Step<Action, Replace, ()>)
    ensures
        r@ == exchange_prune(exchange@, step@),
{
    match step {
        Step::Ask(action, prune) => Step::Ask(action, Replace::Pruned(exchange, prune)),
        Step::Done(Err(error)) => Step::Done(Err(error)),
        Step::Done(Ok(_)) => record_exchange(exchange),
    }
}

/// Accepts the credentials that were read back.
pub open spec fn written_verdict(event: EventView, id: Seq<char>) -> Result<(), Seq<char>> {
    match event {
        EventView::Bytes(auth) => match usable_identity(auth) {
            Err(error) => Err(error),
            Ok(found) => if found == id {
                Ok(())
            } else {
                Err("切换后账号身份不一致"@)
            },
        },
        other => Err("无法验证切换结果："@ + failure_text(other)),
    }
}

/// Accepts the credentials that were read back.
pub fn verify_written(event: Event, id: &str) -> (r: Result<(), String>)
    ensures
        outcome(r) == written_verdict(event@, id@),
{
    match event {
        Event::Bytes(auth) => match usable_auth_identity(auth.as_slice()) {
            Err(error) => Err(error),
            Ok(found) => if same(found.as_str(), id) {
                Ok(())
            } else {
                Err("切换后账号身份不一致".to_owned())
            },
        },
        other => Err(join2("无法验证切换结果：", failure(other).as_str())),
    }
}

/// Puts back what was there before.
pub open spec fn exchange_restore(
    before: Option<Seq<u8>>,
    error: Seq<char>,
) -> StepView<ActionView, ReplaceView, ()> {
    match before {
        Some(auth) => StepView::Ask(ActionView::ReplaceActive(auth), ReplaceView::Restored(error)),
        None => StepView::Ask(
            ActionView::Remove(PlaceView::InHome(HomeView::Active, HomeFile::Auth)),
            ReplaceView::Restored(error),
        ),
    }
}

/// Puts back what was there before.
pub fn restore_exchange(before: Option<Vec<u8>>, error: String) -> (r: Step<Action, Replace, ()>)
    ensures
        r@ == exchange_restore(held(before), error@),
{
    match before {
        Some(auth) => Step::Ask(Action::ReplaceActive(auth), Replace::Restored(error)),
        None => Step::Ask(
            Action::Remove(Place::InHome(Home::Active, HomeFile::Auth)),
            Replace::Restored(error),
        ),
    }
}

/// Goes on with the answer to what was asked.
pub open spec fn replace_next(
    state: ReplaceView,
    event: EventView,
) -> StepView<ActionView, ReplaceView, ()> {
    match state {
        ReplaceView::Read { codex_home, target, id, same_account } => match auth_reply(event) {
            Err(error) => StepView::Done(Err(error)),
            Ok(before) => exchange_read(
                ExchangeView { codex_home, target, id, before },
                same_account,
            ),
        },
        ReplaceView::Clock(exchange) => match event {
            EventView::Time { seconds, nanos } => match exchange.before {
                Some(auth) => {
                    let name = backup_name(seconds, nanos, backup_owner(auth));
                    StepView::Ask(ActionView::Seal(auth), ReplaceView::Sealed(exchange, name))
                },
                None => exchange_record(exchange),
            },
            other => StepView::Done(Err(failure_text(other))),
        },
        ReplaceView::Sealed(exchange, name) => match event {
            EventView::Bytes(sealed) => StepView::Ask(
                ActionView::Write(PlaceView::Backup(name), sealed),
                ReplaceView::BackedUp(exchange),
            ),
            other => StepView::Done(Err(failure_text(other))),
        },
        ReplaceView::BackedUp(exchange) => match done_reply(event) {
            Err(error) => StepView::Done(Err(error)),
            Ok(_) => exchange_prune(exchange, pruning(MAX_SWITCH_BACKUPS)),
        },
        ReplaceView::Pruned(exchange, prune) => exchange_prune(
            exchange,
            prune_next(prune, event),
        ),
        ReplaceView::Recorded(exchange, begin) => exchange_recorded(
            exchange,
            begin_next(begin, event),
        ),
        ReplaceView::Confirmed(exchange) => match auth_reply(event) {
            Err(error) => exchange_end(Err(error)),
            Ok(found) => if found == exchange.before {
                StepView::Ask(
                    ActionView::ReplaceActive(exchange.target),
                    ReplaceView::Written(exchange),
                )
            } else {
                exchange_end(Err("当前登录已发生变化，已取消写入，请重试"@))
            },
        },
        ReplaceView::Written(exchange) => match done_reply(event) {
            Err(error) => exchange_end(Err(error)),
            Ok(_) => StepView::Ask(
                ActionView::Read(PlaceView::InHome(HomeView::Active, HomeFile::Auth)),
                ReplaceView::Verified(exchange),
            ),
        },
        ReplaceView::Verified(exchange) => match written_verdict(event, exchange.id) {
            Ok(_) => exchange_end(Ok(())),
            Err(error) => exchange_restore(exchange.before, error),
        },
        ReplaceView::Restored(error) => match event {
            EventView::Done => exchange_end(Err(error + "；已恢复原认证状态"@)),
            other => StepView::Done(
                Err(error + "；恢复原认证失败："@ + failure_text(other)),
            ),
        },
        ReplaceView::Ended { result, remove } => exchange_ended(
            result,
            checked_remove_next(remove, event),
        ),
    }
}

impl Replace {
    /// Goes on with the answer to what was asked.
    pub fn resume(self, event: Event) -> (r: Step<Action, Replace, ()>)
        ensures
            r@ == replace_next(self@, event@),
    {
        match self {
            Replace::Read { codex_home, target, id, same_account } => match expect_optional_auth(
                event,
            ) {
                Err(error) => Step::Done(Err(error)),
                Ok(before) => begin_exchange(
                    Exchange { codex_home, target, id, before },
                    same_account,
                ),
            },
            Replace::Clock(exchange) => match event {
                Event::Time { seconds, nanos } => match copy_optional_bytes(&exchange.before) {
                    Some(auth) => {
                        let name = backup_file_name(seconds, nanos, owner_name(&auth).as_str());
                        Step::Ask(Action::Seal(auth), Replace::Sealed(exchange, name))
                    },
                    None => record_exchange(exchange),
                },
                other => Step::Done(Err(failure(other))),
            },
            Replace::Sealed(exchange, name) => match event {
                Event::Bytes(sealed) => Step::Ask(
                    Action::Write(Place::Backup(name), sealed),
                    Replace::BackedUp(exchange),
                ),
                other => Step::Done(Err(failure(other))),
            },
            Replace::BackedUp(exchange) => match expect_done(event) {
                Err(error) => Step::Done(Err(error)),
                Ok(_) => prune_exchange(exchange, prune_switch_backups(MAX_SWITCH_BACKUPS)),
            },
            Replace::Pruned(exchange, prune) => prune_exchange(
                exchange,
                Prune::resume(prune, event),
            ),
            Replace::Recorded(exchange, begin) => exchange_after_record(
                exchange,
                Begin::resume(begin, event),
            ),
            Replace::Confirmed(exchange) => match expect_optional_auth(event) {
                Err(error) => end_exchange(Err(error)),
                Ok(found) => if same_optional_bytes(&found, &exchange.before) {
                    Step::Ask(
                        Action::ReplaceActive(copy_bytes(&exchange.target)),
                        Replace::Written(exchange),
                    )
                } else {
                    end_exchange(Err("当前登录已发生变化，已取消写入，请重试".to_owned()))
                },
            },
            Replace::Written(exchange) => match expect_done(event) {
                Err(error) => end_exchange(Err(error)),
                Ok(_) => Step::Ask(
                    Action::Read(Place::InHome(Home::Active, HomeFile::Auth)),
                    Replace::Verified(exchange),
                ),
            },
            Replace::Verified(exchange) => match verify_written(event, exchange.id.as_str()) {
                Ok(_) => end_exchange(Ok(())),
                Err(error) => restore_exchange(exchange.before, error),
            },
            Replace::Restored(error) => match event {
                Event::Done => end_exchange(Err(join2(error.as_str(), "；已恢复原认证状态"))),
                other => Step::Done(
                    Err(join3(error.as_str(), "；恢复原认证失败：", failure(other).as_str())),
                ),
            },
            Replace::Ended { result, remove } => exchange_after_end(
                result,
                CheckedRemove::resume(remove, event),
            ),
        }
    }
}

/// Activating a saved account: its credentials are loaded, for this account and this home of Codex,
/// then they replace those in use there.
#[derive(Debug)]
pub enum Activate {
    Load(LoadSaved, String, String),
    Replace(Replace),
}

/// What `Activate` says.
#[verifier::ext_equal]
pub enum ActivateView {
    Load(LoadSavedView, Seq<char>, Seq<char>),
    Replace(ReplaceView),
}

impl View for Activate {
    type V = ActivateView;

    open spec fn view(&self) -> ActivateView {
        match self {
            Activate::Load(first, second, third) => ActivateView::Load(first@, second@, third@),
            Activate::Replace(inner) => ActivateView::Replace(inner@),
        }
    }
}

/// Goes on with an activation whose credentials are being loaded.
pub open spec fn activate_loaded(
    step: StepView<ActionView, LoadSavedView, Seq<u8>>,
    id: Seq<char>,
    codex_home: Seq<char>,
) -> StepView<ActionView, ActivateView, ()> {
    match step {
        StepView::Ask(action, load) => StepView::Ask(
            action,
            ActivateView::Load(load, id, codex_home),
        ),
        StepView::Done(Err(error)) => StepView::Done(Err(error)),
        StepView::Done(Ok(auth)) => activate_replaced(
            replacing(codex_home, auth, id, false),
        ),
    }
}

/// Goes on with an activation whose credentials are being loaded.
pub fn activate_after_load(
    step: Step<Action, LoadSaved, Vec<u8>>,
    id: String,
    codex_home: String,
) -> (r: Step<Action, Activate, ()>)
    ensures
        r@ == activate_loaded(step@, id@, codex_home@),
{
    match step {
        Step::Ask(action, load) => Step::Ask(action, Activate::Load(load, id, codex_home)),
        Step::Done(Err(error)) => Step::Done(Err(error)),
        Step::Done(Ok(auth)) => activate_after_replace(
            replace_current_auth(codex_home.as_str(), auth, id.as_str(), false),
        ),
    }
}

/// Goes on with an activation whose credentials are being written.
pub open spec fn activate_replaced(
    step: StepView<ActionView, ReplaceView, ()>,
) -> StepView<ActionView, ActivateView, ()> {
    match step {
        StepView::Ask(action, replace) => StepView::Ask(action, ActivateView::Replace(replace)),
        StepView::Done(result) => StepView::Done(result),
    }
}

/// Goes on with an activation whose credentials are being written.
pub fn activate_after_replace(step: Step<Action, Replace, ()>) -> (r: Step<Action, Activate, ()>)
    ensures
        r@ == activate_replaced(step@),
{
    match step {
        Step::Ask(action, replace) => Step::Ask(action, Activate::Replace(replace)),
        Step::Done(result) => Step::Done(result),
    }
}

/// Makes a saved account the one that Codex uses.
pub open spec fn activating(
    account_id: Seq<char>,
    codex_home: Seq<char>,
) -> StepView<ActionView, ActivateView, ()> {
    activate_loaded(loading_saved(account_id), account_id, codex_home)
}

/// Makes a saved account the one that Codex uses.
pub fn activate_account(account_id: &str, codex_home: &str) -> (r: Step<Action, Activate, ()>)
    ensures
        r@ == activating(account_id@, codex_home@),
{
    activate_after_load(
        load_saved_auth(account_id),
        account_id.to_owned(),
        codex_home.to_owned(),
    )
}

/// Goes on with the answer to what was asked.
pub open spec fn activate_next(
    state: ActivateView,
    event: EventView,
) -> StepView<ActionView, ActivateView, ()> {
    match state {
        ActivateView::Load(load, id, codex_home) => activate_loaded(
            load_saved_next(load, event),
            id,
            codex_home,
        ),
        ActivateView::Replace(replace) => activate_replaced(replace_next(replace, event)),
    }
}

impl Activate {
    /// Goes on with the answer to what was asked.
    pub fn resume(self, event: Event) -> (r: Step<Action, Activate, ()>)
        ensures
            r@ == activate_next(self@, event@),
    {
        match self {
            Activate::Load(load, id, codex_home) => activate_after_load(
                LoadSaved::resume(load, event),
                id,
                codex_home,
            ),
            Activate::Replace(replace) => activate_after_replace(Replace::resume(replace, event)),
        }
    }
}

/// Saving the account in use before a switch.
#[derive(Debug)]
pub enum SaveCurrent {
    Read { target_id: String },
    Import(Import),
}

/// What `SaveCurrent` says.
#[verifier::ext_equal]
pub enum SaveCurrentView {
    Read { target_id: Seq<char> },
    Import(ImportView),
}

impl View for SaveCurrent {
    type V = SaveCurrentView;

    open spec fn view(&self) -> SaveCurrentView {
        match self {
            SaveCurrent::Read { target_id } => SaveCurrentView::Read {
                target_id: target_id@,
            },
            SaveCurrent::Import(inner) => SaveCurrentView::Import(inner@),
        }
    }
}

/// Goes on with the account in use being imported.
pub open spec fn save_imported(
    step: StepView<ActionView, ImportView, SavedAccountView>,
) -> StepView<ActionView, SaveCurrentView, ()> {
    match step {
        StepView::Ask(action, import) => StepView::Ask(action, SaveCurrentView::Import(import)),
        StepView::Done(Err(error)) => StepView::Done(Err(error)),
        StepView::Done(Ok(_)) => StepView::Done(Ok(())),
    }
}

/// Goes on with the account in use being imported.
pub fn save_after_import(
    step: Step<Action, Import, SavedAccount>,
) -> (r: Step<Action, SaveCurrent, ()>)
    ensures
        r@ == save_imported(step@),
{
    match step {
        Step::Ask(action, import) => Step::Ask(action, SaveCurrent::Import(import)),
        Step::Done(Err(error)) => Step::Done(Err(error)),
        Step::Done(Ok(_)) => Step::Done(Ok(())),
    }
}

/// Saves the account in use before a switch to `target_id`.
///
/// A login that is missing or damaged does not stand in the way of the switch, and that of the
/// target itself is not saved over what the vault has of it.
pub open spec fn saving_current(target_id: Seq<char>) -> StepView<ActionView, SaveCurrentView, ()> {
    StepView::Ask(
        ActionView::Read(PlaceView::InHome(HomeView::Active, HomeFile::Auth)),
        SaveCurrentView::Read { target_id: target_id },
    )
}

/// Saves the account in use before a switch to `target_id`.
///
/// A login that is missing or damaged does not stand in the way of the switch, and that of the
/// target itself is not saved over what the vault has of it.
pub fn save_current_before_switch(target_id: &str) -> (r: Step<Action, SaveCurrent, ()>)
    ensures
        r@ == saving_current(target_id@),
{
    Step::Ask(
        Action::Read(Place::InHome(Home::Active, HomeFile::Auth)),
        SaveCurrent::Read { target_id: target_id.to_owned() },
    )
}

/// Goes on with the answer to what was asked.
pub open spec fn save_current_next(
    state: SaveCurrentView,
    event: EventView,
) -> StepView<ActionView, SaveCurrentView, ()> {
    match state {
        SaveCurrentView::Read { target_id } => match auth_reply(event) {
            Err(error) => StepView::Done(Err(error)),
            Ok(None) => StepView::Done(Ok(())),
            Ok(Some(auth)) => match usable_identity(auth) {
                Err(_) => StepView::Done(Ok(())),
                Ok(found) => if found == target_id {
                    StepView::Done(Ok(()))
                } else {
                    save_imported(importing(HomeView::Active, None, None))
                },
            },
        },
        SaveCurrentView::Import(import) => save_imported(import_next(import, event)),
    }
}

impl SaveCurrent {
    /// Goes on with the answer to what was asked.
    pub fn resume(self, event: Event) -> (r: Step<Action, SaveCurrent, ()>)
        ensures
            r@ == save_current_next(self@, event@),
    {
        match self {
            SaveCurrent::Read { target_id } => match expect_optional_auth(event) {
                Err(error) => Step::Done(Err(error)),
                Ok(None) => Step::Done(Ok(())),
                Ok(Some(auth)) => match usable_auth_identity(auth.as_slice()) {
                    Err(_) => Step::Done(Ok(())),
                    Ok(found) => if same(found.as_str(), target_id.as_str()) {
                        Step::Done(Ok(()))
                    } else {
                        save_after_import(import_current(Home::Active, None, None))
                    },
                },
            },
            SaveCurrent::Import(import) => save_after_import(Import::resume(import, event)),
        }
    }
}

/// Completing a new authorization of a saved account.
#[derive(Debug)]
pub enum Reauthorize {
    Read { codex_home: String, home: Home, id: String, account: Option<AccountInfo> },
    Compared {
        codex_home: String,
        home: Home,
        id: String,
        account: Option<AccountInfo>,
        auth: Vec<u8>,
    },
    Replace { home: Home, account: Option<AccountInfo>, replace: Replace },
    Import { is_current: bool, import: Import },
}

/// What `Reauthorize` says.
#[verifier::ext_equal]
pub enum ReauthorizeView {
    Read {
        codex_home: Seq<char>,
        home: HomeView,
        id: Seq<char>,
        account: Option<AccountInfoView>,
    },
    Compared {
        codex_home: Seq<char>,
        home: HomeView,
        id: Seq<char>,
        account: Option<AccountInfoView>,
        auth: Seq<u8>,
    },
    Replace { home: HomeView, account: Option<AccountInfoView>, replace: ReplaceView },
    Import { is_current: bool, import: ImportView },
}

impl View for Reauthorize {
    type V = ReauthorizeView;

    open spec fn view(&self) -> ReauthorizeView {
        match self {
            Reauthorize::Read { codex_home, home, id, account } => ReauthorizeView::Read {
                codex_home: codex_home@,
                home: home@,
                id: id@,
                account: held(*account),
            },
            Reauthorize::Compared {
                codex_home,
                home,
                id,
                account,
                auth,
            } => ReauthorizeView::Compared {
                codex_home: codex_home@,
                home: home@,
                id: id@,
                account: held(*account),
                auth: auth@,
            },
            Reauthorize::Replace { home, account, replace } => ReauthorizeView::Replace {
                home: home@,
                account: held(*account),
                replace: replace@,
            },
            Reauthorize::Import { is_current, import } => ReauthorizeView::Import {
                is_current: *is_current,
                import: import@,
            },
        }
    }
}

/// Takes over the credentials of a login home for an account that is saved.
pub open spec fn reauthorizing(
    codex_home: Seq<char>,
    home: HomeView,
    account_id: Seq<char>,
    account: Option<AccountInfoView>,
) -> StepView<ActionView, ReauthorizeView, (SavedAccountView, bool)> {
    StepView::Ask(
        ActionView::Read(PlaceView::InHome(home, HomeFile::Auth)),
        ReauthorizeView::Read { codex_home, home, id: account_id, account },
    )
}

/// Takes over the credentials of a login home for an account that is saved.
pub fn complete_reauthorization(
    codex_home: &str,
    home: Home,
    account_id: &str,
    account: Option<AccountInfo>,
) -> (r: Step<Action, Reauthorize, (SavedAccount, bool)>)
    ensures
        r@ == reauthorizing(codex_home@, home@, account_id@, held(account)),
{
    Step::Ask(
        Action::Read(Place::InHome(home.clone(), HomeFile::Auth)),
        Reauthorize::Read {
            codex_home: codex_home.to_owned(),
            home,
            id: account_id.to_owned(),
            account,
        },
    )
}

/// Goes on with the new credentials being saved.
pub open spec fn reauthorize_imported(
    step: StepView<ActionView, ImportView, SavedAccountView>,
    is_current: bool,
) -> StepView<ActionView, ReauthorizeView, (SavedAccountView, bool)> {
    match step {
        StepView::Ask(action, import) => StepView::Ask(
            action,
            ReauthorizeView::Import { is_current, import },
        ),
        StepView::Done(Ok(saved)) => StepView::Done(Ok((saved, is_current))),
        StepView::Done(Err(error)) => if is_current {
            StepView::Done(
                Err(
                    "当前登录已更新，但保险库保存失败，请重新导入当前账号："@ + error,
                ),
            )
        } else {
            StepView::Done(Err(error))
        },
    }
}

/// Goes on with the new credentials being saved.
pub fn reauthorize_after_import(
    step: Step<Action, Import, SavedAccount>,
    is_current: bool,
) -> (r: Step<Action, Reauthorize, (SavedAccount, bool)>)
    ensures
        r@ == reauthorize_imported(step@, is_current),
{
    match step {
        Step::Ask(action, import) => Step::Ask(
            action,
            Reauthorize::Import { is_current, import },
        ),
        Step::Done(Ok(saved)) => Step::Done(Ok((saved, is_current))),
        Step::Done(Err(error)) => if is_current {
            Step::Done(
                Err(
                    join2(
                        "当前登录已更新，但保险库保存失败，请重新导入当前账号：",
                        error.as_str(),
                    ),
                ),
            )
        } else {
            Step::Done(Err(error))
        },
    }
}

/// Goes on with the credentials in use being replaced.
pub open spec fn reauthorize_replaced(
    step: StepView<ActionView, ReplaceView, ()>,
    home: HomeView,
    account: Option<AccountInfoView>,
) -> StepView<ActionView, ReauthorizeView, (SavedAccountView, bool)> {
    match step {
        StepView::Ask(action, replace) => StepView::Ask(
            action,
            ReauthorizeView::Replace { home, account, replace },
        ),
        StepView::Done(Err(error)) => StepView::Done(Err(error)),
        StepView::Done(Ok(_)) => reauthorize_imported(importing(home, account, None), true),
    }
}

/// Goes on with the credentials in use being replaced.
pub fn reauthorize_after_replace(
    step: Step<Action, Replace, ()>,
    home: Home,
    account: Option<AccountInfo>,
) -> (r: Step<Action, Reauthorize, (SavedAccount, bool)>)
    ensures
        r@ == reauthorize_replaced(step@, home@, held(account)),
{
    match step {
        Step::Ask(action, replace) => Step::Ask(
            action,
            Reauthorize::Replace { home, account, replace },
        ),
        Step::Done(Err(error)) => Step::Done(Err(error)),
        Step::Done(Ok(_)) => reauthorize_after_import(import_current(home, account, None), true),
    }
}

/// Whether an account is the one in use, from what its credential file was answered with.
pub open spec fn is_in_use(event: EventView, id: Seq<char>) -> bool {
    match current_id_reply(event) {
        Ok(found) => (found == id),
        Err(_) => false,
    }
}

/// Whether an account is the one in use, from what its credential file was answered with.
pub fn is_current_account(event: Event, id: &str) -> (r: bool)
    ensures
        r == is_in_use(event@, id@),
{
    match current_account_id(event) {
        Ok(found) => same(found.as_str(), id),
        Err(_) => false,
    }
}

/// Goes on with the answer to what was asked.
pub open spec fn reauthorize_next(
    state: ReauthorizeView,
    event: EventView,
) -> StepView<ActionView, ReauthorizeView, (SavedAccountView, bool)> {
    match state {
        ReauthorizeView::Read { codex_home, home, id, account } => match event {
            EventView::Bytes(auth) => match usable_identity(auth) {
                Err(error) => StepView::Done(Err(error)),
                Ok(found) => if found == id {
                    StepView::Ask(
                        ActionView::Read(PlaceView::InHome(HomeView::Active, HomeFile::Auth)),
                        ReauthorizeView::Compared { codex_home, home, id, account, auth },
                    )
                } else {
                    StepView::Done(
                        Err(
                            "登录的不是所选账号，已取消覆盖；请用该账号重新登录"@,
                        ),
                    )
                },
            },
            other => StepView::Done(
                Err("无法读取登录认证文件："@ + failure_text(other)),
            ),
        },
        ReauthorizeView::Compared { codex_home, home, id, account, auth } => if is_in_use(
            event,
            id,
        ) {
            reauthorize_replaced(
                replacing(codex_home, auth, id, true),
                home,
                account,
            )
        } else {
            reauthorize_imported(importing(home, account, None), false)
        },
        ReauthorizeView::Replace { home, account, replace } => reauthorize_replaced(
            replace_next(replace, event),
            home,
            account,
        ),
        ReauthorizeView::Import { is_current, import } => reauthorize_imported(
            import_next(import, event),
            is_current,
        ),
    }
}

impl Reauthorize {
    /// Goes on with the answer to what was asked.
    pub fn resume(self, event: Event) -> (r: Step<Action, Reauthorize, (SavedAccount, bool)>)
        ensures
            r@ == reauthorize_next(self@, event@),
    {
        match self {
            Reauthorize::Read { codex_home, home, id, account } => match event {
                Event::Bytes(auth) => match usable_auth_identity(auth.as_slice()) {
                    Err(error) => Step::Done(Err(error)),
                    Ok(found) => if same(found.as_str(), id.as_str()) {
                        Step::Ask(
                            Action::Read(Place::InHome(Home::Active, HomeFile::Auth)),
                            Reauthorize::Compared { codex_home, home, id, account, auth },
                        )
                    } else {
                        Step::Done(
                            Err(
                                "登录的不是所选账号，已取消覆盖；请用该账号重新登录".to_owned(),
                            ),
                        )
                    },
                },
                other => Step::Done(
                    Err(join2("无法读取登录认证文件：", failure(other).as_str())),
                ),
            },
            Reauthorize::Compared { codex_home, home, id, account, auth } => if is_current_account(
                event,
                id.as_str(),
            ) {
                reauthorize_after_replace(
                    replace_current_auth(codex_home.as_str(), auth, id.as_str(), true),
                    home,
                    account,
                )
            } else {
                reauthorize_after_import(import_current(home, account, None), false)
            },
            Reauthorize::Replace { home, account, replace } => reauthorize_after_replace(
                Replace::resume(replace, event),
                home,
                account,
            ),
            Reauthorize::Import { is_current, import } => reauthorize_after_import(
                Import::resume(import, event),
                is_current,
            ),
        }
    }
}

/// Renaming a saved account.
#[derive(Debug)]
pub enum Rename {
    Index { id: String, label: String },
    Written(SavedAccount),
}

/// What `Rename` says.
#[verifier::ext_equal]
pub enum RenameView {
    Index { id: Seq<char>, label: Seq<char> },
    Written(SavedAccountView),
}

impl View for Rename {
    type V = RenameView;

    open spec fn view(&self) -> RenameView {
        match self {
            Rename::Index { id, label } => RenameView::Index {
                id: id@,
                label: label@,
            },
            Rename::Written(inner) => RenameView::Written(inner@),
        }
    }
}

/// Gives a saved account a new label.
pub open spec fn renaming(
    account_id: Seq<char>,
    label: Seq<char>,
) -> StepView<ActionView, RenameView, SavedAccountView> {
    match account_id_verdict(account_id) {
        Err(error) => StepView::Done(Err(error)),
        Ok(_) => match renamed_label(label) {
            Err(error) => StepView::Done(Err(error)),
            Ok(label) => StepView::Ask(
                ActionView::ReadIndex,
                RenameView::Index { id: account_id, label },
            ),
        },
    }
}

/// Gives a saved account a new label.
pub fn rename_account(account_id: &str, label: &str) -> (r: Step<Action, Rename, SavedAccount>)
    ensures
        r@ == renaming(account_id@, label@),
{
    match validate_account_id(account_id) {
        Err(error) => Step::Done(Err(error)),
        Ok(_) => match check_label(label) {
            Err(error) => Step::Done(Err(error)),
            Ok(label) => Step::Ask(
                Action::ReadIndex,
                Rename::Index { id: account_id.to_owned(), label },
            ),
        },
    }
}

/// Goes on with the answer to what was asked.
pub open spec fn rename_next(
    state: RenameView,
    event: EventView,
) -> StepView<ActionView, RenameView, SavedAccountView> {
    match state {
        RenameView::Index { id, label } => match index_reply(event) {
            Err(error) => StepView::Done(Err(error)),
            Ok(index) => match relabelled(index, id, label) {
                None => StepView::Done(Err("找不到这个保险库账号"@)),
                Some((index, updated)) => StepView::Ask(
                    ActionView::WriteIndex(index),
                    RenameView::Written(updated),
                ),
            },
        },
        RenameView::Written(updated) => match done_reply(event) {
            Err(error) => StepView::Done(Err(error)),
            Ok(_) => StepView::Done(Ok(updated)),
        },
    }
}

impl Rename {
    /// Goes on with the answer to what was asked.
    pub fn resume(self, event: Event) -> (r: Step<Action, Rename, SavedAccount>)
        ensures
            r@ == rename_next(self@, event@),
    {
        match self {
            Rename::Index { id, label } => match expect_index(event) {
                Err(error) => Step::Done(Err(error)),
                Ok(index) => match relabel(index, id.as_str(), label.as_str()) {
                    None => Step::Done(Err("找不到这个保险库账号".to_owned())),
                    Some((index, updated)) => Step::Ask(
                        Action::WriteIndex(index),
                        Rename::Written(updated),
                    ),
                },
            },
            Rename::Written(updated) => match expect_done(event) {
                Err(error) => Step::Done(Err(error)),
                Ok(_) => Step::Done(Ok(updated)),
            },
        }
    }
}

/// Deleting a saved account.
///
/// Its runtime home is cleared, its encrypted file is put aside under another name, and the index
/// without it is written. Only then does the file go; if the index cannot be written, the file is
/// put back.
#[derive(Debug)]
pub enum Delete {
    Index { id: String },
    Runtime { id: String, index: AccountIndex },
    Plain { id: String, index: AccountIndex },
    PlainRemoved { id: String, index: AccountIndex },
    TreeRemoved { id: String, index: AccountIndex },
    Leftover { id: String, index: AccountIndex },
    LeftoverRemoved { id: String, index: AccountIndex },
    Vault { id: String, index: AccountIndex },
    Staged { id: String, index: AccountIndex },
    Written { id: String },
    Finishing { id: String },
    Finished,
    Undoing { id: String, error: String },
    Undone { error: String },
}

/// What `Delete` says.
#[verifier::ext_equal]
pub enum DeleteView {
    Index { id: Seq<char> },
    Runtime { id: Seq<char>, index: AccountIndexView },
    Plain { id: Seq<char>, index: AccountIndexView },
    PlainRemoved { id: Seq<char>, index: AccountIndexView },
    TreeRemoved { id: Seq<char>, index: AccountIndexView },
    Leftover { id: Seq<char>, index: AccountIndexView },
    LeftoverRemoved { id: Seq<char>, index: AccountIndexView },
    Vault { id: Seq<char>, index: AccountIndexView },
    Staged { id: Seq<char>, index: AccountIndexView },
    Written { id: Seq<char> },
    Finishing { id: Seq<char> },
    Finished,
    Undoing { id: Seq<char>, error: Seq<char> },
    Undone { error: Seq<char> },
}

impl View for Delete {
    type V = DeleteView;

    open spec fn view(&self) -> DeleteView {
        match self {
            Delete::Index { id } => DeleteView::Index {
                id: id@,
            },
            Delete::Runtime { id, index } => DeleteView::Runtime {
                id: id@,
                index: index@,
            },
            Delete::Plain { id, index } => DeleteView::Plain {
                id: id@,
                index: index@,
            },
            Delete::PlainRemoved { id, index } => DeleteView::PlainRemoved {
                id: id@,
                index: index@,
            },
            Delete::TreeRemoved { id, index } => DeleteView::TreeRemoved {
                id: id@,
                index: index@,
            },
            Delete::Leftover { id, index } => DeleteView::Leftover {
                id: id@,
                index: index@,
            },
            Delete::LeftoverRemoved { id, index } => DeleteView::LeftoverRemoved {
                id: id@,
                index: index@,
            },
            Delete::Vault { id, index } => DeleteView::Vault {
                id: id@,
                index: index@,
            },
            Delete::Staged { id, index } => DeleteView::Staged {
                id: id@,
                index: index@,
            },
            Delete::Written { id } => DeleteView::Written {
                id: id@,
            },
            Delete::Finishing { id } => DeleteView::Finishing {
                id: id@,
            },
            Delete::Finished => DeleteView::Finished,
            Delete::Undoing { id, error } => DeleteView::Undoing {
                id: id@,
                error: error@,
            },
            Delete::Undone { error } => DeleteView::Undone {
                error: error@,
            },
        }
    }
}

/// Deletes a saved account that is not the one in use.
pub open spec fn deleting(
    account_id: Seq<char>,
    current_account_id: Option<Seq<char>>,
) -> StepView<ActionView, DeleteView, ()> {
    match account_id_verdict(account_id) {
        Err(error) => StepView::Done(Err(error)),
        Ok(_) => if names(current_account_id, account_id) {
            StepView::Done(
                Err("不能删除当前正在使用的账号，请先切换到其他账号"@),
            )
        } else {
            StepView::Ask(ActionView::ReadIndex, DeleteView::Index { id: account_id })
        },
    }
}

/// Deletes a saved account that is not the one in use.
pub fn delete_account(
    account_id: &str,
    current_account_id: &Option<String>,
) -> (r: Step<Action, Delete, ()>)
    ensures
        r@ == deleting(account_id@, held(*current_account_id)),
{
    match validate_account_id(account_id) {
        Err(error) => Step::Done(Err(error)),
        Ok(_) => if is_named(current_account_id, account_id) {
            Step::Done(
                Err("不能删除当前正在使用的账号，请先切换到其他账号".to_owned()),
            )
        } else {
            Step::Ask(Action::ReadIndex, Delete::Index { id: account_id.to_owned() })
        },
    }
}

/// Whether a text that may be missing is this one.
pub open spec fn names(text: Option<Seq<char>>, name: Seq<char>) -> bool {
    match text {
        Some(text) => (text == name),
        None => false,
    }
}

/// Whether a text that may be missing is this one.
pub fn is_named(text: &Option<String>, name: &str) -> (r: bool)
    ensures
        r == names(held(*text), name@),
{
    match text {
        Some(text) => same(text.as_str(), name),
        None => false,
    }
}

/// Looks for what an earlier deletion left.
pub open spec fn delete_leftover(
    id: Seq<char>,
    index: AccountIndexView,
) -> StepView<ActionView, DeleteView, ()> {
    StepView::Ask(ActionView::Exists(PlaceView::Staged(id)), DeleteView::Leftover { id, index })
}

/// Looks for what an earlier deletion left.
pub fn check_leftover(id: String, index: AccountIndex) -> (r: Step<Action, Delete, ()>)
    ensures
        r@ == delete_leftover(id@, index@),
{
    Step::Ask(Action::Exists(Place::Staged(id.clone())), Delete::Leftover { id, index })
}

/// Looks for the encrypted file of the account.
pub open spec fn delete_vault(
    id: Seq<char>,
    index: AccountIndexView,
) -> StepView<ActionView, DeleteView, ()> {
    StepView::Ask(ActionView::Exists(PlaceView::Vault(id)), DeleteView::Vault { id, index })
}

/// Looks for the encrypted file of the account.
pub fn check_vault(id: String, index: AccountIndex) -> (r: Step<Action, Delete, ()>)
    ensures
        r@ == delete_vault(id@, index@),
{
    Step::Ask(Action::Exists(Place::Vault(id.clone())), Delete::Vault { id, index })
}

/// Removes the runtime home of the account.
pub open spec fn delete_tree(
    id: Seq<char>,
    index: AccountIndexView,
) -> StepView<ActionView, DeleteView, ()> {
    StepView::Ask(
        ActionView::RemoveTree(PlaceView::HomeDir(HomeView::Runtime(id))),
        DeleteView::TreeRemoved { id, index },
    )
}

/// Removes the runtime home of the account.
pub fn remove_runtime(id: String, index: AccountIndex) -> (r: Step<Action, Delete, ()>)
    ensures
        r@ == delete_tree(id@, index@),
{
    Step::Ask(
        Action::RemoveTree(Place::HomeDir(Home::Runtime(id.clone()))),
        Delete::TreeRemoved { id, index },
    )
}

/// Goes on with the answer to what was asked.
pub open spec fn delete_next(
    state: DeleteView,
    event: EventView,
) -> StepView<ActionView, DeleteView, ()> {
    match state {
        DeleteView::Index { id } => match index_reply(event) {
            Err(error) => StepView::Done(Err(error)),
            Ok(index) => match forgotten(index, id) {
                None => StepView::Done(Err("找不到这个保险库账号"@)),
                Some(index) => StepView::Ask(
                    ActionView::Exists(PlaceView::HomeDir(HomeView::Runtime(id))),
                    DeleteView::Runtime { id, index },
                ),
            },
        },
        DeleteView::Runtime { id, index } => if present(event) {
            StepView::Ask(
                ActionView::Exists(PlaceView::InHome(HomeView::Runtime(id), HomeFile::Auth)),
                DeleteView::Plain { id, index },
            )
        } else {
            delete_leftover(id, index)
        },
        DeleteView::Plain { id, index } => if present(event) {
            StepView::Ask(
                ActionView::Remove(PlaceView::InHome(HomeView::Runtime(id), HomeFile::Auth)),
                DeleteView::PlainRemoved { id, index },
            )
        } else {
            delete_tree(id, index)
        },
        DeleteView::PlainRemoved { id, index } => match done_reply_as(
            event,
            "无法清理临时认证文件："@,
        ) {
            Err(error) => StepView::Done(Err(error)),
            Ok(_) => delete_tree(id, index),
        },
        DeleteView::TreeRemoved { id, index } => match done_reply_as(
            event,
            "无法清理账号运行目录："@,
        ) {
            Err(error) => StepView::Done(Err(error)),
            Ok(_) => delete_leftover(id, index),
        },
        DeleteView::Leftover { id, index } => if present(event) {
            StepView::Ask(
                ActionView::Remove(PlaceView::Staged(id)),
                DeleteView::LeftoverRemoved { id, index },
            )
        } else {
            delete_vault(id, index)
        },
        DeleteView::LeftoverRemoved { id, index } => match done_reply_as(
            event,
            "无法清理上次删除残留："@,
        ) {
            Err(error) => StepView::Done(Err(error)),
            Ok(_) => delete_vault(id, index),
        },
        DeleteView::Vault { id, index } => if present(event) {
            StepView::Ask(
                ActionView::Rename(PlaceView::Vault(id), PlaceView::Staged(id)),
                DeleteView::Staged { id, index },
            )
        } else {
            StepView::Ask(ActionView::WriteIndex(index), DeleteView::Written { id })
        },
        DeleteView::Staged { id, index } => match done_reply_as(
            event,
            "无法暂存待删除账号："@,
        ) {
            Err(error) => StepView::Done(Err(error)),
            Ok(_) => StepView::Ask(ActionView::WriteIndex(index), DeleteView::Written { id }),
        },
        DeleteView::Written { id } => match done_reply(event) {
            Err(error) => StepView::Ask(
                ActionView::Exists(PlaceView::Staged(id)),
                DeleteView::Undoing { id, error },
            ),
            Ok(_) => StepView::Ask(
                ActionView::Exists(PlaceView::Staged(id)),
                DeleteView::Finishing { id },
            ),
        },
        DeleteView::Finishing { id } => if present(event) {
            StepView::Ask(ActionView::Remove(PlaceView::Staged(id)), DeleteView::Finished)
        } else {
            StepView::Done(Ok(()))
        },
        DeleteView::Finished => StepView::Done(Ok(())),
        DeleteView::Undoing { id, error } => if present(event) {
            StepView::Ask(
                ActionView::Rename(PlaceView::Staged(id), PlaceView::Vault(id)),
                DeleteView::Undone { error },
            )
        } else {
            StepView::Done(Err(error))
        },
        DeleteView::Undone { error } => StepView::Done(Err(error)),
    }
}

impl Delete {
    /// Goes on with the answer to what was asked.
    pub fn resume(self, event: Event) -> (r: Step<Action, Delete, ()>)
        ensures
            r@ == delete_next(self@, event@),
    {
        match self {
            Delete::Index { id } => match expect_index(event) {
                Err(error) => Step::Done(Err(error)),
                Ok(index) => match forget(index, id.as_str()) {
                    None => Step::Done(Err("找不到这个保险库账号".to_owned())),
                    Some(index) => Step::Ask(
                        Action::Exists(Place::HomeDir(Home::Runtime(id.clone()))),
                        Delete::Runtime { id, index },
                    ),
                },
            },
            Delete::Runtime { id, index } => if is_present(event) {
                Step::Ask(
                    Action::Exists(Place::InHome(Home::Runtime(id.clone()), HomeFile::Auth)),
                    Delete::Plain { id, index },
                )
            } else {
                check_leftover(id, index)
            },
            Delete::Plain { id, index } => if is_present(event) {
                Step::Ask(
                    Action::Remove(Place::InHome(Home::Runtime(id.clone()), HomeFile::Auth)),
                    Delete::PlainRemoved { id, index },
                )
            } else {
                remove_runtime(id, index)
            },
            Delete::PlainRemoved { id, index } => match expect_done_as(
                event,
                "无法清理临时认证文件：",
            ) {
                Err(error) => Step::Done(Err(error)),
                Ok(_) => remove_runtime(id, index),
            },
            Delete::TreeRemoved { id, index } => match expect_done_as(
                event,
                "无法清理账号运行目录：",
            ) {
                Err(error) => Step::Done(Err(error)),
                Ok(_) => check_leftover(id, index),
            },
            Delete::Leftover { id, index } => if is_present(event) {
                Step::Ask(
                    Action::Remove(Place::Staged(id.clone())),
                    Delete::LeftoverRemoved { id, index },
                )
            } else {
                check_vault(id, index)
            },
            Delete::LeftoverRemoved { id, index } => match expect_done_as(
                event,
                "无法清理上次删除残留：",
            ) {
                Err(error) => Step::Done(Err(error)),
                Ok(_) => check_vault(id, index),
            },
            Delete::Vault { id, index } => if is_present(event) {
                Step::Ask(
                    Action::Rename(Place::Vault(id.clone()), Place::Staged(id.clone())),
                    Delete::Staged { id, index },
                )
            } else {
                Step::Ask(Action::WriteIndex(index), Delete::Written { id })
            },
            Delete::Staged { id, index } => match expect_done_as(
                event,
                "无法暂存待删除账号：",
            ) {
                Err(error) => Step::Done(Err(error)),
                Ok(_) => Step::Ask(Action::WriteIndex(index), Delete::Written { id }),
            },
            Delete::Written { id } => match expect_done(event) {
                Err(error) => Step::Ask(
                    Action::Exists(Place::Staged(id.clone())),
                    Delete::Undoing { id, error },
                ),
                Ok(_) => Step::Ask(
                    Action::Exists(Place::Staged(id.clone())),
                    Delete::Finishing { id },
                ),
            },
            Delete::Finishing { id } => if is_present(event) {
                Step::Ask(Action::Remove(Place::Staged(id)), Delete::Finished)
            } else {
                Step::Done(Ok(()))
            },
            Delete::Finished => Step::Done(Ok(())),
            Delete::Undoing { id, error } => if is_present(event) {
                Step::Ask(
                    Action::Rename(Place::Staged(id.clone()), Place::Vault(id)),
                    Delete::Undone { error },
                )
            } else {
                Step::Done(Err(error))
            },
            Delete::Undone { error } => Step::Done(Err(error)),
        }
    }
}

/// Taking the credentials of an account's runtime home back into the vault.
///
/// Credentials that may have been renewed are sealed and saved before the file in the clear is
/// removed; when that fails it stays, so that saving it can be tried again.
#[derive(Debug)]
pub enum Finish {
    Present { id: String },
    Read { id: String },
    Sealed { id: String },
    Written { id: String },
    Removed { error: Option<String> },
}

/// What `Finish` says.
#[verifier::ext_equal]
pub enum FinishView {
    Present { id: Seq<char> },
    Read { id: Seq<char> },
    Sealed { id: Seq<char> },
    Written { id: Seq<char> },
    Removed { error: Option<Seq<char>> },
}

impl View for Finish {
    type V = FinishView;

    open spec fn view(&self) -> FinishView {
        match self {
            Finish::Present { id } => FinishView::Present {
                id: id@,
            },
            Finish::Read { id } => FinishView::Read {
                id: id@,
            },
            Finish::Sealed { id } => FinishView::Sealed {
                id: id@,
            },
            Finish::Written { id } => FinishView::Written {
                id: id@,
            },
            Finish::Removed { error } => FinishView::Removed {
                error: held(*error),
            },
        }
    }
}

/// Takes the credentials of an account's runtime home back into the vault.
pub open spec fn finishing_isolated(account_id: Seq<char>) -> StepView<ActionView, FinishView, ()> {
    match account_id_verdict(account_id) {
        Err(error) => StepView::Done(Err(error)),
        Ok(_) => StepView::Ask(
            ActionView::Exists(PlaceView::InHome(HomeView::Runtime(account_id), HomeFile::Auth)),
            FinishView::Present { id: account_id },
        ),
    }
}

/// Takes the credentials of an account's runtime home back into the vault.
pub fn finish_isolated_home(account_id: &str) -> (r: Step<Action, Finish, ()>)
    ensures
        r@ == finishing_isolated(account_id@),
{
    match validate_account_id(account_id) {
        Err(error) => Step::Done(Err(error)),
        Ok(_) => Step::Ask(
            Action::Exists(Place::InHome(Home::Runtime(account_id.to_owned()), HomeFile::Auth)),
            Finish::Present { id: account_id.to_owned() },
        ),
    }
}

/// Removes the credentials of a runtime home.
pub open spec fn finish_remove(
    id: Seq<char>,
    error: Option<Seq<char>>,
) -> StepView<ActionView, FinishView, ()> {
    StepView::Ask(
        ActionView::Remove(PlaceView::InHome(HomeView::Runtime(id), HomeFile::Auth)),
        FinishView::Removed { error },
    )
}

/// Removes the credentials of a runtime home.
pub fn remove_isolated(id: String, error: Option<String>) -> (r: Step<Action, Finish, ()>)
    ensures
        r@ == finish_remove(id@, held(error)),
{
    Step::Ask(
        Action::Remove(Place::InHome(Home::Runtime(id), HomeFile::Auth)),
        Finish::Removed { error },
    )
}

/// The result of some work and of the cleaning up after it.
pub open spec fn with_cleanup(
    error: Option<Seq<char>>,
    cleanup: Result<(), Seq<char>>,
) -> Result<(), Seq<char>> {
    match (error, cleanup) {
        (None, Ok(_)) => Ok(()),
        (Some(error), Ok(_)) => Err(error),
        (None, Err(error)) => Err(error),
        (Some(error), Err(cleanup_error)) => Err(
            error + "；"@ + cleanup_error,
        ),
    }
}

/// The result of some work and of the cleaning up after it.
pub fn join_cleanup(error: Option<String>, cleanup: Result<(), String>) -> (r: Result<(), String>)
    ensures
        outcome(r) == with_cleanup(held(error), outcome(cleanup)),
{
    match (error, cleanup) {
        (None, Ok(_)) => Ok(()),
        (Some(error), Ok(_)) => Err(error),
        (None, Err(error)) => Err(error),
        (Some(error), Err(cleanup_error)) => Err(
            join3(error.as_str(), "；", cleanup_error.as_str()),
        ),
    }
}

/// Goes on with the answer to what was asked.
pub open spec fn finish_next(
    state: FinishView,
    event: EventView,
) -> StepView<ActionView, FinishView, ()> {
    match state {
        FinishView::Present { id } => if present(event) {
            StepView::Ask(
                ActionView::Read(PlaceView::InHome(HomeView::Runtime(id), HomeFile::Auth)),
                FinishView::Read { id },
            )
        } else {
            StepView::Done(Ok(()))
        },
        FinishView::Read { id } => match event {
            EventView::Bytes(auth) => match usable_identity(auth) {
                Err(error) => finish_remove(id, Some(error)),
                Ok(found) => if found == id {
                    StepView::Ask(ActionView::Seal(auth), FinishView::Sealed { id })
                } else {
                    finish_remove(
                        id,
                        Some("隔离凭据与目标账号不一致，已取消回写"@),
                    )
                },
            },
            other => finish_remove(
                id,
                Some("无法读取隔离认证状态："@ + failure_text(other)),
            ),
        },
        FinishView::Sealed { id } => match event {
            EventView::Bytes(sealed) => StepView::Ask(
                ActionView::Write(PlaceView::Vault(id), sealed),
                FinishView::Written { id },
            ),
            other => StepView::Done(Err(failure_text(other))),
        },
        FinishView::Written { id } => match done_reply(event) {
            Err(error) => StepView::Done(Err(error)),
            Ok(_) => finish_remove(id, None),
        },
        FinishView::Removed { error } => StepView::Done(
            with_cleanup(error, done_reply_as(event, "无法清理临时认证文件："@)),
        ),
    }
}

impl Finish {
    /// Goes on with the answer to what was asked.
    pub fn resume(self, event: Event) -> (r: Step<Action, Finish, ()>)
        ensures
            r@ == finish_next(self@, event@),
    {
        match self {
            Finish::Present { id } => if is_present(event) {
                Step::Ask(
                    Action::Read(Place::InHome(Home::Runtime(id.clone()), HomeFile::Auth)),
                    Finish::Read { id },
                )
            } else {
                Step::Done(Ok(()))
            },
            Finish::Read { id } => match event {
                Event::Bytes(auth) => match usable_auth_identity(auth.as_slice()) {
                    Err(error) => remove_isolated(id, Some(error)),
                    Ok(found) => if same(found.as_str(), id.as_str()) {
                        Step::Ask(Action::Seal(auth), Finish::Sealed { id })
                    } else {
                        remove_isolated(
                            id,
                            Some("隔离凭据与目标账号不一致，已取消回写".to_owned()),
                        )
                    },
                },
                other => remove_isolated(
                    id,
                    Some(join2("无法读取隔离认证状态：", failure(other).as_str())),
                ),
            },
            Finish::Sealed { id } => match event {
                Event::Bytes(sealed) => Step::Ask(
                    Action::Write(Place::Vault(id.clone()), sealed),
                    Finish::Written { id },
                ),
                other => Step::Done(Err(failure(other))),
            },
            Finish::Written { id } => match expect_done(event) {
                Err(error) => Step::Done(Err(error)),
                Ok(_) => remove_isolated(id, None),
            },
            Finish::Removed { error } => Step::Done(
                join_cleanup(error, expect_done_as(event, "无法清理临时认证文件：")),
            ),
        }
    }
}

/// Removing the credentials of a home: whether there are any is awaited, then their removal.
#[derive(Debug)]
pub enum RemovePlain {
    Present(Home),
    Removed,
}

/// What `RemovePlain` says.
#[verifier::ext_equal]
pub enum RemovePlainView {
    Present(HomeView),
    Removed,
}

impl View for RemovePlain {
    type V = RemovePlainView;

    open spec fn view(&self) -> RemovePlainView {
        match self {
            RemovePlain::Present(inner) => RemovePlainView::Present(inner@),
            RemovePlain::Removed => RemovePlainView::Removed,
        }
    }
}

/// Removes the credentials of a home, if there are any.
pub open spec fn removing_plain(home: HomeView) -> StepView<ActionView, RemovePlainView, ()> {
    StepView::Ask(
        ActionView::Exists(PlaceView::InHome(home, HomeFile::Auth)),
        RemovePlainView::Present(home),
    )
}

/// Removes the credentials of a home, if there are any.
pub fn remove_plain_auth(home: Home) -> (r: Step<Action, RemovePlain, ()>)
    ensures
        r@ == removing_plain(home@),
{
    Step::Ask(
        Action::Exists(Place::InHome(home.clone(), HomeFile::Auth)),
        RemovePlain::Present(home),
    )
}

/// Goes on with the answer to what was asked.
pub open spec fn remove_plain_next(
    state: RemovePlainView,
    event: EventView,
) -> StepView<ActionView, RemovePlainView, ()> {
    match state {
        RemovePlainView::Present(home) => if present(event) {
            StepView::Ask(
                ActionView::Remove(PlaceView::InHome(home, HomeFile::Auth)),
                RemovePlainView::Removed,
            )
        } else {
            StepView::Done(Ok(()))
        },
        RemovePlainView::Removed => StepView::Done(
            done_reply_as(event, "无法清理临时认证文件："@),
        ),
    }
}

impl RemovePlain {
    /// Goes on with the answer to what was asked.
    pub fn resume(self, event: Event) -> (r: Step<Action, RemovePlain, ()>)
        ensures
            r@ == remove_plain_next(self@, event@),
    {
        match self {
            RemovePlain::Present(home) => if is_present(event) {
                Step::Ask(
                    Action::Remove(Place::InHome(home, HomeFile::Auth)),
                    RemovePlain::Removed,
                )
            } else {
                Step::Done(Ok(()))
            },
            RemovePlain::Removed => Step::Done(
                expect_done_as(event, "无法清理临时认证文件："),
            ),
        }
    }
}

/// Removing the credentials that login homes were left with.
#[derive(Debug)]
pub enum CleanLogins {
    Present,
    Listed,
    Kind { name: String, rest: Vec<Entry> },
    Removing { step: RemovePlain, rest: Vec<Entry> },
}

/// What `CleanLogins` says.
#[verifier::ext_equal]
pub enum CleanLoginsView {
    Present,
    Listed,
    Kind { name: Seq<char>, rest: Seq<EntryView> },
    Removing { step: RemovePlainView, rest: Seq<EntryView> },
}

impl View for CleanLogins {
    type V = CleanLoginsView;

    open spec fn view(&self) -> CleanLoginsView {
        match self {
            CleanLogins::Present => CleanLoginsView::Present,
            CleanLogins::Listed => CleanLoginsView::Listed,
            CleanLogins::Kind { name, rest } => CleanLoginsView::Kind {
                name: name@,
                rest: views(rest@),
            },
            CleanLogins::Removing { step, rest } => CleanLoginsView::Removing {
                step: step@,
                rest: views(rest@),
            },
        }
    }
}

/// Removes the credentials that login homes were left with.
pub open spec fn cleaning_logins() -> StepView<ActionView, CleanLoginsView, ()> {
    StepView::Ask(ActionView::Exists(PlaceView::LoginRoot), CleanLoginsView::Present)
}

/// Removes the credentials that login homes were left with.
pub fn cleanup_stale_login_auth() -> (r: Step<Action, CleanLogins, ()>)
    ensures
        r@ == cleaning_logins(),
{
    Step::Ask(Action::Exists(Place::LoginRoot), CleanLogins::Present)
}

/// Goes through the entries that are left.
pub open spec fn clean_logins_rest(
    entries: Seq<EntryView>,
) -> StepView<ActionView, CleanLoginsView, ()> {
    match first_and_rest(entries) {
        None => StepView::Done(Ok(())),
        Some((EntryView::Unreadable(error), _)) => StepView::Done(
            Err("无法读取隔离登录目录项："@ + error),
        ),
        Some((EntryView::Named(name), rest)) => StepView::Ask(
            ActionView::IsDir(PlaceView::HomeDir(HomeView::Login(name))),
            CleanLoginsView::Kind { name, rest },
        ),
    }
}

/// Goes through the entries that are left.
pub fn clean_entries(entries: Vec<Entry>) -> (r: Step<Action, CleanLogins, ()>)
    ensures
        r@ == clean_logins_rest(views(entries@)),
{
    match split_first(entries) {
        None => Step::Done(Ok(())),
        Some((Entry::Unreadable(error), _)) => Step::Done(
            Err(join2("无法读取隔离登录目录项：", error.as_str())),
        ),
        Some((Entry::Named(name), rest)) => Step::Ask(
            Action::IsDir(Place::HomeDir(Home::Login(name.clone()))),
            CleanLogins::Kind { name, rest },
        ),
    }
}

/// Goes on with the credentials of one home being removed.
pub open spec fn clean_logins_removed(
    step: StepView<ActionView, RemovePlainView, ()>,
    rest: Seq<EntryView>,
) -> StepView<ActionView, CleanLoginsView, ()> {
    match step {
        StepView::Ask(action, step) => StepView::Ask(
            action,
            CleanLoginsView::Removing { step, rest },
        ),
        StepView::Done(Err(error)) => StepView::Done(Err(error)),
        StepView::Done(Ok(_)) => clean_logins_rest(rest),
    }
}

/// Goes on with the credentials of one home being removed.
pub fn clean_after_removal(
    step: Step<Action, RemovePlain, ()>,
    rest: Vec<Entry>,
) -> (r: Step<Action, CleanLogins, ()>)
    ensures
        r@ == clean_logins_removed(step@, views(rest@)),
{
    match step {
        Step::Ask(action, step) => Step::Ask(action, CleanLogins::Removing { step, rest }),
        Step::Done(Err(error)) => Step::Done(Err(error)),
        Step::Done(Ok(_)) => clean_entries(rest),
    }
}

/// Goes on with the answer to what was asked.
pub open spec fn clean_logins_next(
    state: CleanLoginsView,
    event: EventView,
) -> StepView<ActionView, CleanLoginsView, ()> {
    match state {
        CleanLoginsView::Present => if present(event) {
            StepView::Ask(ActionView::List(PlaceView::LoginRoot), CleanLoginsView::Listed)
        } else {
            StepView::Done(Ok(()))
        },
        CleanLoginsView::Listed => match event {
            EventView::Names(entries) => clean_logins_rest(entries),
            other => StepView::Done(
                Err("无法检查隔离登录目录："@ + failure_text(other)),
            ),
        },
        CleanLoginsView::Kind { name, rest } => match event {
            EventView::Present(true) => clean_logins_removed(
                removing_plain(HomeView::Login(name)),
                rest,
            ),
            EventView::Present(false) => clean_logins_rest(rest),
            other => StepView::Done(
                Err("无法检查隔离登录目录项："@ + failure_text(other)),
            ),
        },
        CleanLoginsView::Removing { step, rest } => clean_logins_removed(
            remove_plain_next(step, event),
            rest,
        ),
    }
}

impl CleanLogins {
    /// Goes on with the answer to what was asked.
    pub fn resume(self, event: Event) -> (r: Step<Action, CleanLogins, ()>)
        ensures
            r@ == clean_logins_next(self@, event@),
    {
        match self {
            CleanLogins::Present => if is_present(event) {
                Step::Ask(Action::List(Place::LoginRoot), CleanLogins::Listed)
            } else {
                Step::Done(Ok(()))
            },
            CleanLogins::Listed => match event {
                Event::Names(entries) => clean_entries(entries),
                other => Step::Done(
                    Err(join2("无法检查隔离登录目录：", failure(other).as_str())),
                ),
            },
            CleanLogins::Kind { name, rest } => match event {
                Event::Present(true) => clean_after_removal(
                    remove_plain_auth(Home::Login(name)),
                    rest,
                ),
                Event::Present(false) => clean_entries(rest),
                other => Step::Done(
                    Err(join2("无法检查隔离登录目录项：", failure(other).as_str())),
                ),
            },
            CleanLogins::Removing { step, rest } => clean_after_removal(
                RemovePlain::resume(step, event),
                rest,
            ),
        }
    }
}

/// Preparing the runtime home of an account for a query.
#[derive(Debug)]
pub enum Prepare {
    Load { id: String, load: LoadSaved },
    Idle { id: String, auth: Vec<u8>, idle: EnsureIdle },
    Created { id: String, auth: Vec<u8> },
    Written { id: String },
}

/// What `Prepare` says.
#[verifier::ext_equal]
pub enum PrepareView {
    Load { id: Seq<char>, load: LoadSavedView },
    Idle { id: Seq<char>, auth: Seq<u8>, idle: EnsureIdleView },
    Created { id: Seq<char>, auth: Seq<u8> },
    Written { id: Seq<char> },
}

impl View for Prepare {
    type V = PrepareView;

    open spec fn view(&self) -> PrepareView {
        match self {
            Prepare::Load { id, load } => PrepareView::Load {
                id: id@,
                load: load@,
            },
            Prepare::Idle { id, auth, idle } => PrepareView::Idle {
                id: id@,
                auth: auth@,
                idle: idle@,
            },
            Prepare::Created { id, auth } => PrepareView::Created {
                id: id@,
                auth: auth@,
            },
            Prepare::Written { id } => PrepareView::Written {
                id: id@,
            },
        }
    }
}

/// Puts the saved credentials of an account into a runtime home that no process works in.
pub open spec fn preparing(account_id: Seq<char>) -> StepView<ActionView, PrepareView, HomeView> {
    prepare_loaded(account_id, loading_saved(account_id))
}

/// Puts the saved credentials of an account into a runtime home that no process works in.
pub fn prepare_isolated_home(account_id: &str) -> (r: Step<Action, Prepare, Home>)
    ensures
        r@ == preparing(account_id@),
{
    prepare_after_load(account_id.to_owned(), load_saved_auth(account_id))
}

/// Goes on with the saved credentials being loaded.
pub open spec fn prepare_loaded(
    id: Seq<char>,
    step: StepView<ActionView, LoadSavedView, Seq<u8>>,
) -> StepView<ActionView, PrepareView, HomeView> {
    match step {
        StepView::Ask(action, load) => StepView::Ask(action, PrepareView::Load { id, load }),
        StepView::Done(Err(error)) => StepView::Done(Err(error)),
        StepView::Done(Ok(auth)) => prepare_idle(
            id,
            auth,
            ensuring_idle(HomeView::Runtime(id)),
        ),
    }
}

/// Goes on with the saved credentials being loaded.
pub fn prepare_after_load(
    id: String,
    step: Step<Action, LoadSaved, Vec<u8>>,
) -> (r: Step<Action, Prepare, Home>)
    ensures
        r@ == prepare_loaded(id@, step@),
{
    match step {
        Step::Ask(action, load) => Step::Ask(action, Prepare::Load { id, load }),
        Step::Done(Err(error)) => Step::Done(Err(error)),
        Step::Done(Ok(auth)) => prepare_after_idle(
            id.clone(),
            auth,
            ensure_idle(Home::Runtime(id)),
        ),
    }
}

/// Goes on while it is not known whether a process works in the home.
pub open spec fn prepare_idle(
    id: Seq<char>,
    auth: Seq<u8>,
    step: StepView<ActionView, EnsureIdleView, ()>,
) -> StepView<ActionView, PrepareView, HomeView> {
    match step {
        StepView::Ask(action, idle) => StepView::Ask(action, PrepareView::Idle { id, auth, idle }),
        StepView::Done(Err(error)) => StepView::Done(Err(error)),
        StepView::Done(Ok(_)) => StepView::Ask(
            ActionView::CreateDir(PlaceView::HomeDir(HomeView::Runtime(id))),
            PrepareView::Created { id, auth },
        ),
    }
}

/// Goes on while it is not known whether a process works in the home.
pub fn prepare_after_idle(
    id: String,
    auth: Vec<u8>,
    step: Step<Action, EnsureIdle, ()>,
) -> (r: Step<Action, Prepare, Home>)
    ensures
        r@ == prepare_idle(id@, auth@, step@),
{
    match step {
        Step::Ask(action, idle) => Step::Ask(action, Prepare::Idle { id, auth, idle }),
        Step::Done(Err(error)) => Step::Done(Err(error)),
        Step::Done(Ok(_)) => Step::Ask(
            Action::CreateDir(Place::HomeDir(Home::Runtime(id.clone()))),
            Prepare::Created { id, auth },
        ),
    }
}

/// Goes on with the answer to what was asked.
pub open spec fn prepare_next(
    state: PrepareView,
    event: EventView,
) -> StepView<ActionView, PrepareView, HomeView> {
    match state {
        PrepareView::Load { id, load } => prepare_loaded(id, load_saved_next(load, event)),
        PrepareView::Idle { id, auth, idle } => prepare_idle(
            id,
            auth,
            ensure_idle_next(idle, event),
        ),
        PrepareView::Created { id, auth } => match done_reply_as(
            event,
            "无法创建隔离运行目录："@,
        ) {
            Err(error) => StepView::Done(Err(error)),
            Ok(_) => StepView::Ask(
                ActionView::Write(PlaceView::InHome(HomeView::Runtime(id), HomeFile::Auth), auth),
                PrepareView::Written { id },
            ),
        },
        PrepareView::Written { id } => match done_reply(event) {
            Err(error) => StepView::Done(Err(error)),
            Ok(_) => StepView::Done(Ok(HomeView::Runtime(id))),
        },
    }
}

impl Prepare {
    /// Goes on with the answer to what was asked.
    pub fn resume(self, event: Event) -> (r: Step<Action, Prepare, Home>)
        ensures
            r@ == prepare_next(self@, event@),
    {
        match self {
            Prepare::Load { id, load } => prepare_after_load(id, LoadSaved::resume(load, event)),
            Prepare::Idle { id, auth, idle } => prepare_after_idle(
                id,
                auth,
                EnsureIdle::resume(idle, event),
            ),
            Prepare::Created { id, auth } => match expect_done_as(
                event,
                "无法创建隔离运行目录：",
            ) {
                Err(error) => Step::Done(Err(error)),
                Ok(_) => Step::Ask(
                    Action::Write(Place::InHome(Home::Runtime(id.clone()), HomeFile::Auth), auth),
                    Prepare::Written { id },
                ),
            },
            Prepare::Written { id } => match expect_done(event) {
                Err(error) => Step::Done(Err(error)),
                Ok(_) => Step::Done(Ok(Home::Runtime(id))),
            },
        }
    }
}

} // verus!
