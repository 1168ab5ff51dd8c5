//! The account index: the accounts that the vault keeps, without their credentials.

use vstd::prelude::*;
use vstd::string::*;

use crate::text::{held, outcome, same, trim, trimmed, views};

verus! {

/// The version of the account index.
pub const INDEX_VERSION: u32 = 1;

/// The number of characters that an account's label may have.
pub const MAX_LABEL: usize = 80;

/// An account that the vault keeps.
#[derive(Debug)]
pub struct SavedAccount {
    pub id: String,
    pub label: String,
    pub email: Option<String>,
    pub plan_type: Option<String>,
    pub imported_at: u64,
    pub is_active: bool,
}

/// What `SavedAccount` says.
#[verifier::ext_equal]
pub struct SavedAccountView {
    pub id: Seq<char>,
    pub label: Seq<char>,
    pub email: Option<Seq<char>>,
    pub plan_type: Option<Seq<char>>,
    pub imported_at: u64,
    pub is_active: bool,
}

impl View for SavedAccount {
    type V = SavedAccountView;

    open spec fn view(&self) -> SavedAccountView {
        SavedAccountView {
            id: self.id@,
            label: self.label@,
            email: held(self.email),
            plan_type: held(self.plan_type),
            imported_at: self.imported_at,
            is_active: self.is_active,
        }
    }
}

/// The index file of the vault.
#[derive(Debug)]
pub struct AccountIndex {
    pub version: u32,
    pub accounts: Vec<SavedAccount>,
}

/// What `AccountIndex` says.
#[verifier::ext_equal]
pub struct AccountIndexView {
    pub version: u32,
    pub accounts: Seq<SavedAccountView>,
}

impl View for AccountIndex {
    type V = AccountIndexView;

    open spec fn view(&self) -> AccountIndexView {
        AccountIndexView {
            version: self.version,
            accounts: views(self.accounts@),
        }
    }
}

/// What the app server tells of an account.
#[derive(Debug)]
pub struct AccountInfo {
    pub account_type: Option<String>,
    pub email: Option<String>,
    pub plan_type: Option<String>,
}

/// What `AccountInfo` says.
#[verifier::ext_equal]
pub struct AccountInfoView {
    pub account_type: Option<Seq<char>>,
    pub email: Option<Seq<char>>,
    pub plan_type: Option<Seq<char>>,
}

impl View for AccountInfo {
    type V = AccountInfoView;

    open spec fn view(&self) -> AccountInfoView {
        AccountInfoView {
            account_type: held(self.account_type),
            email: held(self.email),
            plan_type: held(self.plan_type),
        }
    }
}

/// The saved accounts as they are listed, and the one in use.
#[derive(Debug)]
pub struct AccountList {
    pub accounts: Vec<SavedAccount>,
    pub current_account_id: Option<String>,
}

/// What `AccountList` says.
#[verifier::ext_equal]
pub struct AccountListView {
    pub accounts: Seq<SavedAccountView>,
    pub current_account_id: Option<Seq<char>>,
}

impl View for AccountList {
    type V = AccountListView;

    open spec fn view(&self) -> AccountListView {
        AccountListView {
            accounts: views(self.accounts@),
            current_account_id: held(self.current_account_id),
        }
    }
}

/// Where an account with this id first stands in a list.
pub open spec fn place_of(accounts: Seq<SavedAccountView>, id: Seq<char>) -> Option<int>
    decreases accounts.len(),
{
    if accounts.len() == 0 {
        None
    } else if accounts[0].id == id {
        Some(0)
    } else {
        match place_of(accounts.drop_first(), id) {
            Some(at) => Some(at + 1),
            None => None,
        }
    }
}

/// The first account of a list with this id.
pub open spec fn account_of(accounts: Seq<SavedAccountView>, id: Seq<char>) -> Option<
    SavedAccountView,
> {
    match place_of(accounts, id) {
        Some(at) => Some(accounts[at]),
        None => None,
    }
}

/// The index before the first account is saved.
pub open spec fn empty_index() -> AccountIndexView {
    AccountIndexView { version: INDEX_VERSION, accounts: seq![] }
}

/// `place_of` gives a place in the list whose account has the id, and the first such place; it
/// gives none only where no account has the id.
pub proof fn lemma_place_of(accounts: Seq<SavedAccountView>, id: Seq<char>)
    ensures
        match place_of(accounts, id) {
            Some(at) => 0 <= at < accounts.len() && accounts[at].id == id && forall|i: int|
                0 <= i < at ==> (#[trigger] accounts[i]).id != id,
            None => forall|i: int| 0 <= i < accounts.len() ==> (#[trigger] accounts[i]).id != id,
        },
    decreases accounts.len(),
{
    if accounts.len() > 0 && accounts[0].id != id {
        lemma_place_of(accounts.drop_first(), id);
        assert forall|i: int| 0 < i < accounts.len() implies #[trigger] accounts[i]
            == accounts.drop_first()[i - 1] by {}
    }
}

/// Where an account with this id first stands in a list.
pub fn position(accounts: &Vec<SavedAccount>, id: &str) -> (r: Option<usize>)
    ensures
        r matches Some(at) ==> at < accounts@.len() && place_of(views(accounts@), id@) == Some(
            at as int,
        ),
        r is None ==> place_of(views(accounts@), id@) is None,
{
    let ghost all = views(accounts@);
    assert(all.skip(0) =~= all);
    for at in 0..accounts.len()
        invariant
            all == views(accounts@),
            place_of(all, id@) == (match place_of(all.skip(at as int), id@) {
                Some(rest) => Some(at + rest),
                None => None,
            }),
    {
        assert(all.skip(at as int).drop_first() =~= all.skip(at + 1));
        if same(accounts[at].id.as_str(), id) {
            return Some(at);
        }
    }
    assert(all.skip(accounts@.len() as int).len() == 0);
    None
}

/// Whether an account with this id is listed.
pub open spec fn listed(accounts: Seq<SavedAccountView>, id: Seq<char>) -> bool {
    place_of(accounts, id) is Some
}

/// Whether an account with this id is listed.
pub fn is_listed(accounts: &Vec<SavedAccount>, id: &str) -> (r: bool)
    ensures
        r == listed(views(accounts@), id@),
{
    position(accounts, id).is_some()
}

/// The first account with this id, if one is listed.
pub fn find_account(accounts: &Vec<SavedAccount>, id: &str) -> (r: Option<SavedAccount>)
    ensures
        held(r) == account_of(views(accounts@), id@),
{
    match position(accounts, id) {
        Some(at) => Some(accounts[at].clone()),
        None => None,
    }
}

/// A copy of a text that may be missing.
pub fn copy_optional(text: &Option<String>) -> (r: Option<String>)
    ensures
        r == *text,
{
    match text {
        Some(text) => Some(text.clone()),
        None => None,
    }
}

impl Clone for SavedAccount {
    fn clone(&self) -> (r: SavedAccount)
        ensures
            r == *self,
    {
        SavedAccount {
            id: self.id.clone(),
            label: self.label.clone(),
            email: copy_optional(&self.email),
            plan_type: copy_optional(&self.plan_type),
            imported_at: self.imported_at,
            is_active: self.is_active,
        }
    }
}

impl Clone for AccountInfo {
    fn clone(&self) -> (r: AccountInfo)
        ensures
            r == *self,
    {
        AccountInfo {
            account_type: copy_optional(&self.account_type),
            email: copy_optional(&self.email),
            plan_type: copy_optional(&self.plan_type),
        }
    }
}

impl AccountIndex {
    /// The index before the first account is saved.
    pub fn new() -> (r: AccountIndex)
        ensures
            r@ == empty_index(),
    {
        let accounts: Vec<SavedAccount> = Vec::new();
        assert(views(accounts@) =~= seq![]);
        AccountIndex { version: INDEX_VERSION, accounts }
    }
}

/// What a label of this many characters is told.
pub open spec fn label_verdict(label: Seq<char>) -> Result<(), Seq<char>> {
    if label.len() > MAX_LABEL {
        Err("账号名称不能超过 80 个字符"@)
    } else {
        Ok(())
    }
}

/// The new label of an account that is renamed: the text without the white space around it.
pub open spec fn renamed_label(label: Seq<char>) -> Result<Seq<char>, Seq<char>> {
    if trimmed(label).len() == 0 {
        Err("账号名称不能为空"@)
    } else {
        match label_verdict(trimmed(label)) {
            Ok(_) => Ok(trimmed(label)),
            Err(error) => Err(error),
        }
    }
}

/// The new label of an account that is renamed.
pub fn check_label(label: &str) -> (r: Result<String, String>)
    ensures
        outcome(r) == renamed_label(label@),
{
    let label = trim(label);
    if label.is_empty() {
        return Err("账号名称不能为空".to_owned());
    }
    if label.unicode_len() > MAX_LABEL {
        return Err("账号名称不能超过 80 个字符".to_owned());
    }
    Ok(label.to_owned())
}

/// The index with the label of one account changed, and that account.
pub open spec fn relabelled(index: AccountIndexView, id: Seq<char>, label: Seq<char>) -> Option<
    (AccountIndexView, SavedAccountView),
> {
    match place_of(index.accounts, id) {
        Some(at) => {
            let updated = SavedAccountView { label, ..index.accounts[at] };
            Some(
                (
                    AccountIndexView { accounts: index.accounts.update(at, updated), ..index },
                    updated,
                ),
            )
        },
        None => None,
    }
}

/// Changes the label of one account of an index.
pub fn relabel(index: AccountIndex, id: &str, label: &str) -> (r: Option<
    (AccountIndex, SavedAccount),
>)
    ensures
        match r {
            Some((index_after, updated)) => relabelled(index@, id@, label@) == Some(
                (index_after@, updated@),
            ),
            None => relabelled(index@, id@, label@) is None,
        },
{
    match position(&index.accounts, id) {
        Some(at) => {
            let mut accounts = index.accounts;
            let ghost before = accounts@;
            let mut updated = accounts[at].clone();
            updated.label = label.to_owned();
            accounts.set(at, updated.clone());
            assert(views(accounts@) =~= views(before).update(at as int, updated@));
            Some((AccountIndex { version: index.version, accounts }, updated))
        },
        None => None,
    }
}

/// The index without the first account that has this id.
pub open spec fn forgotten(index: AccountIndexView, id: Seq<char>) -> Option<AccountIndexView> {
    match place_of(index.accounts, id) {
        Some(at) => Some(AccountIndexView { accounts: index.accounts.remove(at), ..index }),
        None => None,
    }
}

/// Takes one account out of an index.
pub fn forget(index: AccountIndex, id: &str) -> (r: Option<AccountIndex>)
    ensures
        held(r) == forgotten(index@, id@),
{
    match position(&index.accounts, id) {
        Some(at) => {
            let mut accounts = index.accounts;
            let ghost before = accounts@;
            let _ = accounts.remove(at);
            assert(views(accounts@) =~= views(before).remove(at as int));
            Some(AccountIndex { version: index.version, accounts })
        },
        None => None,
    }
}

/// The index with an account put in the place of the first one that has its id, or at the end.
pub open spec fn entered(index: AccountIndexView, saved: SavedAccountView) -> AccountIndexView {
    match place_of(index.accounts, saved.id) {
        Some(at) => AccountIndexView { accounts: index.accounts.update(at, saved), ..index },
        None => AccountIndexView { accounts: index.accounts.push(saved), ..index },
    }
}

/// Puts an account into an index.
pub fn enter(index: AccountIndex, saved: &SavedAccount) -> (r: AccountIndex)
    ensures
        r@ == entered(index@, saved@),
{
    let found = position(&index.accounts, saved.id.as_str());
    let mut accounts = index.accounts;
    let ghost before = accounts@;
    match found {
        Some(at) => {
            accounts.set(at, saved.clone());
            assert(views(accounts@) =~= views(before).update(at as int, saved@));
        },
        None => {
            accounts.push(saved.clone());
            assert(views(accounts@) =~= views(before).push(saved@));
        },
    }
    AccountIndex { version: index.version, accounts }
}

/// The first of two optional texts that is there.
pub open spec fn first_text(a: Option<Seq<char>>, b: Option<Seq<char>>) -> Option<Seq<char>> {
    match a {
        Some(text) => Some(text),
        None => b,
    }
}

/// The label that is asked for, where it is more than white space.
pub open spec fn asked_label(label: Option<Seq<char>>) -> Option<Seq<char>> {
    match label {
        Some(text) => if trimmed(text).len() > 0 {
            Some(trimmed(text))
        } else {
            None
        },
        None => None,
    }
}

/// The entry for an imported account: what the app server tells of it, or else what the index
/// has; its label the one asked for, or else the one it has, or else its address, or else a
/// standing one.
pub open spec fn merged(
    index: AccountIndexView,
    id: Seq<char>,
    account: Option<AccountInfoView>,
    label: Option<Seq<char>>,
    now: u64,
) -> Result<SavedAccountView, Seq<char>> {
    let existing = account_of(index.accounts, id);
    let told_email = match account {
        Some(info) => info.email,
        None => None,
    };
    let told_plan = match account {
        Some(info) => info.plan_type,
        None => None,
    };
    let email = first_text(told_email, match existing {
        Some(entry) => entry.email,
        None => None,
    });
    let plan_type = first_text(told_plan, match existing {
        Some(entry) => entry.plan_type,
        None => None,
    });
    let had_label = match existing {
        Some(entry) => Some(entry.label),
        None => None,
    };
    let chosen = match first_text(asked_label(label), had_label) {
        Some(text) => text,
        None => match email {
            Some(text) => text,
            None => "Codex 账号"@,
        },
    };
    match label_verdict(chosen) {
        Err(error) => Err(error),
        Ok(_) => Ok(
            SavedAccountView {
                id,
                label: chosen,
                email,
                plan_type,
                imported_at: now,
                is_active: false,
            },
        ),
    }
}

/// The first of two optional texts that is there.
fn first_of(a: Option<String>, b: &Option<String>) -> (r: Option<String>)
    ensures
        held(r) == first_text(held(a), held(*b)),
{
    match a {
        Some(text) => Some(text),
        None => copy_optional(b),
    }
}

/// The entry for an imported account.
pub fn merge(
    index: &AccountIndex,
    id: &str,
    account: Option<AccountInfo>,
    label: Option<String>,
    now: u64,
) -> (r: Result<SavedAccount, String>)
    ensures
        outcome(r) == merged(index@, id@, held(account), held(label), now),
{
    let (told_email, told_plan) = match account {
        Some(info) => (info.email, info.plan_type),
        None => (None, None),
    };
    let asked: Option<String> = match label {
        Some(text) => {
            let clean = trim(text.as_str());
            if clean.is_empty() {
                None
            } else {
                Some(clean.to_owned())
            }
        },
        None => None,
    };
    let (had_email, had_plan, had_label) = match position(&index.accounts, id) {
        Some(at) => (
            copy_optional(&index.accounts[at].email),
            copy_optional(&index.accounts[at].plan_type),
            Some(index.accounts[at].label.clone()),
        ),
        None => (None, None, None),
    };
    let email = first_of(told_email, &had_email);
    let plan_type = first_of(told_plan, &had_plan);
    let chosen = match first_of(asked, &had_label) {
        Some(text) => text,
        None => match &email {
            Some(text) => text.clone(),
            None => "Codex 账号".to_owned(),
        },
    };
    if chosen.as_str().unicode_len() > MAX_LABEL {
        return Err("账号名称不能超过 80 个字符".to_owned());
    }
    Ok(
        SavedAccount {
            id: id.to_owned(),
            label: chosen,
            email,
            plan_type,
            imported_at: now,
            is_active: false,
        },
    )
}

/// A list of accounts in which exactly those with the id in use are marked.
pub open spec fn marked(accounts: Seq<SavedAccountView>, active: Option<Seq<char>>) -> Seq<
    SavedAccountView,
> {
    accounts.map_values(
        |account: SavedAccountView|
            SavedAccountView { is_active: active == Some(account.id), ..account },
    )
}

/// The saved accounts with the one in use marked.
pub fn mark_active(accounts: Vec<SavedAccount>, active: Option<String>) -> (r: AccountList)
    ensures
        r@.accounts == marked(views(accounts@), held(active)),
        r@.current_account_id == held(active),
{
    let mut listed: Vec<SavedAccount> = Vec::new();
    for at in 0..accounts.len()
        invariant
            listed@.len() == at,
            forall|i: int|
                0 <= i < at ==> (#[trigger] listed@[i])@ == (SavedAccountView {
                    is_active: held(active) == Some(accounts@[i]@.id),
                    ..accounts@[i]@
                }),
    {
        let mut account = accounts[at].clone();
        account.is_active = match &active {
            Some(id) => same(id.as_str(), account.id.as_str()),
            None => false,
        };
        listed.push(account);
    }
    assert(views(listed@) =~= marked(views(accounts@), held(active)));
    AccountList { accounts: listed, current_account_id: active }
}

} // verus!
