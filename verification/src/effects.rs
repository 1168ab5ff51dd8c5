//! What the library asks of the world, and what the world answers.
//!
//! The procedures of the library touch no file themselves. Each is a machine: it asks for one
//! action, is resumed with the event that answers it, and in the end is done with a result.

use vstd::prelude::*;
use vstd::string::*;

use crate::accounts::{empty_index, AccountIndex, AccountIndexView, INDEX_VERSION};
use crate::child_process::{
    ChildRecord, ChildRecordView, Identity, IdentityView, Record, RecordView,
};
use crate::recovery::{Transaction, TransactionView};
use crate::text::{decimal, join2, join3, number_text, outcome, outcome_held, views};

verus! {

/// A home that holds a login: the one that Codex uses, or one of the hub's own.
#[derive(Debug)]
pub enum Home {
    Active,
    Login(String),
    Runtime(String),
}

/// What `Home` says.
#[verifier::ext_equal]
pub enum HomeView {
    Active,
    Login(Seq<char>),
    Runtime(Seq<char>),
}

impl View for Home {
    type V = HomeView;

    open spec fn view(&self) -> HomeView {
        match self {
            Home::Active => HomeView::Active,
            Home::Login(inner) => HomeView::Login(inner@),
            Home::Runtime(inner) => HomeView::Runtime(inner@),
        }
    }
}

/// A file of a home: its credentials, the drafts that a write leaves when it is interrupted, and
/// the record of the process that works there.
#[derive(Clone, Copy, Debug, PartialEq, Eq, Structural)]
pub enum HomeFile {
    Auth,
    AuthDraft,
    SwitchDraft,
    Child,
}

/// A file or directory that the hub works on.
#[derive(Debug)]
pub enum Place {
    InHome(Home, HomeFile),
    HomeDir(Home),
    LoginRoot,
    RuntimeRoot,
    DataDir,
    VaultDir,
    BackupDir,
    Vault(String),
    Staged(String),
    Backup(String),
    Journal,
}

/// What `Place` says.
#[verifier::ext_equal]
pub enum PlaceView {
    InHome(HomeView, HomeFile),
    HomeDir(HomeView),
    LoginRoot,
    RuntimeRoot,
    DataDir,
    VaultDir,
    BackupDir,
    Vault(Seq<char>),
    Staged(Seq<char>),
    Backup(Seq<char>),
    Journal,
}

impl View for Place {
    type V = PlaceView;

    open spec fn view(&self) -> PlaceView {
        match self {
            Place::InHome(first, second) => PlaceView::InHome(first@, *second),
            Place::HomeDir(inner) => PlaceView::HomeDir(inner@),
            Place::LoginRoot => PlaceView::LoginRoot,
            Place::RuntimeRoot => PlaceView::RuntimeRoot,
            Place::DataDir => PlaceView::DataDir,
            Place::VaultDir => PlaceView::VaultDir,
            Place::BackupDir => PlaceView::BackupDir,
            Place::Vault(inner) => PlaceView::Vault(inner@),
            Place::Staged(inner) => PlaceView::Staged(inner@),
            Place::Backup(inner) => PlaceView::Backup(inner@),
            Place::Journal => PlaceView::Journal,
        }
    }
}

/// What a machine asks for.
///
/// `Seal` and `Unseal` encrypt and decrypt for the current user. `Write` replaces a file as a
/// whole or leaves it as it was, and so does `ReplaceActive`, for the credentials that Codex
/// uses. `CheckPath` refuses a path that runs over a link. `Encode` and `Decode` turn a recorded
/// update into bytes and back. `IsRunning` asks for no more than whether a process runs,
/// `Identify` for its identity whether it still runs or not, and `Observe` for both; `Hold` does
/// what `Observe` does and keeps hold of the process for `TerminateHeld`, `ObserveHeld` and
/// `WaitHeld`.
#[derive(Debug)]
pub enum Action {
    Read(Place),
    Write(Place, Vec<u8>),
    ReplaceActive(Vec<u8>),
    Remove(Place),
    RemoveTree(Place),
    Exists(Place),
    IsDir(Place),
    Rename(Place, Place),
    CreateDir(Place),
    List(Place),
    CheckPath(Place),
    Seal(Vec<u8>),
    Unseal(Vec<u8>),
    ReadIndex,
    WriteIndex(AccountIndex),
    Encode(Transaction),
    Decode(Vec<u8>),
    ReadChild(Home),
    EncodeChild(Record),
    IsRunning(u32),
    Identify(u32),
    Observe(u32),
    Hold(u32),
    TerminateHeld,
    ObserveHeld,
    WaitHeld(u64),
    Now,
    Sleep(u64),
}

/// What `Action` says.
#[verifier::ext_equal]
pub enum ActionView {
    Read(PlaceView),
    Write(PlaceView, Seq<u8>),
    ReplaceActive(Seq<u8>),
    Remove(PlaceView),
    RemoveTree(PlaceView),
    Exists(PlaceView),
    IsDir(PlaceView),
    Rename(PlaceView, PlaceView),
    CreateDir(PlaceView),
    List(PlaceView),
    CheckPath(PlaceView),
    Seal(Seq<u8>),
    Unseal(Seq<u8>),
    ReadIndex,
    WriteIndex(AccountIndexView),
    Encode(TransactionView),
    Decode(Seq<u8>),
    ReadChild(HomeView),
    EncodeChild(RecordView),
    IsRunning(u32),
    Identify(u32),
    Observe(u32),
    Hold(u32),
    TerminateHeld,
    ObserveHeld,
    WaitHeld(u64),
    Now,
    Sleep(u64),
}

impl View for Action {
    type V = ActionView;

    open spec fn view(&self) -> ActionView {
        match self {
            Action::Read(inner) => ActionView::Read(inner@),
            Action::Write(first, second) => ActionView::Write(first@, second@),
            Action::ReplaceActive(inner) => ActionView::ReplaceActive(inner@),
            Action::Remove(inner) => ActionView::Remove(inner@),
            Action::RemoveTree(inner) => ActionView::RemoveTree(inner@),
            Action::Exists(inner) => ActionView::Exists(inner@),
            Action::IsDir(inner) => ActionView::IsDir(inner@),
            Action::Rename(first, second) => ActionView::Rename(first@, second@),
            Action::CreateDir(inner) => ActionView::CreateDir(inner@),
            Action::List(inner) => ActionView::List(inner@),
            Action::CheckPath(inner) => ActionView::CheckPath(inner@),
            Action::Seal(inner) => ActionView::Seal(inner@),
            Action::Unseal(inner) => ActionView::Unseal(inner@),
            Action::ReadIndex => ActionView::ReadIndex,
            Action::WriteIndex(inner) => ActionView::WriteIndex(inner@),
            Action::Encode(inner) => ActionView::Encode(inner@),
            Action::Decode(inner) => ActionView::Decode(inner@),
            Action::ReadChild(inner) => ActionView::ReadChild(inner@),
            Action::EncodeChild(inner) => ActionView::EncodeChild(inner@),
            Action::IsRunning(inner) => ActionView::IsRunning(*inner),
            Action::Identify(inner) => ActionView::Identify(*inner),
            Action::Observe(inner) => ActionView::Observe(*inner),
            Action::Hold(inner) => ActionView::Hold(*inner),
            Action::TerminateHeld => ActionView::TerminateHeld,
            Action::ObserveHeld => ActionView::ObserveHeld,
            Action::WaitHeld(inner) => ActionView::WaitHeld(*inner),
            Action::Now => ActionView::Now,
            Action::Sleep(inner) => ActionView::Sleep(*inner),
        }
    }
}

/// A name in a directory, or what kept it from being read.
#[derive(Debug)]
pub enum Entry {
    Named(String),
    Unreadable(String),
}

/// What `Entry` says.
#[verifier::ext_equal]
pub enum EntryView {
    Named(Seq<char>),
    Unreadable(Seq<char>),
}

impl View for Entry {
    type V = EntryView;

    open spec fn view(&self) -> EntryView {
        match self {
            Entry::Named(inner) => EntryView::Named(inner@),
            Entry::Unreadable(inner) => EntryView::Unreadable(inner@),
        }
    }
}

impl Clone for Home {
    fn clone(&self) -> (r: Home)
        ensures
            r == *self,
    {
        match self {
            Home::Active => Home::Active,
            Home::Login(name) => Home::Login(name.clone()),
            Home::Runtime(name) => Home::Runtime(name.clone()),
        }
    }
}

impl Clone for Place {
    fn clone(&self) -> (r: Place)
        ensures
            r == *self,
    {
        match self {
            Place::InHome(home, file) => Place::InHome(home.clone(), *file),
            Place::HomeDir(home) => Place::HomeDir(home.clone()),
            Place::LoginRoot => Place::LoginRoot,
            Place::RuntimeRoot => Place::RuntimeRoot,
            Place::DataDir => Place::DataDir,
            Place::VaultDir => Place::VaultDir,
            Place::BackupDir => Place::BackupDir,
            Place::Vault(id) => Place::Vault(id.clone()),
            Place::Staged(id) => Place::Staged(id.clone()),
            Place::Backup(name) => Place::Backup(name.clone()),
            Place::Journal => Place::Journal,
        }
    }
}

/// What answers an action.
///
/// `Missing` and `Failed` carry the path and the system's words; `Rejected` carries a message
/// that stands by itself; `Damaged` says that a file was read but makes no sense.
#[derive(Debug)]
pub enum Event {
    Done,
    Bytes(Vec<u8>),
    Missing { path: String, error: String },
    Failed { path: String, error: String },
    Rejected(String),
    Damaged(String),
    Present(bool),
    Names(Vec<Entry>),
    Index(AccountIndex),
    Journal(Transaction),
    Child(ChildRecord),
    Alive(Identity),
    Exited,
    Gone,
    TimedOut,
    Time { seconds: u64, nanos: u128 },
}

/// What `Event` says.
#[verifier::ext_equal]
pub enum EventView {
    Done,
    Bytes(Seq<u8>),
    Missing { path: Seq<char>, error: Seq<char> },
    Failed { path: Seq<char>, error: Seq<char> },
    Rejected(Seq<char>),
    Damaged(Seq<char>),
    Present(bool),
    Names(Seq<EntryView>),
    Index(AccountIndexView),
    Journal(TransactionView),
    Child(ChildRecordView),
    Alive(IdentityView),
    Exited,
    Gone,
    TimedOut,
    Time { seconds: u64, nanos: u128 },
}

impl View for Event {
    type V = EventView;

    open spec fn view(&self) -> EventView {
        match self {
            Event::Done => EventView::Done,
            Event::Bytes(inner) => EventView::Bytes(inner@),
            Event::Missing { path, error } => EventView::Missing {
                path: path@,
                error: error@,
            },
            Event::Failed { path, error } => EventView::Failed {
                path: path@,
                error: error@,
            },
            Event::Rejected(inner) => EventView::Rejected(inner@),
            Event::Damaged(inner) => EventView::Damaged(inner@),
            Event::Present(inner) => EventView::Present(*inner),
            Event::Names(inner) => EventView::Names(views(inner@)),
            Event::Index(inner) => EventView::Index(inner@),
            Event::Journal(inner) => EventView::Journal(inner@),
            Event::Child(inner) => EventView::Child(inner@),
            Event::Alive(inner) => EventView::Alive(inner@),
            Event::Exited => EventView::Exited,
            Event::Gone => EventView::Gone,
            Event::TimedOut => EventView::TimedOut,
            Event::Time { seconds, nanos } => EventView::Time {
                seconds: *seconds,
                nanos: *nanos,
            },
        }
    }
}

/// A machine that asks for an action, or its result.
#[derive(Debug)]
pub enum Step<A, M, T> {
    Ask(A, M),
    Done(Result<T, String>),
}

/// What `Step` says.
#[verifier::ext_equal]
pub enum StepView<A, M, T> {
    Ask(A, M),
    Done(Result<T, Seq<char>>),
}

impl<A: View, M: View, T: View> View for Step<A, M, T> {
    type V = StepView<A::V, M::V, T::V>;

    open spec fn view(&self) -> StepView<A::V, M::V, T::V> {
        match self {
            Step::Ask(action, machine) => StepView::Ask(action@, machine@),
            Step::Done(result) => StepView::Done(outcome(*result)),
        }
    }
}

/// The words of an event that is not the one hoped for.
pub open spec fn failure_text(event: EventView) -> Seq<char> {
    match event {
        EventView::Missing { path: _, error } => error,
        EventView::Failed { path: _, error } => error,
        EventView::Rejected(message) => message,
        EventView::Damaged(error) => error,
        _ => "应答与请求不符"@,
    }
}

/// The words of an event that is not the one hoped for.
pub fn failure(event: Event) -> (r: String)
    ensures
        r@ == failure_text(event@),
{
    match event {
        Event::Missing { path: _, error } => error,
        Event::Failed { path: _, error } => error,
        Event::Rejected(message) => message,
        Event::Damaged(error) => error,
        _ => "应答与请求不符".to_owned(),
    }
}

/// The path and the words of an event that is not the one hoped for.
pub open spec fn located_failure_text(event: EventView) -> Seq<char> {
    match event {
        EventView::Missing { path, error } => path + "："@ + error,
        EventView::Failed { path, error } => path + "："@ + error,
        other => failure_text(other),
    }
}

/// The path and the words of an event that is not the one hoped for.
pub fn located_failure(event: Event) -> (r: String)
    ensures
        r@ == located_failure_text(event@),
{
    match event {
        Event::Missing { path, error } => join3(path.as_str(), "：", error.as_str()),
        Event::Failed { path, error } => join3(path.as_str(), "：", error.as_str()),
        other => failure(other),
    }
}

/// Whether an action was done; otherwise why it was not.
pub open spec fn done_reply(event: EventView) -> Result<(), Seq<char>> {
    match event {
        EventView::Done => Ok(()),
        other => Err(failure_text(other)),
    }
}

/// Whether an action was done; otherwise why it was not.
pub fn expect_done(event: Event) -> (r: Result<(), String>)
    ensures
        outcome(r) == done_reply(event@),
{
    match event {
        Event::Done => Ok(()),
        other => Err(failure(other)),
    }
}

/// Whether an action was done; otherwise why it was not, after a heading.
pub open spec fn done_reply_as(event: EventView, heading: Seq<char>) -> Result<(), Seq<char>> {
    match event {
        EventView::Done => Ok(()),
        other => Err(heading + failure_text(other)),
    }
}

/// Whether an action was done; otherwise why it was not, after a heading.
pub fn expect_done_as(event: Event, heading: &str) -> (r: Result<(), String>)
    ensures
        outcome(r) == done_reply_as(event@, heading@),
{
    match event {
        Event::Done => Ok(()),
        other => Err(join2(heading, failure(other).as_str())),
    }
}

/// Whether the answer is that a file is there; a file that cannot be looked at counts as missing.
pub open spec fn present(event: EventView) -> bool {
    match event {
        EventView::Present(flag) => flag,
        _ => false,
    }
}

/// Whether the answer is that a file is there; a file that cannot be looked at counts as missing.
pub fn is_present(event: Event) -> (r: bool)
    ensures
        r == present(event@),
{
    match event {
        Event::Present(flag) => flag,
        _ => false,
    }
}

/// The names among the entries of a directory, without what could not be read.
pub open spec fn names_of(entries: Seq<EntryView>) -> Seq<Seq<char>>
    decreases entries.len(),
{
    if entries.len() == 0 {
        seq![]
    } else {
        match entries.last() {
            EntryView::Named(name) => names_of(entries.drop_last()).push(name),
            EntryView::Unreadable(_) => names_of(entries.drop_last()),
        }
    }
}

/// The names among the entries of a directory.
pub fn readable_names(entries: Vec<Entry>) -> (r: Vec<String>)
    ensures
        views(r@) == names_of(views(entries@)),
{
    let ghost all = views(entries@);
    let mut names: Vec<String> = Vec::new();
    assert(views(names@) =~= seq![]);
    assert(all.take(0) =~= seq![]);
    for at in 0..entries.len()
        invariant
            all == views(entries@),
            views(names@) == names_of(all.take(at as int)),
    {
        assert(all.take(at + 1).drop_last() =~= all.take(at as int));
        assert(all[at as int] == entries@[at as int]@);
        let ghost before = names@;
        match &entries[at] {
            Entry::Named(name) => {
                names.push(name.clone());
                assert(views(names@) =~= views(before).push(name@));
            },
            Entry::Unreadable(_) => {},
        }
    }
    assert(all.take(all.len() as int) =~= all);
    names
}

/// The account index as it was read; where there is none, an empty one.
pub open spec fn index_reply(event: EventView) -> Result<AccountIndexView, Seq<char>> {
    match event {
        EventView::Index(index) => if index.version != INDEX_VERSION {
            Err("不支持的账号索引版本："@ + decimal((index.version as u64) as nat))
        } else {
            Ok(index)
        },
        EventView::Missing { path: _, error: _ } => Ok(empty_index()),
        EventView::Damaged(error) => Err("账号索引损坏："@ + error),
        other => Err("无法读取账号索引："@ + failure_text(other)),
    }
}

/// The account index as it was read; where there is none, an empty one.
pub fn expect_index(event: Event) -> (r: Result<AccountIndex, String>)
    ensures
        outcome(r) == index_reply(event@),
{
    match event {
        Event::Index(index) => if index.version != INDEX_VERSION {
            Err(join2("不支持的账号索引版本：", number_text(index.version as u64).as_str()))
        } else {
            Ok(index)
        },
        Event::Missing { path: _, error: _ } => Ok(AccountIndex::new()),
        Event::Damaged(error) => Err(join2("账号索引损坏：", error.as_str())),
        other => Err(join2("无法读取账号索引：", failure(other).as_str())),
    }
}

/// The credentials that Codex uses, if there are any.
pub open spec fn auth_reply(event: EventView) -> Result<Option<Seq<u8>>, Seq<char>> {
    match event {
        EventView::Bytes(auth) => Ok(Some(auth)),
        EventView::Missing { path: _, error: _ } => Ok(None),
        other => Err("无法读取当前认证文件："@ + failure_text(other)),
    }
}

/// The credentials that Codex uses, if there are any.
pub fn expect_optional_auth(event: Event) -> (r: Result<Option<Vec<u8>>, String>)
    ensures
        outcome_held(r) == auth_reply(event@),
{
    match event {
        Event::Bytes(auth) => Ok(Some(auth)),
        Event::Missing { path: _, error: _ } => Ok(None),
        other => Err(join2("无法读取当前认证文件：", failure(other).as_str())),
    }
}

/// What is made of an index that was read: it is taken as it is where its version is known, and no
/// index is as good as an empty one; anything else is told.
pub proof fn law_index_is_taken_as_read(
    index: AccountIndexView,
    path: Seq<char>,
    error: Seq<char>,
)
    ensures
        index.version == 1 ==> index_reply(EventView::Index(index)) == Ok::<
            AccountIndexView,
            Seq<char>,
        >(index),
        index.version != 1 ==> index_reply(EventView::Index(index)) == Err::<
            AccountIndexView,
            Seq<char>,
        >("不支持的账号索引版本："@ + decimal(index.version as nat)),
        index_reply(EventView::Missing { path, error }) matches Ok(none) && none.version == 1
            && none.accounts.len() == 0,
        index_reply(EventView::Damaged(error)) == Err::<AccountIndexView, Seq<char>>(
            "账号索引损坏："@ + error,
        ),
        index_reply(EventView::Failed { path, error }) == Err::<AccountIndexView, Seq<char>>(
            "无法读取账号索引："@ + error,
        ),
{
}

/// What is made of credentials that were read: none is no error.
pub proof fn law_credentials_are_taken_as_read(
    auth: Seq<u8>,
    path: Seq<char>,
    error: Seq<char>,
)
    ensures
        auth_reply(EventView::Bytes(auth)) == Ok::<Option<Seq<u8>>, Seq<char>>(Some(auth)),
        auth_reply(EventView::Missing { path, error }) == Ok::<Option<Seq<u8>>, Seq<char>>(None),
        auth_reply(EventView::Failed { path, error }) == Err::<Option<Seq<u8>>, Seq<char>>(
            "无法读取当前认证文件："@ + error,
        ),
{
}

/// The names of a directory are those of its entries, in their order, but for what could not be
/// read.
pub proof fn law_names_are_those_of_the_entries(
    entries: Seq<EntryView>,
    name: Seq<char>,
    error: Seq<char>,
)
    ensures
        names_of(Seq::<EntryView>::empty()) == Seq::<Seq<char>>::empty(),
        names_of(entries.push(EntryView::Named(name))) == names_of(entries).push(name),
        names_of(entries.push(EntryView::Unreadable(error))) == names_of(entries),
{
    assert(entries.push(EntryView::Named(name)).drop_last() =~= entries);
    assert(entries.push(EntryView::Unreadable(error)).drop_last() =~= entries);
}

/// What is made of other answers: what was done is done, and anything else tells why it was not. A
/// file that cannot be looked at counts as missing.
pub proof fn law_failures_are_told(path: Seq<char>, error: Seq<char>, heading: Seq<char>)
    ensures
        done_reply(EventView::Done) == Ok::<(), Seq<char>>(()),
        done_reply(EventView::Failed { path, error }) == Err::<(), Seq<char>>(error),
        done_reply(EventView::Missing { path, error }) == Err::<(), Seq<char>>(error),
        done_reply(EventView::Rejected(error)) == Err::<(), Seq<char>>(error),
        done_reply_as(EventView::Done, heading) == Ok::<(), Seq<char>>(()),
        done_reply_as(EventView::Failed { path, error }, heading) == Err::<(), Seq<char>>(
            heading + error,
        ),
        located_failure_text(EventView::Failed { path, error }) == path + "："@ + error,
        located_failure_text(EventView::Missing { path, error }) == path + "："@ + error,
        present(EventView::Present(true)),
        !present(EventView::Present(false)),
        !present(EventView::Failed { path, error }),
{
}

} // verus!
