//! Recovery from an interruption: updates of the active credentials that were recorded and not
//! finished, and what logins and queries left behind.

use vstd::prelude::*;
use vstd::string::*;

use crate::accounts::{SavedAccount, SavedAccountView};
use crate::bytes::{copy_bytes, same_optional_bytes};
use crate::child_process::{
    capture, capture_reply, legacy_reply, legacy_running, running, running_reply, stop, stop_next,
    stopping, ChildRecord, ChildRecordView, Identity, IdentityView, Record, RecordView, Stop,
    StopView, RECORD_VERSION,
};
use crate::credentials::{usable_auth_identity, usable_identity};
use crate::digest::{fingerprint, hex, sha256};
use crate::effects::{
    auth_reply, done_reply, expect_done, expect_optional_auth, failure, failure_text, is_present,
    present, Action, ActionView, Entry, EntryView, Event, EventView, Home, HomeFile, HomeView,
    Place, PlaceView, Step, StepView,
};
use crate::text::{
    copy_result, decimal, first_and_rest, held, join2, join3, no_texts, number_text, outcome, same,
    split_first, views,
};
use crate::vault::{
    finish_isolated_home, finish_next, finishing_isolated, import_current, import_next, importing,
    is_exactly, is_target, Finish, FinishView, Import, ImportView,
};

verus! {

/// The version of the updates that the hub records.
pub const JOURNAL_VERSION: u32 = 1;

/// How often to look whether a login process has ended.
pub const LOGIN_EXIT_TRIES: u32 = 60;

/// How long to wait between two looks, in milliseconds.
pub const LOGIN_EXIT_PAUSE: u64 = 50;

/// An update of the credentials that Codex uses, as it is recorded before it is made.
#[derive(Debug)]
pub struct Transaction {
    pub version: u32,
    pub codex_home: String,
    pub target_id: String,
    pub target_hash: String,
    pub before: Option<Vec<u8>>,
}

/// What `Transaction` says.
#[verifier::ext_equal]
pub struct TransactionView {
    pub version: u32,
    pub codex_home: Seq<char>,
    pub target_id: Seq<char>,
    pub target_hash: Seq<char>,
    pub before: Option<Seq<u8>>,
}

impl View for Transaction {
    type V = TransactionView;

    open spec fn view(&self) -> TransactionView {
        TransactionView {
            version: self.version,
            codex_home: self.codex_home@,
            target_id: self.target_id@,
            target_hash: self.target_hash@,
            before: held(self.before),
        }
    }
}

/// What a recovery did and found.
#[derive(Debug)]
pub struct Report {
    pub messages: Vec<String>,
    pub needs_attention: bool,
    pub restart_suggested: bool,
}

/// What `Report` says.
#[verifier::ext_equal]
pub struct ReportView {
    pub messages: Seq<Seq<char>>,
    pub needs_attention: bool,
    pub restart_suggested: bool,
}

impl View for Report {
    type V = ReportView;

    open spec fn view(&self) -> ReportView {
        ReportView {
            messages: views(self.messages@),
            needs_attention: self.needs_attention,
            restart_suggested: self.restart_suggested,
        }
    }
}

/// A report that says nothing.
pub open spec fn empty_report() -> ReportView {
    ReportView { messages: seq![], needs_attention: false, restart_suggested: false }
}

/// A report with one more message.
pub open spec fn noted(report: ReportView, message: Seq<char>) -> ReportView {
    ReportView { messages: report.messages.push(message), ..report }
}

impl Clone for Report {
    fn clone(&self) -> (r: Report)
        ensures
            r@ == self@,
    {
        let mut messages: Vec<String> = Vec::new();
        for at in 0..self.messages.len()
            invariant
                messages@.len() == at,
                forall|i: int| 0 <= i < at ==> (#[trigger] messages@[i])@ == self.messages@[i]@,
        {
            messages.push(self.messages[at].clone());
        }
        assert(views(messages@) =~= views(self.messages@));
        Report {
            messages,
            needs_attention: self.needs_attention,
            restart_suggested: self.restart_suggested,
        }
    }
}

impl Default for Report {
    /// A report that says nothing.
    fn default() -> (r: Report)
        ensures
            r@ == empty_report(),
    {
        Report::new()
    }
}

impl Report {
    /// A report that says nothing.
    pub fn new() -> (r: Report)
        ensures
            r@ == empty_report(),
    {
        let messages: Vec<String> = Vec::new();
        assert(views(messages@) =~= seq![]);
        Report { messages, needs_attention: false, restart_suggested: false }
    }

    /// Adds a message.
    pub fn note(self, message: String) -> (r: Report)
        ensures
            r@ == noted(self@, message@),
    {
        let mut messages = self.messages;
        messages.push(message);
        assert(views(messages@) =~= views(self.messages@).push(message@));
        Report {
            messages,
            needs_attention: self.needs_attention,
            restart_suggested: self.restart_suggested,
        }
    }
}

/// What a path or a directory above it was found to be.
#[derive(Debug)]
pub enum Ancestor {
    Plain,
    Linked,
    Missing,
    Failed(String),
}

/// What `Ancestor` says.
#[verifier::ext_equal]
pub enum AncestorView {
    Plain,
    Linked,
    Missing,
    Failed(Seq<char>),
}

impl View for Ancestor {
    type V = AncestorView;

    open spec fn view(&self) -> AncestorView {
        match self {
            Ancestor::Plain => AncestorView::Plain,
            Ancestor::Linked => AncestorView::Linked,
            Ancestor::Missing => AncestorView::Missing,
            Ancestor::Failed(inner) => AncestorView::Failed(inner@),
        }
    }
}

/// The verdict on the parts of a path, looked at in turn.
pub open spec fn ancestors_verdict(ancestors: Seq<AncestorView>) -> Result<(), Seq<char>>
    decreases ancestors.len(),
{
    if ancestors.len() == 0 {
        Ok(())
    } else {
        match ancestors[0] {
            AncestorView::Linked => Err("恢复路径包含链接或重解析点，已停止自动处理"@),
            AncestorView::Failed(error) => Err("无法检查恢复路径："@ + error),
            _ => ancestors_verdict(ancestors.drop_first()),
        }
    }
}

/// The verdict on a path: it has to be absolute, and no part of it may be a link.
pub open spec fn path_verdict(is_absolute: bool, ancestors: Seq<AncestorView>) -> Result<
    (),
    Seq<char>,
> {
    if is_absolute {
        ancestors_verdict(ancestors)
    } else {
        Err("恢复路径必须是绝对路径"@)
    }
}

/// Accepts a path that credentials are cleaned or restored under, from what it and the
/// directories above it were found to be.
pub fn checked_path(is_absolute: bool, ancestors: &Vec<Ancestor>) -> (r: Result<(), String>)
    ensures
        outcome(r) == path_verdict(is_absolute, views(ancestors@)),
{
    if !is_absolute {
        return Err("恢复路径必须是绝对路径".to_owned());
    }
    let ghost all = views(ancestors@);
    assert(all.skip(0) =~= all);
    for at in 0..ancestors.len()
        invariant
            is_absolute,
            all == views(ancestors@),
            ancestors_verdict(all) == ancestors_verdict(all.skip(at as int)),
    {
        assert(all.skip(at as int).drop_first() =~= all.skip(at + 1));
        assert(all.skip(at as int)[0] == ancestors@[at as int]@);
        match &ancestors[at] {
            Ancestor::Linked => {
                return Err("恢复路径包含链接或重解析点，已停止自动处理".to_owned());
            },
            Ancestor::Failed(error) => {
                return Err(join2("无法检查恢复路径：", error.as_str()));
            },
            _ => {},
        }
    }
    Ok(())
}

/// A path is accepted exactly if it is absolute and every part of it is plain or missing.
pub proof fn law_checked_path_has_no_link(is_absolute: bool, ancestors: Seq<AncestorView>)
    ensures
        path_verdict(is_absolute, ancestors) is Ok <==> is_absolute && forall|i: int|
            0 <= i < ancestors.len() ==> (#[trigger] ancestors[i] is Plain || ancestors[i]
                is Missing),
    decreases ancestors.len(),
{
    if ancestors.len() > 0 {
        law_checked_path_has_no_link(is_absolute, ancestors.drop_first());
        assert(forall|i: int|
            0 < i < ancestors.len() ==> #[trigger] ancestors[i] == ancestors.drop_first()[i - 1]);
        assert(forall|i: int|
            0 <= i < ancestors.drop_first().len() ==> #[trigger] ancestors.drop_first()[i]
                == ancestors[i + 1]);
    }
}

/// Removing a file whose path is checked first: the check is awaited, then the removal.
#[derive(Debug)]
pub enum CheckedRemove {
    Path(Place),
    Removed,
}

/// What `CheckedRemove` says.
#[verifier::ext_equal]
pub enum CheckedRemoveView {
    Path(PlaceView),
    Removed,
}

impl View for CheckedRemove {
    type V = CheckedRemoveView;

    open spec fn view(&self) -> CheckedRemoveView {
        match self {
            CheckedRemove::Path(inner) => CheckedRemoveView::Path(inner@),
            CheckedRemove::Removed => CheckedRemoveView::Removed,
        }
    }
}

/// Removes a file whose path runs over no link; one that is missing is as good as removed.
pub open spec fn removing_checked(place: PlaceView) -> StepView<ActionView, CheckedRemoveView, ()> {
    StepView::Ask(ActionView::CheckPath(place), CheckedRemoveView::Path(place))
}

/// Removes a file whose path runs over no link; one that is missing is as good as removed.
pub fn remove_file(place: Place) -> (r: Step<Action, CheckedRemove, ()>)
    ensures
        r@ == removing_checked(place@),
{
    Step::Ask(Action::CheckPath(place.clone()), CheckedRemove::Path(place))
}

/// Goes on with the answer to what was asked.
pub open spec fn checked_remove_next(
    state: CheckedRemoveView,
    event: EventView,
) -> StepView<ActionView, CheckedRemoveView, ()> {
    match state {
        CheckedRemoveView::Path(place) => match done_reply(event) {
            Err(error) => StepView::Done(Err(error)),
            Ok(_) => StepView::Ask(ActionView::Remove(place), CheckedRemoveView::Removed),
        },
        CheckedRemoveView::Removed => match event {
            EventView::Done => StepView::Done(Ok(())),
            EventView::Missing { path: _, error: _ } => StepView::Done(Ok(())),
            other => StepView::Done(
                Err("无法清理恢复文件："@ + failure_text(other)),
            ),
        },
    }
}

impl CheckedRemove {
    /// Goes on with the answer to what was asked.
    pub fn resume(self, event: Event) -> (r: Step<Action, CheckedRemove, ()>)
        ensures
            r@ == checked_remove_next(self@, event@),
    {
        match self {
            CheckedRemove::Path(place) => match expect_done(event) {
                Err(error) => Step::Done(Err(error)),
                Ok(_) => Step::Ask(Action::Remove(place), CheckedRemove::Removed),
            },
            CheckedRemove::Removed => match event {
                Event::Done => Step::Done(Ok(())),
                Event::Missing { path: _, error: _ } => Step::Done(Ok(())),
                other => Step::Done(
                    Err(join2("无法清理恢复文件：", failure(other).as_str())),
                ),
            },
        }
    }
}

/// Ends the record of an update.
pub open spec fn finishing() -> StepView<ActionView, CheckedRemoveView, ()> {
    removing_checked(PlaceView::Journal)
}

/// Ends the record of an update.
pub fn finish() -> (r: Step<Action, CheckedRemove, ()>)
    ensures
        r@ == finishing(),
{
    remove_file(Place::Journal)
}

/// Removes the record of the process that worked in a home.
pub open spec fn clearing_child(home: HomeView) -> StepView<ActionView, CheckedRemoveView, ()> {
    removing_checked(PlaceView::InHome(home, HomeFile::Child))
}

/// Removes the record of the process that worked in a home.
pub fn clear_child(home: Home) -> (r: Step<Action, CheckedRemove, ()>)
    ensures
        r@ == clearing_child(home@),
{
    remove_file(Place::InHome(home, HomeFile::Child))
}

/// Looking for an update that was not finished.
#[derive(Debug)]
pub enum Pending {
    Path,
    Present,
}

/// What `Pending` says.
#[verifier::ext_equal]
pub enum PendingView {
    Path,
    Present,
}

impl View for Pending {
    type V = PendingView;

    open spec fn view(&self) -> PendingView {
        match self {
            Pending::Path => PendingView::Path,
            Pending::Present => PendingView::Present,
        }
    }
}

/// Refuses to go on while there is a record of an update.
pub open spec fn checking_pending() -> StepView<ActionView, PendingView, ()> {
    StepView::Ask(ActionView::CheckPath(PlaceView::Journal), PendingView::Path)
}

/// Refuses to go on while there is a record of an update.
pub fn ensure_no_pending() -> (r: Step<Action, Pending, ()>)
    ensures
        r@ == checking_pending(),
{
    Step::Ask(Action::CheckPath(Place::Journal), Pending::Path)
}

/// Goes on with the answer to what was asked.
pub open spec fn pending_next(
    state: PendingView,
    event: EventView,
) -> StepView<ActionView, PendingView, ()> {
    match state {
        PendingView::Path => match done_reply(event) {
            Err(error) => StepView::Done(Err(error)),
            Ok(_) => StepView::Ask(ActionView::Exists(PlaceView::Journal), PendingView::Present),
        },
        PendingView::Present => if present(event) {
            StepView::Done(
                Err(
                    "有未完成的认证恢复记录，请先点击“检查并恢复”或“重试恢复”"@,
                ),
            )
        } else {
            StepView::Done(Ok(()))
        },
    }
}

impl Pending {
    /// Goes on with the answer to what was asked.
    pub fn resume(self, event: Event) -> (r: Step<Action, Pending, ()>)
        ensures
            r@ == pending_next(self@, event@),
    {
        match self {
            Pending::Path => match expect_done(event) {
                Err(error) => Step::Done(Err(error)),
                Ok(_) => Step::Ask(Action::Exists(Place::Journal), Pending::Present),
            },
            Pending::Present => if is_present(event) {
                Step::Done(
                    Err(
                        "有未完成的认证恢复记录，请先点击“检查并恢复”或“重试恢复”".to_owned(),
                    ),
                )
            } else {
                Step::Done(Ok(()))
            },
        }
    }
}

/// Recording an update before it is made.
#[derive(Debug)]
pub enum Begin {
    DataPath(Transaction),
    AuthPath(Transaction),
    Pending(Transaction, Pending),
    Encoded,
    Sealed,
    Written,
}

/// What `Begin` says.
#[verifier::ext_equal]
pub enum BeginView {
    DataPath(TransactionView),
    AuthPath(TransactionView),
    Pending(TransactionView, PendingView),
    Encoded,
    Sealed,
    Written,
}

impl View for Begin {
    type V = BeginView;

    open spec fn view(&self) -> BeginView {
        match self {
            Begin::DataPath(inner) => BeginView::DataPath(inner@),
            Begin::AuthPath(inner) => BeginView::AuthPath(inner@),
            Begin::Pending(first, second) => BeginView::Pending(first@, second@),
            Begin::Encoded => BeginView::Encoded,
            Begin::Sealed => BeginView::Sealed,
            Begin::Written => BeginView::Written,
        }
    }
}

/// Records an update of the active credentials before it is made.
pub open spec fn beginning(
    codex_home: Seq<char>,
    target: Seq<u8>,
    target_id: Seq<char>,
    before: Option<Seq<u8>>,
) -> StepView<ActionView, BeginView, ()> {
    StepView::Ask(
        ActionView::CheckPath(PlaceView::DataDir),
        BeginView::DataPath(
            TransactionView {
                version: JOURNAL_VERSION,
                codex_home: codex_home,
                target_id: target_id,
                target_hash: hex(sha256(target)),
                before,
            },
        ),
    )
}

/// Records an update of the active credentials before it is made.
pub fn begin(
    codex_home: &str,
    target: &Vec<u8>,
    target_id: &str,
    before: Option<Vec<u8>>,
) -> (r: Step<Action, Begin, ()>)
    ensures
        r@ == beginning(codex_home@, target@, target_id@, held(before)),
{
    Step::Ask(
        Action::CheckPath(Place::DataDir),
        Begin::DataPath(
            Transaction {
                version: JOURNAL_VERSION,
                codex_home: codex_home.to_owned(),
                target_id: target_id.to_owned(),
                target_hash: fingerprint(target.as_slice()),
                before,
            },
        ),
    )
}

/// Goes on while it is not known whether another update is recorded.
pub open spec fn begin_pending(
    transaction: TransactionView,
    step: StepView<ActionView, PendingView, ()>,
) -> StepView<ActionView, BeginView, ()> {
    match step {
        StepView::Ask(action, pending) => StepView::Ask(
            action,
            BeginView::Pending(transaction, pending),
        ),
        StepView::Done(Err(error)) => StepView::Done(Err(error)),
        StepView::Done(Ok(_)) => StepView::Ask(ActionView::Encode(transaction), BeginView::Encoded),
    }
}

/// Goes on while it is not known whether another update is recorded.
pub fn begin_after_pending(
    transaction: Transaction,
    step: Step<Action, Pending, ()>,
) -> (r: Step<Action, Begin, ()>)
    ensures
        r@ == begin_pending(transaction@, step@),
{
    match step {
        Step::Ask(action, pending) => Step::Ask(action, Begin::Pending(transaction, pending)),
        Step::Done(Err(error)) => Step::Done(Err(error)),
        Step::Done(Ok(_)) => Step::Ask(Action::Encode(transaction), Begin::Encoded),
    }
}

/// Goes on with the answer to what was asked.
pub open spec fn begin_next(
    state: BeginView,
    event: EventView,
) -> StepView<ActionView, BeginView, ()> {
    match state {
        BeginView::DataPath(transaction) => match done_reply(event) {
            Err(error) => StepView::Done(Err(error)),
            Ok(_) => StepView::Ask(
                ActionView::CheckPath(PlaceView::InHome(HomeView::Active, HomeFile::Auth)),
                BeginView::AuthPath(transaction),
            ),
        },
        BeginView::AuthPath(transaction) => match done_reply(event) {
            Err(error) => StepView::Done(Err(error)),
            Ok(_) => begin_pending(transaction, checking_pending()),
        },
        BeginView::Pending(transaction, pending) => begin_pending(
            transaction,
            pending_next(pending, event),
        ),
        BeginView::Encoded => match event {
            EventView::Bytes(bytes) => StepView::Ask(ActionView::Seal(bytes), BeginView::Sealed),
            _ => StepView::Done(Err("无法生成恢复记录"@)),
        },
        BeginView::Sealed => match event {
            EventView::Bytes(sealed) => StepView::Ask(
                ActionView::Write(PlaceView::Journal, sealed),
                BeginView::Written,
            ),
            other => StepView::Done(Err(failure_text(other))),
        },
        BeginView::Written => StepView::Done(done_reply(event)),
    }
}

impl Begin {
    /// Goes on with the answer to what was asked.
    pub fn resume(self, event: Event) -> (r: Step<Action, Begin, ()>)
        ensures
            r@ == begin_next(self@, event@),
    {
        match self {
            Begin::DataPath(transaction) => match expect_done(event) {
                Err(error) => Step::Done(Err(error)),
                Ok(_) => Step::Ask(
                    Action::CheckPath(Place::InHome(Home::Active, HomeFile::Auth)),
                    Begin::AuthPath(transaction),
                ),
            },
            Begin::AuthPath(transaction) => match expect_done(event) {
                Err(error) => Step::Done(Err(error)),
                Ok(_) => begin_after_pending(transaction, ensure_no_pending()),
            },
            Begin::Pending(transaction, pending) => begin_after_pending(
                transaction,
                Pending::resume(pending, event),
            ),
            Begin::Encoded => match event {
                Event::Bytes(bytes) => Step::Ask(Action::Seal(bytes), Begin::Sealed),
                _ => Step::Done(Err("无法生成恢复记录".to_owned())),
            },
            Begin::Sealed => match event {
                Event::Bytes(sealed) => Step::Ask(
                    Action::Write(Place::Journal, sealed),
                    Begin::Written,
                ),
                other => Step::Done(Err(failure(other))),
            },
            Begin::Written => Step::Done(expect_done(event)),
        }
    }
}

/// Recording the process that works in a home.
#[derive(Debug)]
pub enum RecordChild {
    Path { home: Home, pid: u32, own: u32 },
    Process { home: Home, own: u32 },
    Owner { home: Home, process: Identity },
    Encoded { home: Home },
    Written,
}

/// What `RecordChild` says.
#[verifier::ext_equal]
pub enum RecordChildView {
    Path { home: HomeView, pid: u32, own: u32 },
    Process { home: HomeView, own: u32 },
    Owner { home: HomeView, process: IdentityView },
    Encoded { home: HomeView },
    Written,
}

impl View for RecordChild {
    type V = RecordChildView;

    open spec fn view(&self) -> RecordChildView {
        match self {
            RecordChild::Path { home, pid, own } => RecordChildView::Path {
                home: home@,
                pid: *pid,
                own: *own,
            },
            RecordChild::Process { home, own } => RecordChildView::Process {
                home: home@,
                own: *own,
            },
            RecordChild::Owner { home, process } => RecordChildView::Owner {
                home: home@,
                process: process@,
            },
            RecordChild::Encoded { home } => RecordChildView::Encoded {
                home: home@,
            },
            RecordChild::Written => RecordChildView::Written,
        }
    }
}

/// Records the process that works in a home; `own` is the number of the process that asks.
pub open spec fn recording_child(
    home: HomeView,
    pid: u32,
    own: u32,
) -> StepView<ActionView, RecordChildView, ()> {
    StepView::Ask(
        ActionView::CheckPath(PlaceView::HomeDir(home)),
        RecordChildView::Path { home, pid, own },
    )
}

/// Records the process that works in a home; `own` is the number of the process that asks.
pub fn record_child(home: Home, pid: u32, own: u32) -> (r: Step<Action, RecordChild, ()>)
    ensures
        r@ == recording_child(home@, pid, own),
{
    Step::Ask(
        Action::CheckPath(Place::HomeDir(home.clone())),
        RecordChild::Path { home, pid, own },
    )
}

/// Goes on with the answer to what was asked.
pub open spec fn record_child_next(
    state: RecordChildView,
    event: EventView,
) -> StepView<ActionView, RecordChildView, ()> {
    match state {
        RecordChildView::Path { home, pid, own } => match done_reply(event) {
            Err(error) => StepView::Done(Err(error)),
            Ok(_) => StepView::Ask(
                ActionView::Identify(pid),
                RecordChildView::Process { home, own },
            ),
        },
        RecordChildView::Process { home, own } => match capture_reply(event) {
            Err(error) => StepView::Done(Err(error)),
            Ok(process) => StepView::Ask(
                ActionView::Identify(own),
                RecordChildView::Owner { home, process },
            ),
        },
        RecordChildView::Owner { home, process } => match capture_reply(event) {
            Err(error) => StepView::Done(Err(error)),
            Ok(owner) => StepView::Ask(
                ActionView::EncodeChild(RecordView { version: RECORD_VERSION, process, owner }),
                RecordChildView::Encoded { home },
            ),
        },
        RecordChildView::Encoded { home } => match event {
            EventView::Bytes(bytes) => StepView::Ask(
                ActionView::Write(PlaceView::InHome(home, HomeFile::Child), bytes),
                RecordChildView::Written,
            ),
            _ => StepView::Done(Err("无法记录进程"@)),
        },
        RecordChildView::Written => StepView::Done(done_reply(event)),
    }
}

impl RecordChild {
    /// Goes on with the answer to what was asked.
    pub fn resume(self, event: Event) -> (r: Step<Action, RecordChild, ()>)
        ensures
            r@ == record_child_next(self@, event@),
    {
        match self {
            RecordChild::Path { home, pid, own } => match expect_done(event) {
                Err(error) => Step::Done(Err(error)),
                Ok(_) => Step::Ask(Action::Identify(pid), RecordChild::Process { home, own }),
            },
            RecordChild::Process { home, own } => match capture(event) {
                Err(error) => Step::Done(Err(error)),
                Ok(process) => Step::Ask(
                    Action::Identify(own),
                    RecordChild::Owner { home, process },
                ),
            },
            RecordChild::Owner { home, process } => match capture(event) {
                Err(error) => Step::Done(Err(error)),
                Ok(owner) => Step::Ask(
                    Action::EncodeChild(Record { version: RECORD_VERSION, process, owner }),
                    RecordChild::Encoded { home },
                ),
            },
            RecordChild::Encoded { home } => match event {
                Event::Bytes(bytes) => Step::Ask(
                    Action::Write(Place::InHome(home, HomeFile::Child), bytes),
                    RecordChild::Written,
                ),
                _ => Step::Done(Err("无法记录进程".to_owned())),
            },
            RecordChild::Written => Step::Done(expect_done(event)),
        }
    }
}

/// What is known of the process of a home: nothing, or what is recorded, or why that cannot be
/// told.
#[derive(Debug)]
pub enum Recorded {
    Nothing,
    Record(ChildRecord),
    Error(String),
}

/// What `Recorded` says.
#[verifier::ext_equal]
pub enum RecordedView {
    Nothing,
    Record(ChildRecordView),
    Error(Seq<char>),
}

impl View for Recorded {
    type V = RecordedView;

    open spec fn view(&self) -> RecordedView {
        match self {
            Recorded::Nothing => RecordedView::Nothing,
            Recorded::Record(inner) => RecordedView::Record(inner@),
            Recorded::Error(inner) => RecordedView::Error(inner@),
        }
    }
}

/// What a home says of the process that works there.
pub open spec fn child_reply(event: EventView) -> RecordedView {
    match event {
        EventView::Child(record) => RecordedView::Record(record),
        EventView::Missing { path: _, error: _ } => RecordedView::Nothing,
        EventView::Damaged(_) => RecordedView::Error(
            "遗留进程记录损坏，请检查应用数据目录后重试"@,
        ),
        other => RecordedView::Error("无法读取遗留进程状态："@ + failure_text(other)),
    }
}

/// What a home says of the process that works there.
pub fn read_child(event: Event) -> (r: Recorded)
    ensures
        r@ == child_reply(event@),
{
    match event {
        Event::Child(record) => Recorded::Record(record),
        Event::Missing { path: _, error: _ } => Recorded::Nothing,
        Event::Damaged(_) => Recorded::Error(
            "遗留进程记录损坏，请检查应用数据目录后重试".to_owned(),
        ),
        other => Recorded::Error(join2("无法读取遗留进程状态：", failure(other).as_str())),
    }
}

/// Finding out whether the process of a home still runs.
#[derive(Debug)]
pub enum ChildRunning {
    Path(Home),
    Record,
    Legacy,
    Verified(Identity),
}

/// What `ChildRunning` says.
#[verifier::ext_equal]
pub enum ChildRunningView {
    Path(HomeView),
    Record,
    Legacy,
    Verified(IdentityView),
}

impl View for ChildRunning {
    type V = ChildRunningView;

    open spec fn view(&self) -> ChildRunningView {
        match self {
            ChildRunning::Path(inner) => ChildRunningView::Path(inner@),
            ChildRunning::Record => ChildRunningView::Record,
            ChildRunning::Legacy => ChildRunningView::Legacy,
            ChildRunning::Verified(inner) => ChildRunningView::Verified(inner@),
        }
    }
}

/// Finds out whether the process of a home still runs.
pub open spec fn checking_child(home: HomeView) -> StepView<ActionView, ChildRunningView, bool> {
    StepView::Ask(
        ActionView::CheckPath(PlaceView::InHome(home, HomeFile::Child)),
        ChildRunningView::Path(home),
    )
}

/// Finds out whether the process of a home still runs.
pub fn child_is_running(home: Home) -> (r: Step<Action, ChildRunning, bool>)
    ensures
        r@ == checking_child(home@),
{
    Step::Ask(
        Action::CheckPath(Place::InHome(home.clone(), HomeFile::Child)),
        ChildRunning::Path(home),
    )
}

/// Goes on with the answer to what was asked.
pub open spec fn child_running_next(
    state: ChildRunningView,
    event: EventView,
) -> StepView<ActionView, ChildRunningView, bool> {
    match state {
        ChildRunningView::Path(home) => match done_reply(event) {
            Err(error) => StepView::Done(Err(error)),
            Ok(_) => StepView::Ask(ActionView::ReadChild(home), ChildRunningView::Record),
        },
        ChildRunningView::Record => match child_reply(event) {
            RecordedView::Error(error) => StepView::Done(Err(error)),
            RecordedView::Nothing => StepView::Done(Ok(false)),
            RecordedView::Record(ChildRecordView::Legacy(pid)) => StepView::Ask(
                ActionView::IsRunning(pid),
                ChildRunningView::Legacy,
            ),
            RecordedView::Record(ChildRecordView::Verified(record)) => if record.version
                == RECORD_VERSION {
                StepView::Ask(
                    ActionView::Observe(record.process.pid),
                    ChildRunningView::Verified(record.process),
                )
            } else {
                StepView::Done(Err("子进程记录版本不受支持"@))
            },
        },
        ChildRunningView::Legacy => StepView::Done(legacy_reply(event)),
        ChildRunningView::Verified(identity) => StepView::Done(running_reply(event, identity)),
    }
}

impl ChildRunning {
    /// Goes on with the answer to what was asked.
    pub fn resume(self, event: Event) -> (r: Step<Action, ChildRunning, bool>)
        ensures
            r@ == child_running_next(self@, event@),
    {
        match self {
            ChildRunning::Path(home) => match expect_done(event) {
                Err(error) => Step::Done(Err(error)),
                Ok(_) => Step::Ask(Action::ReadChild(home), ChildRunning::Record),
            },
            ChildRunning::Record => match read_child(event) {
                Recorded::Error(error) => Step::Done(Err(error)),
                Recorded::Nothing => Step::Done(Ok(false)),
                Recorded::Record(ChildRecord::Legacy(pid)) => Step::Ask(
                    Action::IsRunning(pid),
                    ChildRunning::Legacy,
                ),
                Recorded::Record(ChildRecord::Verified(record)) => if record.version
                    == RECORD_VERSION {
                    Step::Ask(
                        Action::Observe(record.process.pid),
                        ChildRunning::Verified(record.process),
                    )
                } else {
                    Step::Done(Err("子进程记录版本不受支持".to_owned()))
                },
            },
            ChildRunning::Legacy => Step::Done(legacy_running(event)),
            ChildRunning::Verified(identity) => Step::Done(running(event, &identity)),
        }
    }
}

/// Making sure that no process works in a home.
#[derive(Debug)]
pub enum EnsureIdle {
    Path(Home),
    Child(ChildRunning),
}

/// What `EnsureIdle` says.
#[verifier::ext_equal]
pub enum EnsureIdleView {
    Path(HomeView),
    Child(ChildRunningView),
}

impl View for EnsureIdle {
    type V = EnsureIdleView;

    open spec fn view(&self) -> EnsureIdleView {
        match self {
            EnsureIdle::Path(inner) => EnsureIdleView::Path(inner@),
            EnsureIdle::Child(inner) => EnsureIdleView::Child(inner@),
        }
    }
}

/// Refuses to go on while a process works in a home.
pub open spec fn ensuring_idle(home: HomeView) -> StepView<ActionView, EnsureIdleView, ()> {
    StepView::Ask(ActionView::CheckPath(PlaceView::HomeDir(home)), EnsureIdleView::Path(home))
}

/// Refuses to go on while a process works in a home.
pub fn ensure_idle(home: Home) -> (r: Step<Action, EnsureIdle, ()>)
    ensures
        r@ == ensuring_idle(home@),
{
    Step::Ask(Action::CheckPath(Place::HomeDir(home.clone())), EnsureIdle::Path(home))
}

/// Goes on while it is not known whether a process works in the home.
pub open spec fn idle_child(
    step: StepView<ActionView, ChildRunningView, bool>,
) -> StepView<ActionView, EnsureIdleView, ()> {
    match step {
        StepView::Ask(action, child) => StepView::Ask(action, EnsureIdleView::Child(child)),
        StepView::Done(Err(error)) => StepView::Done(Err(error)),
        StepView::Done(Ok(true)) => StepView::Done(
            Err("遗留查询进程仍在运行，请先重试恢复"@),
        ),
        StepView::Done(Ok(false)) => StepView::Done(Ok(())),
    }
}

/// Goes on while it is not known whether a process works in the home.
pub fn idle_after_child(step: Step<Action, ChildRunning, bool>) -> (r: Step<Action, EnsureIdle, ()>)
    ensures
        r@ == idle_child(step@),
{
    match step {
        Step::Ask(action, child) => Step::Ask(action, EnsureIdle::Child(child)),
        Step::Done(Err(error)) => Step::Done(Err(error)),
        Step::Done(Ok(true)) => Step::Done(
            Err("遗留查询进程仍在运行，请先重试恢复".to_owned()),
        ),
        Step::Done(Ok(false)) => Step::Done(Ok(())),
    }
}

/// Goes on with the answer to what was asked.
pub open spec fn ensure_idle_next(
    state: EnsureIdleView,
    event: EventView,
) -> StepView<ActionView, EnsureIdleView, ()> {
    match state {
        EnsureIdleView::Path(home) => match done_reply(event) {
            Err(error) => StepView::Done(Err(error)),
            Ok(_) => idle_child(checking_child(home)),
        },
        EnsureIdleView::Child(child) => idle_child(child_running_next(child, event)),
    }
}

impl EnsureIdle {
    /// Goes on with the answer to what was asked.
    pub fn resume(self, event: Event) -> (r: Step<Action, EnsureIdle, ()>)
        ensures
            r@ == ensure_idle_next(self@, event@),
    {
        match self {
            EnsureIdle::Path(home) => match expect_done(event) {
                Err(error) => Step::Done(Err(error)),
                Ok(_) => idle_after_child(child_is_running(home)),
            },
            EnsureIdle::Child(child) => idle_after_child(ChildRunning::resume(child, event)),
        }
    }
}

/// Ending the process that an earlier run left in a home.
#[derive(Debug)]
pub enum StopStale {
    Path { home: Home, own: u32 },
    Record { own: u32 },
    Legacy { pid: u32 },
    Stop(Stop),
}

/// What `StopStale` says.
#[verifier::ext_equal]
pub enum StopStaleView {
    Path { home: HomeView, own: u32 },
    Record { own: u32 },
    Legacy { pid: u32 },
    Stop(StopView),
}

impl View for StopStale {
    type V = StopStaleView;

    open spec fn view(&self) -> StopStaleView {
        match self {
            StopStale::Path { home, own } => StopStaleView::Path {
                home: home@,
                own: *own,
            },
            StopStale::Record { own } => StopStaleView::Record {
                own: *own,
            },
            StopStale::Legacy { pid } => StopStaleView::Legacy {
                pid: *pid,
            },
            StopStale::Stop(inner) => StopStaleView::Stop(inner@),
        }
    }
}

/// Ends the process that an earlier run left in a home; `own` is the number of the process that
/// asks.
///
/// An old record has no more than the number of the process: such a process is left alone, and
/// is refused as long as it runs.
pub open spec fn stopping_stale(
    home: HomeView,
    own: u32,
) -> StepView<ActionView, StopStaleView, ()> {
    StepView::Ask(
        ActionView::CheckPath(PlaceView::InHome(home, HomeFile::Child)),
        StopStaleView::Path { home, own },
    )
}

/// Ends the process that an earlier run left in a home; `own` is the number of the process that
/// asks.
///
/// An old record has no more than the number of the process: such a process is left alone, and
/// is refused as long as it runs.
pub fn stop_stale_child(home: Home, own: u32) -> (r: Step<Action, StopStale, ()>)
    ensures
        r@ == stopping_stale(home@, own),
{
    Step::Ask(
        Action::CheckPath(Place::InHome(home.clone(), HomeFile::Child)),
        StopStale::Path { home, own },
    )
}

/// Goes on with the process being ended.
pub open spec fn stale_stopped(
    step: StepView<ActionView, StopView, ()>,
) -> StepView<ActionView, StopStaleView, ()> {
    match step {
        StepView::Ask(action, stop) => StepView::Ask(action, StopStaleView::Stop(stop)),
        StepView::Done(result) => StepView::Done(result),
    }
}

/// Goes on with the process being ended.
pub fn stale_after_stop(step: Step<Action, Stop, ()>) -> (r: Step<Action, StopStale, ()>)
    ensures
        r@ == stale_stopped(step@),
{
    match step {
        Step::Ask(action, stop) => Step::Ask(action, StopStale::Stop(stop)),
        Step::Done(result) => Step::Done(result),
    }
}

/// Goes on with the answer to what was asked.
pub open spec fn stop_stale_next(
    state: StopStaleView,
    event: EventView,
) -> StepView<ActionView, StopStaleView, ()> {
    match state {
        StopStaleView::Path { home, own } => match done_reply(event) {
            Err(error) => StepView::Done(Err(error)),
            Ok(_) => StepView::Ask(ActionView::ReadChild(home), StopStaleView::Record { own }),
        },
        StopStaleView::Record { own } => match child_reply(event) {
            RecordedView::Error(error) => StepView::Done(Err(error)),
            RecordedView::Nothing => StepView::Done(Ok(())),
            RecordedView::Record(ChildRecordView::Verified(record)) => stale_stopped(
                stopping(record, own),
            ),
            RecordedView::Record(ChildRecordView::Legacy(pid)) => StepView::Ask(
                ActionView::IsRunning(pid),
                StopStaleView::Legacy { pid },
            ),
        },
        StopStaleView::Legacy { pid } => match legacy_reply(event) {
            Err(error) => StepView::Done(Err(error)),
            Ok(true) => StepView::Done(
                Err(
                    "旧版记录只有 PID "@ + decimal(
                        (pid as u64) as nat,
                    ) + "，无法安全核验进程身份。请关闭旧登录流程后重试恢复；新版已增加自动回收。"@,
                ),
            ),
            Ok(false) => StepView::Done(Ok(())),
        },
        StopStaleView::Stop(stop) => stale_stopped(stop_next(stop, event)),
    }
}

impl StopStale {
    /// Goes on with the answer to what was asked.
    pub fn resume(self, event: Event) -> (r: Step<Action, StopStale, ()>)
        ensures
            r@ == stop_stale_next(self@, event@),
    {
        match self {
            StopStale::Path { home, own } => match expect_done(event) {
                Err(error) => Step::Done(Err(error)),
                Ok(_) => Step::Ask(Action::ReadChild(home), StopStale::Record { own }),
            },
            StopStale::Record { own } => match read_child(event) {
                Recorded::Error(error) => Step::Done(Err(error)),
                Recorded::Nothing => Step::Done(Ok(())),
                Recorded::Record(ChildRecord::Verified(record)) => stale_after_stop(
                    stop(record, own),
                ),
                Recorded::Record(ChildRecord::Legacy(pid)) => Step::Ask(
                    Action::IsRunning(pid),
                    StopStale::Legacy { pid },
                ),
            },
            StopStale::Legacy { pid } => match legacy_running(event) {
                Err(error) => Step::Done(Err(error)),
                Ok(true) => Step::Done(
                    Err(
                        join3(
                            "旧版记录只有 PID ",
                            number_text(pid as u64).as_str(),
                            "，无法安全核验进程身份。请关闭旧登录流程后重试恢复；新版已增加自动回收。",
                        ),
                    ),
                ),
                Ok(false) => Step::Done(Ok(())),
            },
            StopStale::Stop(stop) => stale_after_stop(Stop::resume(stop, event)),
        }
    }
}

/// What became of a recorded update: what there is to report, and what went wrong.
#[derive(Debug)]
pub struct Recovered {
    pub report: Report,
    pub error: Option<String>,
}

/// What `Recovered` says.
#[verifier::ext_equal]
pub struct RecoveredView {
    pub report: ReportView,
    pub error: Option<Seq<char>>,
}

impl View for Recovered {
    type V = RecoveredView;

    open spec fn view(&self) -> RecoveredView {
        RecoveredView {
            report: self.report@,
            error: held(self.error),
        }
    }
}

/// Recovering from an update that was recorded and not finished.
#[derive(Debug)]
pub enum Recover {
    Path { home: String, report: Report },
    Present { home: String, report: Report },
    Sealed { home: String, report: Report },
    Opened { home: String, report: Report },
    Decoded { home: String, report: Report },
    AuthPath { transaction: Transaction, report: Report },
    Current { transaction: Transaction, report: Report },
    Import { report: Report, import: Import },
    Confirmed { before: Vec<u8>, current: Option<Vec<u8>>, report: Report },
    Written { before: Vec<u8>, report: Report },
    Verified { before: Vec<u8>, report: Report },
    Finish { report: Report, remove: CheckedRemove },
}

/// What `Recover` says.
#[verifier::ext_equal]
pub enum RecoverView {
    Path { home: Seq<char>, report: ReportView },
    Present { home: Seq<char>, report: ReportView },
    Sealed { home: Seq<char>, report: ReportView },
    Opened { home: Seq<char>, report: ReportView },
    Decoded { home: Seq<char>, report: ReportView },
    AuthPath { transaction: TransactionView, report: ReportView },
    Current { transaction: TransactionView, report: ReportView },
    Import { report: ReportView, import: ImportView },
    Confirmed { before: Seq<u8>, current: Option<Seq<u8>>, report: ReportView },
    Written { before: Seq<u8>, report: ReportView },
    Verified { before: Seq<u8>, report: ReportView },
    Finish { report: ReportView, remove: CheckedRemoveView },
}

impl View for Recover {
    type V = RecoverView;

    open spec fn view(&self) -> RecoverView {
        match self {
            Recover::Path { home, report } => RecoverView::Path {
                home: home@,
                report: report@,
            },
            Recover::Present { home, report } => RecoverView::Present {
                home: home@,
                report: report@,
            },
            Recover::Sealed { home, report } => RecoverView::Sealed {
                home: home@,
                report: report@,
            },
            Recover::Opened { home, report } => RecoverView::Opened {
                home: home@,
                report: report@,
            },
            Recover::Decoded { home, report } => RecoverView::Decoded {
                home: home@,
                report: report@,
            },
            Recover::AuthPath { transaction, report } => RecoverView::AuthPath {
                transaction: transaction@,
                report: report@,
            },
            Recover::Current { transaction, report } => RecoverView::Current {
                transaction: transaction@,
                report: report@,
            },
            Recover::Import { report, import } => RecoverView::Import {
                report: report@,
                import: import@,
            },
            Recover::Confirmed { before, current, report } => RecoverView::Confirmed {
                before: before@,
                current: held(*current),
                report: report@,
            },
            Recover::Written { before, report } => RecoverView::Written {
                before: before@,
                report: report@,
            },
            Recover::Verified { before, report } => RecoverView::Verified {
                before: before@,
                report: report@,
            },
            Recover::Finish { report, remove } => RecoverView::Finish {
                report: report@,
                remove: remove@,
            },
        }
    }
}

/// Recovers from an update that was recorded and not finished; `home` is the path of the active
/// home.
pub open spec fn recovering(
    home: Seq<char>,
    report: ReportView,
) -> StepView<ActionView, RecoverView, RecoveredView> {
    StepView::Ask(
        ActionView::CheckPath(PlaceView::Journal),
        RecoverView::Path { home: home, report },
    )
}

/// Recovers from an update that was recorded and not finished; `home` is the path of the active
/// home.
pub fn recover_transaction(home: &str, report: Report) -> (r: Step<Action, Recover, Recovered>)
    ensures
        r@ == recovering(home@, report@),
{
    Step::Ask(
        Action::CheckPath(Place::Journal),
        Recover::Path { home: home.to_owned(), report },
    )
}

/// Ends a recovery that cannot go on; the record stays.
pub open spec fn recover_failed(
    report: ReportView,
    error: Seq<char>,
) -> StepView<ActionView, RecoverView, RecoveredView> {
    StepView::Done(Ok(RecoveredView { report, error: Some(error) }))
}

/// Ends a recovery that cannot go on; the record stays.
pub fn recovery_failed(report: Report, error: String) -> (r: Step<Action, Recover, Recovered>)
    ensures
        r@ == recover_failed(report@, error@),
{
    Step::Done(Ok(Recovered { report, error: Some(error) }))
}

/// Goes on with the record being removed.
pub open spec fn recover_finish(
    report: ReportView,
    step: StepView<ActionView, CheckedRemoveView, ()>,
) -> StepView<ActionView, RecoverView, RecoveredView> {
    match step {
        StepView::Ask(action, remove) => StepView::Ask(
            action,
            RecoverView::Finish { report, remove },
        ),
        StepView::Done(Err(error)) => recover_failed(report, error),
        StepView::Done(Ok(_)) => StepView::Done(Ok(RecoveredView { report, error: None })),
    }
}

/// Goes on with the record being removed.
pub fn recover_after_finish(
    report: Report,
    step: Step<Action, CheckedRemove, ()>,
) -> (r: Step<Action, Recover, Recovered>)
    ensures
        r@ == recover_finish(report@, step@),
{
    match step {
        Step::Ask(action, remove) => Step::Ask(action, Recover::Finish { report, remove }),
        Step::Done(Err(error)) => recovery_failed(report, error),
        Step::Done(Ok(_)) => Step::Done(Ok(Recovered { report, error: None })),
    }
}

/// Notes how an update was settled and removes its record.
pub open spec fn recover_settled(
    report: ReportView,
    message: Seq<char>,
) -> StepView<ActionView, RecoverView, RecoveredView> {
    recover_finish(noted(report, message), finishing())
}

/// Notes how an update was settled and removes its record.
pub fn settle(report: Report, message: &str) -> (r: Step<Action, Recover, Recovered>)
    ensures
        r@ == recover_settled(report@, message@),
{
    recover_after_finish(Report::note(report, message.to_owned()), finish())
}

/// A report that suggests a restart.
pub open spec fn suggesting_restart(report: ReportView) -> ReportView {
    ReportView {
        messages: report.messages,
        needs_attention: report.needs_attention,
        restart_suggested: true,
    }
}

/// A report that suggests a restart.
pub fn with_restart(report: Report) -> (r: Report)
    ensures
        r@ == suggesting_restart(report@),
{
    Report {
        messages: report.messages,
        needs_attention: report.needs_attention,
        restart_suggested: true,
    }
}

/// A report that asks for attention.
pub open spec fn asking_attention(report: ReportView) -> ReportView {
    ReportView {
        messages: report.messages,
        needs_attention: true,
        restart_suggested: report.restart_suggested,
    }
}

/// A report that asks for attention.
pub fn with_attention(report: Report) -> (r: Report)
    ensures
        r@ == asking_attention(report@),
{
    Report {
        messages: report.messages,
        needs_attention: true,
        restart_suggested: report.restart_suggested,
    }
}

/// Goes on with the credentials in use being imported.
pub open spec fn recover_imported(
    report: ReportView,
    step: StepView<ActionView, ImportView, SavedAccountView>,
) -> StepView<ActionView, RecoverView, RecoveredView> {
    match step {
        StepView::Ask(action, import) => StepView::Ask(
            action,
            RecoverView::Import { report, import },
        ),
        StepView::Done(Err(error)) => recover_failed(report, error),
        StepView::Done(Ok(_)) => recover_settled(
            suggesting_restart(report),
            "上次认证更新已生效，已确认并结束恢复。"@,
        ),
    }
}

/// Goes on with the credentials in use being imported.
pub fn recover_after_import(
    report: Report,
    step: Step<Action, Import, SavedAccount>,
) -> (r: Step<Action, Recover, Recovered>)
    ensures
        r@ == recover_imported(report@, step@),
{
    match step {
        Step::Ask(action, import) => Step::Ask(action, Recover::Import { report, import }),
        Step::Done(Err(error)) => recovery_failed(report, error),
        Step::Done(Ok(_)) => settle(
            with_restart(report),
            "上次认证更新已生效，已确认并结束恢复。",
        ),
    }
}

/// Whether the credentials in use are those of the update, or others of the same account.
pub open spec fn carries_target(transaction: TransactionView, current: Option<Seq<u8>>) -> bool {
    match current {
        None => false,
        Some(auth) => if (hex(sha256(auth)) == transaction.target_hash) {
            true
        } else {
            match usable_identity(auth) {
                Ok(found) => (found == transaction.target_id),
                Err(_) => false,
            }
        },
    }
}

/// Whether the credentials in use are those of the update, or others of the same account.
pub fn is_update_target(transaction: &Transaction, current: &Option<Vec<u8>>) -> (r: bool)
    ensures
        r == carries_target(transaction@, held(*current)),
{
    match current {
        None => false,
        Some(auth) => if same(
            fingerprint(auth.as_slice()).as_str(),
            transaction.target_hash.as_str(),
        ) {
            true
        } else {
            match usable_auth_identity(auth.as_slice()) {
                Ok(found) => same(found.as_str(), transaction.target_id.as_str()),
                Err(_) => false,
            }
        },
    }
}

/// Whether there are credentials and they can be used.
pub open spec fn can_be_used(auth: Option<Seq<u8>>) -> bool {
    match auth {
        None => false,
        Some(auth) => match usable_identity(auth) {
            Ok(_) => true,
            Err(_) => false,
        },
    }
}

/// Whether there are credentials and they can be used.
pub fn is_usable(auth: &Option<Vec<u8>>) -> (r: bool)
    ensures
        r == can_be_used(held(*auth)),
{
    match auth {
        None => false,
        Some(auth) => match usable_auth_identity(auth.as_slice()) {
            Ok(_) => true,
            Err(_) => false,
        },
    }
}

/// Credentials, if there are any and they can be used.
pub open spec fn usable_part(auth: Option<Seq<u8>>) -> Option<Seq<u8>> {
    if can_be_used(auth) {
        auth
    } else {
        None
    }
}

/// Credentials, if there are any and they can be used.
pub fn usable_only(auth: Option<Vec<u8>>) -> (r: Option<Vec<u8>>)
    ensures
        held(r) == usable_part(held(auth)),
{
    if is_usable(&auth) {
        auth
    } else {
        None
    }
}

/// Decides on a recorded update once the credentials in use are known.
pub open spec fn recover_current(
    transaction: TransactionView,
    current: Option<Seq<u8>>,
    report: ReportView,
) -> StepView<ActionView, RecoverView, RecoveredView> {
    if current == transaction.before {
        recover_settled(report, "上次认证更新未提交或已回滚，已保留原登录。"@)
    } else if carries_target(transaction, current) {
        recover_imported(report, importing(HomeView::Active, None, None))
    } else if can_be_used(current) {
        recover_settled(
            report,
            "检测到其他有效登录，已保留外部登录变更并结束旧恢复记录。"@,
        )
    } else {
        match usable_part(transaction.before) {
            Some(before) => StepView::Ask(
                ActionView::Read(PlaceView::InHome(HomeView::Active, HomeFile::Auth)),
                RecoverView::Confirmed { before, current, report },
            ),
            None => recover_settled(
                asking_attention(report),
                "上次操作没有可用的原登录，请从已保存账号切换恢复，或重新登录后导入。"@,
            ),
        }
    }
}

/// Decides on a recorded update once the credentials in use are known.
pub fn decide_recovery(
    transaction: Transaction,
    current: Option<Vec<u8>>,
    report: Report,
) -> (r: Step<Action, Recover, Recovered>)
    ensures
        r@ == recover_current(transaction@, held(current), report@),
{
    if same_optional_bytes(&current, &transaction.before) {
        settle(report, "上次认证更新未提交或已回滚，已保留原登录。")
    } else if is_update_target(&transaction, &current) {
        recover_after_import(report, import_current(Home::Active, None, None))
    } else if is_usable(&current) {
        settle(
            report,
            "检测到其他有效登录，已保留外部登录变更并结束旧恢复记录。",
        )
    } else {
        match usable_only(transaction.before) {
            Some(before) => Step::Ask(
                Action::Read(Place::InHome(Home::Active, HomeFile::Auth)),
                Recover::Confirmed { before, current, report },
            ),
            None => settle(
                with_attention(report),
                "上次操作没有可用的原登录，请从已保存账号切换恢复，或重新登录后导入。",
            ),
        }
    }
}

/// Goes on with the answer to what was asked.
pub open spec fn recover_next(
    state: RecoverView,
    event: EventView,
) -> StepView<ActionView, RecoverView, RecoveredView> {
    match state {
        RecoverView::Path { home, report } => match done_reply(event) {
            Err(error) => recover_failed(report, error),
            Ok(_) => StepView::Ask(
                ActionView::Exists(PlaceView::Journal),
                RecoverView::Present { home, report },
            ),
        },
        RecoverView::Present { home, report } => if present(event) {
            StepView::Ask(
                ActionView::Read(PlaceView::Journal),
                RecoverView::Sealed { home, report },
            )
        } else {
            StepView::Done(Ok(RecoveredView { report, error: None }))
        },
        RecoverView::Sealed { home, report } => match event {
            EventView::Bytes(sealed) => StepView::Ask(
                ActionView::Unseal(sealed),
                RecoverView::Opened { home, report },
            ),
            other => recover_failed(
                report,
                "无法读取认证恢复记录："@ + failure_text(other),
            ),
        },
        RecoverView::Opened { home, report } => match event {
            EventView::Bytes(bytes) => StepView::Ask(
                ActionView::Decode(bytes),
                RecoverView::Decoded { home, report },
            ),
            other => recover_failed(report, failure_text(other)),
        },
        RecoverView::Decoded { home, report } => match event {
            EventView::Journal(transaction) => if transaction.version != JOURNAL_VERSION
                || transaction.codex_home != home {
                recover_failed(
                    report,
                    "恢复记录版本或 Codex Home 不匹配，请恢复原 CODEX_HOME 设置后重试"@,
                )
            } else {
                StepView::Ask(
                    ActionView::CheckPath(PlaceView::InHome(HomeView::Active, HomeFile::Auth)),
                    RecoverView::AuthPath { transaction, report },
                )
            },
            _ => recover_failed(
                report,
                "认证恢复记录损坏，请保留应用数据目录并检查备份"@,
            ),
        },
        RecoverView::AuthPath { transaction, report } => match done_reply(event) {
            Err(error) => recover_failed(report, error),
            Ok(_) => StepView::Ask(
                ActionView::Read(PlaceView::InHome(HomeView::Active, HomeFile::Auth)),
                RecoverView::Current { transaction, report },
            ),
        },
        RecoverView::Current { transaction, report } => match auth_reply(event) {
            Err(error) => recover_failed(report, error),
            Ok(current) => recover_current(transaction, current, report),
        },
        RecoverView::Import { report, import } => recover_imported(
            report,
            import_next(import, event),
        ),
        RecoverView::Confirmed { before, current, report } => match auth_reply(event) {
            Err(error) => recover_failed(report, error),
            Ok(found) => if found == current {
                StepView::Ask(
                    ActionView::ReplaceActive(before),
                    RecoverView::Written { before, report },
                )
            } else {
                recover_failed(report, "恢复期间登录发生变化，请重试恢复"@)
            },
        },
        RecoverView::Written { before, report } => match done_reply(event) {
            Err(error) => recover_failed(report, error),
            Ok(_) => StepView::Ask(
                ActionView::Read(PlaceView::InHome(HomeView::Active, HomeFile::Auth)),
                RecoverView::Verified { before, report },
            ),
        },
        RecoverView::Verified { before, report } => match auth_reply(event) {
            Err(error) => recover_failed(report, error),
            Ok(found) => if is_target(found, before) {
                recover_settled(suggesting_restart(report), "已从加密恢复记录还原上次有效登录。"@)
            } else {
                recover_failed(
                    report,
                    "恢复后认证校验失败，请保留备份并重试"@,
                )
            },
        },
        RecoverView::Finish { report, remove } => recover_finish(
            report,
            checked_remove_next(remove, event),
        ),
    }
}

impl Recover {
    /// Goes on with the answer to what was asked.
    pub fn resume(self, event: Event) -> (r: Step<Action, Recover, Recovered>)
        ensures
            r@ == recover_next(self@, event@),
    {
        match self {
            Recover::Path { home, report } => match expect_done(event) {
                Err(error) => recovery_failed(report, error),
                Ok(_) => Step::Ask(
                    Action::Exists(Place::Journal),
                    Recover::Present { home, report },
                ),
            },
            Recover::Present { home, report } => if is_present(event) {
                Step::Ask(Action::Read(Place::Journal), Recover::Sealed { home, report })
            } else {
                Step::Done(Ok(Recovered { report, error: None }))
            },
            Recover::Sealed { home, report } => match event {
                Event::Bytes(sealed) => Step::Ask(
                    Action::Unseal(sealed),
                    Recover::Opened { home, report },
                ),
                other => recovery_failed(
                    report,
                    join2("无法读取认证恢复记录：", failure(other).as_str()),
                ),
            },
            Recover::Opened { home, report } => match event {
                Event::Bytes(bytes) => Step::Ask(
                    Action::Decode(bytes),
                    Recover::Decoded { home, report },
                ),
                other => recovery_failed(report, failure(other)),
            },
            Recover::Decoded { home, report } => match event {
                Event::Journal(transaction) => if transaction.version != JOURNAL_VERSION || !same(
                    transaction.codex_home.as_str(),
                    home.as_str(),
                ) {
                    recovery_failed(
                        report,
                        "恢复记录版本或 Codex Home 不匹配，请恢复原 CODEX_HOME 设置后重试".to_owned(),
                    )
                } else {
                    Step::Ask(
                        Action::CheckPath(Place::InHome(Home::Active, HomeFile::Auth)),
                        Recover::AuthPath { transaction, report },
                    )
                },
                _ => recovery_failed(
                    report,
                    "认证恢复记录损坏，请保留应用数据目录并检查备份".to_owned(),
                ),
            },
            Recover::AuthPath { transaction, report } => match expect_done(event) {
                Err(error) => recovery_failed(report, error),
                Ok(_) => Step::Ask(
                    Action::Read(Place::InHome(Home::Active, HomeFile::Auth)),
                    Recover::Current { transaction, report },
                ),
            },
            Recover::Current { transaction, report } => match expect_optional_auth(event) {
                Err(error) => recovery_failed(report, error),
                Ok(current) => decide_recovery(transaction, current, report),
            },
            Recover::Import { report, import } => recover_after_import(
                report,
                Import::resume(import, event),
            ),
            Recover::Confirmed { before, current, report } => match expect_optional_auth(event) {
                Err(error) => recovery_failed(report, error),
                Ok(found) => if same_optional_bytes(&found, &current) {
                    Step::Ask(
                        Action::ReplaceActive(copy_bytes(&before)),
                        Recover::Written { before, report },
                    )
                } else {
                    recovery_failed(report, "恢复期间登录发生变化，请重试恢复".to_owned())
                },
            },
            Recover::Written { before, report } => match expect_done(event) {
                Err(error) => recovery_failed(report, error),
                Ok(_) => Step::Ask(
                    Action::Read(Place::InHome(Home::Active, HomeFile::Auth)),
                    Recover::Verified { before, report },
                ),
            },
            Recover::Verified { before, report } => match expect_optional_auth(event) {
                Err(error) => recovery_failed(report, error),
                Ok(found) => if is_exactly(&found, &before) {
                    settle(with_restart(report), "已从加密恢复记录还原上次有效登录。")
                } else {
                    recovery_failed(
                        report,
                        "恢复后认证校验失败，请保留备份并重试".to_owned(),
                    )
                },
            },
            Recover::Finish { report, remove } => recover_after_finish(
                report,
                CheckedRemove::resume(remove, event),
            ),
        }
    }
}

/// The sum of two counts, or the greatest count there is.
pub open spec fn total(count: u64, more: u64) -> u64 {
    if count + more > u64::MAX {
        u64::MAX
    } else {
        (count + more) as u64
    }
}

/// Adds to a count.
pub fn add_up(count: u64, more: u64) -> (r: u64)
    ensures
        r == total(count, more),
{
    if count > u64::MAX - more {
        u64::MAX
    } else {
        count + more
    }
}

/// Clearing a home of what a login or a query left in it.
///
/// Nothing is touched while a process works there or where a path runs over a link. The
/// credentials of a runtime home go back into the vault first.
#[derive(Debug)]
pub enum CleanHome {
    Path { home: Home },
    Child { home: Home, child: ChildRunning },
    AuthPath { home: Home },
    DraftPath { home: Home },
    SwitchPath { home: Home },
    Auth { home: Home },
    Finish { home: Home, finish: Finish },
    AuthRemove { home: Home, remove: CheckedRemove },
    Draft { home: Home, count: u64 },
    DraftRemove { home: Home, count: u64, remove: CheckedRemove },
    Switch { home: Home, count: u64 },
    SwitchRemove { home: Home, count: u64, remove: CheckedRemove },
    Clear { count: u64, remove: CheckedRemove },
}

/// What `CleanHome` says.
#[verifier::ext_equal]
pub enum CleanHomeView {
    Path { home: HomeView },
    Child { home: HomeView, child: ChildRunningView },
    AuthPath { home: HomeView },
    DraftPath { home: HomeView },
    SwitchPath { home: HomeView },
    Auth { home: HomeView },
    Finish { home: HomeView, finish: FinishView },
    AuthRemove { home: HomeView, remove: CheckedRemoveView },
    Draft { home: HomeView, count: u64 },
    DraftRemove { home: HomeView, count: u64, remove: CheckedRemoveView },
    Switch { home: HomeView, count: u64 },
    SwitchRemove { home: HomeView, count: u64, remove: CheckedRemoveView },
    Clear { count: u64, remove: CheckedRemoveView },
}

impl View for CleanHome {
    type V = CleanHomeView;

    open spec fn view(&self) -> CleanHomeView {
        match self {
            CleanHome::Path { home } => CleanHomeView::Path {
                home: home@,
            },
            CleanHome::Child { home, child } => CleanHomeView::Child {
                home: home@,
                child: child@,
            },
            CleanHome::AuthPath { home } => CleanHomeView::AuthPath {
                home: home@,
            },
            CleanHome::DraftPath { home } => CleanHomeView::DraftPath {
                home: home@,
            },
            CleanHome::SwitchPath { home } => CleanHomeView::SwitchPath {
                home: home@,
            },
            CleanHome::Auth { home } => CleanHomeView::Auth {
                home: home@,
            },
            CleanHome::Finish { home, finish } => CleanHomeView::Finish {
                home: home@,
                finish: finish@,
            },
            CleanHome::AuthRemove { home, remove } => CleanHomeView::AuthRemove {
                home: home@,
                remove: remove@,
            },
            CleanHome::Draft { home, count } => CleanHomeView::Draft {
                home: home@,
                count: *count,
            },
            CleanHome::DraftRemove { home, count, remove } => CleanHomeView::DraftRemove {
                home: home@,
                count: *count,
                remove: remove@,
            },
            CleanHome::Switch { home, count } => CleanHomeView::Switch {
                home: home@,
                count: *count,
            },
            CleanHome::SwitchRemove { home, count, remove } => CleanHomeView::SwitchRemove {
                home: home@,
                count: *count,
                remove: remove@,
            },
            CleanHome::Clear { count, remove } => CleanHomeView::Clear {
                count: *count,
                remove: remove@,
            },
        }
    }
}

/// Clears a home of what a login or a query left in it, and counts the files.
pub open spec fn cleaning_home(home: HomeView) -> StepView<ActionView, CleanHomeView, u64> {
    StepView::Ask(ActionView::CheckPath(PlaceView::HomeDir(home)), CleanHomeView::Path { home })
}

/// Clears a home of what a login or a query left in it, and counts the files.
pub fn cleanup_home(home: Home) -> (r: Step<Action, CleanHome, u64>)
    ensures
        r@ == cleaning_home(home@),
{
    Step::Ask(Action::CheckPath(Place::HomeDir(home.clone())), CleanHome::Path { home })
}

/// Goes on while it is not known whether a process works in the home.
pub open spec fn clean_child(
    home: HomeView,
    step: StepView<ActionView, ChildRunningView, bool>,
) -> StepView<ActionView, CleanHomeView, u64> {
    match step {
        StepView::Ask(action, child) => StepView::Ask(action, CleanHomeView::Child { home, child }),
        StepView::Done(Err(error)) => StepView::Done(Err(error)),
        StepView::Done(Ok(true)) => StepView::Done(
            Err(
                "遗留的 Codex 登录/查询进程仍在运行，请结束该进程后点击“重试恢复”"@,
            ),
        ),
        StepView::Done(Ok(false)) => StepView::Ask(
            ActionView::CheckPath(PlaceView::InHome(home, HomeFile::Auth)),
            CleanHomeView::AuthPath { home },
        ),
    }
}

/// Goes on while it is not known whether a process works in the home.
pub fn clean_after_child(
    home: Home,
    step: Step<Action, ChildRunning, bool>,
) -> (r: Step<Action, CleanHome, u64>)
    ensures
        r@ == clean_child(home@, step@),
{
    match step {
        Step::Ask(action, child) => Step::Ask(action, CleanHome::Child { home, child }),
        Step::Done(Err(error)) => Step::Done(Err(error)),
        Step::Done(Ok(true)) => Step::Done(
            Err(
                "遗留的 Codex 登录/查询进程仍在运行，请结束该进程后点击“重试恢复”".to_owned(),
            ),
        ),
        Step::Done(Ok(false)) => Step::Ask(
            Action::CheckPath(Place::InHome(home.clone(), HomeFile::Auth)),
            CleanHome::AuthPath { home },
        ),
    }
}

/// Looks for the draft of a write.
pub open spec fn clean_draft(
    home: HomeView,
    count: u64,
) -> StepView<ActionView, CleanHomeView, u64> {
    StepView::Ask(
        ActionView::Exists(PlaceView::InHome(home, HomeFile::AuthDraft)),
        CleanHomeView::Draft { home, count },
    )
}

/// Looks for the draft of a write.
pub fn clean_draft_next(home: Home, count: u64) -> (r: Step<Action, CleanHome, u64>)
    ensures
        r@ == clean_draft(home@, count),
{
    Step::Ask(
        Action::Exists(Place::InHome(home.clone(), HomeFile::AuthDraft)),
        CleanHome::Draft { home, count },
    )
}

/// Looks for the draft of a switch.
pub open spec fn clean_switch(
    home: HomeView,
    count: u64,
) -> StepView<ActionView, CleanHomeView, u64> {
    StepView::Ask(
        ActionView::Exists(PlaceView::InHome(home, HomeFile::SwitchDraft)),
        CleanHomeView::Switch { home, count },
    )
}

/// Looks for the draft of a switch.
pub fn clean_switch_next(home: Home, count: u64) -> (r: Step<Action, CleanHome, u64>)
    ensures
        r@ == clean_switch(home@, count),
{
    Step::Ask(
        Action::Exists(Place::InHome(home.clone(), HomeFile::SwitchDraft)),
        CleanHome::Switch { home, count },
    )
}

/// Goes on with the record of the process being removed.
pub open spec fn clean_record(
    count: u64,
    step: StepView<ActionView, CheckedRemoveView, ()>,
) -> StepView<ActionView, CleanHomeView, u64> {
    match step {
        StepView::Ask(action, remove) => StepView::Ask(
            action,
            CleanHomeView::Clear { count, remove },
        ),
        StepView::Done(Err(error)) => StepView::Done(Err(error)),
        StepView::Done(Ok(_)) => StepView::Done(Ok(count)),
    }
}

/// Goes on with the record of the process being removed.
pub fn clean_after_record(
    count: u64,
    step: Step<Action, CheckedRemove, ()>,
) -> (r: Step<Action, CleanHome, u64>)
    ensures
        r@ == clean_record(count, step@),
{
    match step {
        Step::Ask(action, remove) => Step::Ask(action, CleanHome::Clear { count, remove }),
        Step::Done(Err(error)) => Step::Done(Err(error)),
        Step::Done(Ok(_)) => Step::Done(Ok(count)),
    }
}

/// Goes on with the credentials of a runtime home being taken back into the vault.
pub open spec fn clean_finished(
    home: HomeView,
    step: StepView<ActionView, FinishView, ()>,
) -> StepView<ActionView, CleanHomeView, u64> {
    match step {
        StepView::Ask(action, finish) => StepView::Ask(
            action,
            CleanHomeView::Finish { home, finish },
        ),
        StepView::Done(Err(error)) => StepView::Done(Err(error)),
        StepView::Done(Ok(_)) => clean_draft(home, 1),
    }
}

/// Goes on with the credentials of a runtime home being taken back into the vault.
pub fn clean_after_finish(
    home: Home,
    step: Step<Action, Finish, ()>,
) -> (r: Step<Action, CleanHome, u64>)
    ensures
        r@ == clean_finished(home@, step@),
{
    match step {
        Step::Ask(action, finish) => Step::Ask(action, CleanHome::Finish { home, finish }),
        Step::Done(Err(error)) => Step::Done(Err(error)),
        Step::Done(Ok(_)) => clean_draft_next(home, 1),
    }
}

/// Goes on with the credentials of a login home being removed.
pub open spec fn clean_auth_removed(
    home: HomeView,
    step: StepView<ActionView, CheckedRemoveView, ()>,
) -> StepView<ActionView, CleanHomeView, u64> {
    match step {
        StepView::Ask(action, remove) => StepView::Ask(
            action,
            CleanHomeView::AuthRemove { home, remove },
        ),
        StepView::Done(Err(error)) => StepView::Done(Err(error)),
        StepView::Done(Ok(_)) => clean_draft(home, 1),
    }
}

/// Goes on with the credentials of a login home being removed.
pub fn clean_after_auth(
    home: Home,
    step: Step<Action, CheckedRemove, ()>,
) -> (r: Step<Action, CleanHome, u64>)
    ensures
        r@ == clean_auth_removed(home@, step@),
{
    match step {
        Step::Ask(action, remove) => Step::Ask(action, CleanHome::AuthRemove { home, remove }),
        Step::Done(Err(error)) => Step::Done(Err(error)),
        Step::Done(Ok(_)) => clean_draft_next(home, 1),
    }
}

/// Goes on with the draft of a write being removed.
pub open spec fn clean_draft_removed(
    home: HomeView,
    count: u64,
    step: StepView<ActionView, CheckedRemoveView, ()>,
) -> StepView<ActionView, CleanHomeView, u64> {
    match step {
        StepView::Ask(action, remove) => StepView::Ask(
            action,
            CleanHomeView::DraftRemove { home, count, remove },
        ),
        StepView::Done(Err(error)) => StepView::Done(Err(error)),
        StepView::Done(Ok(_)) => clean_switch(home, total(count, 1)),
    }
}

/// Goes on with the draft of a write being removed.
pub fn clean_after_draft(
    home: Home,
    count: u64,
    step: Step<Action, CheckedRemove, ()>,
) -> (r: Step<Action, CleanHome, u64>)
    ensures
        r@ == clean_draft_removed(home@, count, step@),
{
    match step {
        Step::Ask(action, remove) => Step::Ask(
            action,
            CleanHome::DraftRemove { home, count, remove },
        ),
        Step::Done(Err(error)) => Step::Done(Err(error)),
        Step::Done(Ok(_)) => clean_switch_next(home, add_up(count, 1)),
    }
}

/// Goes on with the draft of a switch being removed.
pub open spec fn clean_switch_removed(
    home: HomeView,
    count: u64,
    step: StepView<ActionView, CheckedRemoveView, ()>,
) -> StepView<ActionView, CleanHomeView, u64> {
    match step {
        StepView::Ask(action, remove) => StepView::Ask(
            action,
            CleanHomeView::SwitchRemove { home, count, remove },
        ),
        StepView::Done(Err(error)) => StepView::Done(Err(error)),
        StepView::Done(Ok(_)) => clean_record(total(count, 1), clearing_child(home)),
    }
}

/// Goes on with the draft of a switch being removed.
pub fn clean_after_switch(
    home: Home,
    count: u64,
    step: Step<Action, CheckedRemove, ()>,
) -> (r: Step<Action, CleanHome, u64>)
    ensures
        r@ == clean_switch_removed(home@, count, step@),
{
    match step {
        Step::Ask(action, remove) => Step::Ask(
            action,
            CleanHome::SwitchRemove { home, count, remove },
        ),
        Step::Done(Err(error)) => Step::Done(Err(error)),
        Step::Done(Ok(_)) => clean_after_record(add_up(count, 1), clear_child(home)),
    }
}

/// Goes on with the answer to what was asked.
pub open spec fn clean_home_next(
    state: CleanHomeView,
    event: EventView,
) -> StepView<ActionView, CleanHomeView, u64> {
    match state {
        CleanHomeView::Path { home } => match done_reply(event) {
            Err(error) => StepView::Done(Err(error)),
            Ok(_) => clean_child(home, checking_child(home)),
        },
        CleanHomeView::Child { home, child } => clean_child(
            home,
            child_running_next(child, event),
        ),
        CleanHomeView::AuthPath { home } => match done_reply(event) {
            Err(error) => StepView::Done(Err(error)),
            Ok(_) => StepView::Ask(
                ActionView::CheckPath(PlaceView::InHome(home, HomeFile::AuthDraft)),
                CleanHomeView::DraftPath { home },
            ),
        },
        CleanHomeView::DraftPath { home } => match done_reply(event) {
            Err(error) => StepView::Done(Err(error)),
            Ok(_) => StepView::Ask(
                ActionView::CheckPath(PlaceView::InHome(home, HomeFile::SwitchDraft)),
                CleanHomeView::SwitchPath { home },
            ),
        },
        CleanHomeView::SwitchPath { home } => match done_reply(event) {
            Err(error) => StepView::Done(Err(error)),
            Ok(_) => StepView::Ask(
                ActionView::Exists(PlaceView::InHome(home, HomeFile::Auth)),
                CleanHomeView::Auth { home },
            ),
        },
        CleanHomeView::Auth { home } => if present(event) {
            match home {
                HomeView::Runtime(id) => clean_finished(
                    home,
                    finishing_isolated(id),
                ),
                other => clean_auth_removed(
                    home,
                    removing_checked(PlaceView::InHome(other, HomeFile::Auth)),
                ),
            }
        } else {
            clean_draft(home, 0)
        },
        CleanHomeView::Finish { home, finish } => clean_finished(
            home,
            finish_next(finish, event),
        ),
        CleanHomeView::AuthRemove { home, remove } => clean_auth_removed(
            home,
            checked_remove_next(remove, event),
        ),
        CleanHomeView::Draft { home, count } => if present(event) {
            clean_draft_removed(
                home,
                count,
                removing_checked(PlaceView::InHome(home, HomeFile::AuthDraft)),
            )
        } else {
            clean_switch(home, count)
        },
        CleanHomeView::DraftRemove { home, count, remove } => clean_draft_removed(
            home,
            count,
            checked_remove_next(remove, event),
        ),
        CleanHomeView::Switch { home, count } => if present(event) {
            clean_switch_removed(
                home,
                count,
                removing_checked(PlaceView::InHome(home, HomeFile::SwitchDraft)),
            )
        } else {
            clean_record(count, clearing_child(home))
        },
        CleanHomeView::SwitchRemove { home, count, remove } => clean_switch_removed(
            home,
            count,
            checked_remove_next(remove, event),
        ),
        CleanHomeView::Clear { count, remove } => clean_record(
            count,
            checked_remove_next(remove, event),
        ),
    }
}

impl CleanHome {
    /// Goes on with the answer to what was asked.
    pub fn resume(self, event: Event) -> (r: Step<Action, CleanHome, u64>)
        ensures
            r@ == clean_home_next(self@, event@),
    {
        match self {
            CleanHome::Path { home } => match expect_done(event) {
                Err(error) => Step::Done(Err(error)),
                Ok(_) => clean_after_child(home.clone(), child_is_running(home)),
            },
            CleanHome::Child { home, child } => clean_after_child(
                home,
                ChildRunning::resume(child, event),
            ),
            CleanHome::AuthPath { home } => match expect_done(event) {
                Err(error) => Step::Done(Err(error)),
                Ok(_) => Step::Ask(
                    Action::CheckPath(Place::InHome(home.clone(), HomeFile::AuthDraft)),
                    CleanHome::DraftPath { home },
                ),
            },
            CleanHome::DraftPath { home } => match expect_done(event) {
                Err(error) => Step::Done(Err(error)),
                Ok(_) => Step::Ask(
                    Action::CheckPath(Place::InHome(home.clone(), HomeFile::SwitchDraft)),
                    CleanHome::SwitchPath { home },
                ),
            },
            CleanHome::SwitchPath { home } => match expect_done(event) {
                Err(error) => Step::Done(Err(error)),
                Ok(_) => Step::Ask(
                    Action::Exists(Place::InHome(home.clone(), HomeFile::Auth)),
                    CleanHome::Auth { home },
                ),
            },
            CleanHome::Auth { home } => if is_present(event) {
                match home.clone() {
                    Home::Runtime(id) => clean_after_finish(
                        home,
                        finish_isolated_home(id.as_str()),
                    ),
                    other => clean_after_auth(
                        home,
                        remove_file(Place::InHome(other, HomeFile::Auth)),
                    ),
                }
            } else {
                clean_draft_next(home, 0)
            },
            CleanHome::Finish { home, finish } => clean_after_finish(
                home,
                Finish::resume(finish, event),
            ),
            CleanHome::AuthRemove { home, remove } => clean_after_auth(
                home,
                CheckedRemove::resume(remove, event),
            ),
            CleanHome::Draft { home, count } => if is_present(event) {
                clean_after_draft(
                    home.clone(),
                    count,
                    remove_file(Place::InHome(home, HomeFile::AuthDraft)),
                )
            } else {
                clean_switch_next(home, count)
            },
            CleanHome::DraftRemove { home, count, remove } => clean_after_draft(
                home,
                count,
                CheckedRemove::resume(remove, event),
            ),
            CleanHome::Switch { home, count } => if is_present(event) {
                clean_after_switch(
                    home.clone(),
                    count,
                    remove_file(Place::InHome(home, HomeFile::SwitchDraft)),
                )
            } else {
                clean_after_record(count, clear_child(home))
            },
            CleanHome::SwitchRemove { home, count, remove } => clean_after_switch(
                home,
                count,
                CheckedRemove::resume(remove, event),
            ),
            CleanHome::Clear { count, remove } => clean_after_record(
                count,
                CheckedRemove::resume(remove, event),
            ),
        }
    }
}

/// Clearing a login home once its process has ended.
#[derive(Debug)]
pub enum CleanLogin {
    Child { home: Home, left: u32, child: ChildRunning },
    Pause { home: Home, left: u32 },
    Clean(CleanHome),
}

/// What `CleanLogin` says.
#[verifier::ext_equal]
pub enum CleanLoginView {
    Child { home: HomeView, left: u32, child: ChildRunningView },
    Pause { home: HomeView, left: u32 },
    Clean(CleanHomeView),
}

impl View for CleanLogin {
    type V = CleanLoginView;

    open spec fn view(&self) -> CleanLoginView {
        match self {
            CleanLogin::Child { home, left, child } => CleanLoginView::Child {
                home: home@,
                left: *left,
                child: child@,
            },
            CleanLogin::Pause { home, left } => CleanLoginView::Pause {
                home: home@,
                left: *left,
            },
            CleanLogin::Clean(inner) => CleanLoginView::Clean(inner@),
        }
    }
}

/// Clears a login home once its process has ended, or gives up.
pub open spec fn cleaning_login(home: HomeView) -> StepView<ActionView, CleanLoginView, ()> {
    login_exit(home, LOGIN_EXIT_TRIES)
}

/// Clears a login home once its process has ended, or gives up.
pub fn cleanup_login(home: Home) -> (r: Step<Action, CleanLogin, ()>)
    ensures
        r@ == cleaning_login(home@),
{
    login_exit_check(home, LOGIN_EXIT_TRIES)
}

/// Looks whether the process of a login home has ended, if there is a try left.
pub open spec fn login_exit(home: HomeView, left: u32) -> StepView<ActionView, CleanLoginView, ()> {
    if left == 0 {
        StepView::Done(
            Err("登录进程尚未退出，临时认证已保留，请结束该进程后重试恢复"@),
        )
    } else {
        login_child(home, left, checking_child(home))
    }
}

/// Looks whether the process of a login home has ended, if there is a try left.
pub fn login_exit_check(home: Home, left: u32) -> (r: Step<Action, CleanLogin, ()>)
    ensures
        r@ == login_exit(home@, left),
{
    if left == 0 {
        Step::Done(
            Err("登录进程尚未退出，临时认证已保留，请结束该进程后重试恢复".to_owned()),
        )
    } else {
        login_after_child(home.clone(), left, child_is_running(home))
    }
}

/// Goes on while it is not known whether the process has ended.
pub open spec fn login_child(
    home: HomeView,
    left: u32,
    step: StepView<ActionView, ChildRunningView, bool>,
) -> StepView<ActionView, CleanLoginView, ()> {
    match step {
        StepView::Ask(action, child) => StepView::Ask(
            action,
            CleanLoginView::Child { home, left, child },
        ),
        StepView::Done(Err(error)) => StepView::Done(Err(error)),
        StepView::Done(Ok(true)) => StepView::Ask(
            ActionView::Sleep(LOGIN_EXIT_PAUSE),
            CleanLoginView::Pause { home, left },
        ),
        StepView::Done(Ok(false)) => login_clean(cleaning_home(home)),
    }
}

/// Goes on while it is not known whether the process has ended.
pub fn login_after_child(
    home: Home,
    left: u32,
    step: Step<Action, ChildRunning, bool>,
) -> (r: Step<Action, CleanLogin, ()>)
    ensures
        r@ == login_child(home@, left, step@),
{
    match step {
        Step::Ask(action, child) => Step::Ask(action, CleanLogin::Child { home, left, child }),
        Step::Done(Err(error)) => Step::Done(Err(error)),
        Step::Done(Ok(true)) => Step::Ask(
            Action::Sleep(LOGIN_EXIT_PAUSE),
            CleanLogin::Pause { home, left },
        ),
        Step::Done(Ok(false)) => login_after_clean(cleanup_home(home)),
    }
}

/// Goes on with the home being cleared.
pub open spec fn login_clean(
    step: StepView<ActionView, CleanHomeView, u64>,
) -> StepView<ActionView, CleanLoginView, ()> {
    match step {
        StepView::Ask(action, clean) => StepView::Ask(action, CleanLoginView::Clean(clean)),
        StepView::Done(Err(error)) => StepView::Done(Err(error)),
        StepView::Done(Ok(_)) => StepView::Done(Ok(())),
    }
}

/// Goes on with the home being cleared.
pub fn login_after_clean(step: Step<Action, CleanHome, u64>) -> (r: Step<Action, CleanLogin, ()>)
    ensures
        r@ == login_clean(step@),
{
    match step {
        Step::Ask(action, clean) => Step::Ask(action, CleanLogin::Clean(clean)),
        Step::Done(Err(error)) => Step::Done(Err(error)),
        Step::Done(Ok(_)) => Step::Done(Ok(())),
    }
}

/// One try less.
pub open spec fn one_less(left: u32) -> u32 {
    if left == 0 {
        0
    } else {
        (left - 1) as u32
    }
}

/// One try less.
pub fn tries_left(left: u32) -> (r: u32)
    ensures
        r == one_less(left),
{
    if left == 0 {
        0
    } else {
        left - 1
    }
}

/// Goes on with the answer to what was asked.
pub open spec fn clean_login_next(
    state: CleanLoginView,
    event: EventView,
) -> StepView<ActionView, CleanLoginView, ()> {
    match state {
        CleanLoginView::Child { home, left, child } => login_child(
            home,
            left,
            child_running_next(child, event),
        ),
        CleanLoginView::Pause { home, left } => login_exit(home, one_less(left)),
        CleanLoginView::Clean(clean) => login_clean(clean_home_next(clean, event)),
    }
}

impl CleanLogin {
    /// Goes on with the answer to what was asked.
    pub fn resume(self, event: Event) -> (r: Step<Action, CleanLogin, ()>)
        ensures
            r@ == clean_login_next(self@, event@),
    {
        match self {
            CleanLogin::Child { home, left, child } => login_after_child(
                home,
                left,
                ChildRunning::resume(child, event),
            ),
            CleanLogin::Pause { home, left } => login_exit_check(home, tries_left(left)),
            CleanLogin::Clean(clean) => login_after_clean(CleanHome::resume(clean, event)),
        }
    }
}

/// Recovering one home of the hub's own: the process that was left there is ended, then the home
/// is cleared.
#[derive(Debug)]
pub enum Sweep {
    Path { home: Home, own: u32 },
    Kind { home: Home, own: u32 },
    Stop { home: Home, stop: StopStale },
    Clean(CleanHome),
}

/// What `Sweep` says.
#[verifier::ext_equal]
pub enum SweepView {
    Path { home: HomeView, own: u32 },
    Kind { home: HomeView, own: u32 },
    Stop { home: HomeView, stop: StopStaleView },
    Clean(CleanHomeView),
}

impl View for Sweep {
    type V = SweepView;

    open spec fn view(&self) -> SweepView {
        match self {
            Sweep::Path { home, own } => SweepView::Path {
                home: home@,
                own: *own,
            },
            Sweep::Kind { home, own } => SweepView::Kind {
                home: home@,
                own: *own,
            },
            Sweep::Stop { home, stop } => SweepView::Stop {
                home: home@,
                stop: stop@,
            },
            Sweep::Clean(inner) => SweepView::Clean(inner@),
        }
    }
}

/// Recovers one home of the hub's own, and counts the files that were cleared.
pub open spec fn sweeping(home: HomeView, own: u32) -> StepView<ActionView, SweepView, u64> {
    StepView::Ask(ActionView::CheckPath(PlaceView::HomeDir(home)), SweepView::Path { home, own })
}

/// Recovers one home of the hub's own, and counts the files that were cleared.
pub fn sweep_home(home: Home, own: u32) -> (r: Step<Action, Sweep, u64>)
    ensures
        r@ == sweeping(home@, own),
{
    Step::Ask(Action::CheckPath(Place::HomeDir(home.clone())), Sweep::Path { home, own })
}

/// Goes on with the process of the home being ended.
pub open spec fn sweep_stopped(
    home: HomeView,
    step: StepView<ActionView, StopStaleView, ()>,
) -> StepView<ActionView, SweepView, u64> {
    match step {
        StepView::Ask(action, stop) => StepView::Ask(action, SweepView::Stop { home, stop }),
        StepView::Done(Err(error)) => StepView::Done(Err(error)),
        StepView::Done(Ok(_)) => sweep_cleaned(cleaning_home(home)),
    }
}

/// Goes on with the process of the home being ended.
pub fn sweep_after_stop(
    home: Home,
    step: Step<Action, StopStale, ()>,
) -> (r: Step<Action, Sweep, u64>)
    ensures
        r@ == sweep_stopped(home@, step@),
{
    match step {
        Step::Ask(action, stop) => Step::Ask(action, Sweep::Stop { home, stop }),
        Step::Done(Err(error)) => Step::Done(Err(error)),
        Step::Done(Ok(_)) => sweep_after_clean(cleanup_home(home)),
    }
}

/// Goes on with the home being cleared.
pub open spec fn sweep_cleaned(
    step: StepView<ActionView, CleanHomeView, u64>,
) -> StepView<ActionView, SweepView, u64> {
    match step {
        StepView::Ask(action, clean) => StepView::Ask(action, SweepView::Clean(clean)),
        StepView::Done(result) => StepView::Done(result),
    }
}

/// Goes on with the home being cleared.
pub fn sweep_after_clean(step: Step<Action, CleanHome, u64>) -> (r: Step<Action, Sweep, u64>)
    ensures
        r@ == sweep_cleaned(step@),
{
    match step {
        Step::Ask(action, clean) => Step::Ask(action, Sweep::Clean(clean)),
        Step::Done(result) => Step::Done(result),
    }
}

/// Goes on with the answer to what was asked.
pub open spec fn sweep_next(
    state: SweepView,
    event: EventView,
) -> StepView<ActionView, SweepView, u64> {
    match state {
        SweepView::Path { home, own } => match done_reply(event) {
            Err(error) => StepView::Done(Err(error)),
            Ok(_) => StepView::Ask(
                ActionView::IsDir(PlaceView::HomeDir(home)),
                SweepView::Kind { home, own },
            ),
        },
        SweepView::Kind { home, own } => if present(event) {
            sweep_stopped(home, stopping_stale(home, own))
        } else {
            StepView::Done(Ok(0))
        },
        SweepView::Stop { home, stop } => sweep_stopped(home, stop_stale_next(stop, event)),
        SweepView::Clean(clean) => sweep_cleaned(clean_home_next(clean, event)),
    }
}

impl Sweep {
    /// Goes on with the answer to what was asked.
    pub fn resume(self, event: Event) -> (r: Step<Action, Sweep, u64>)
        ensures
            r@ == sweep_next(self@, event@),
    {
        match self {
            Sweep::Path { home, own } => match expect_done(event) {
                Err(error) => Step::Done(Err(error)),
                Ok(_) => Step::Ask(
                    Action::IsDir(Place::HomeDir(home.clone())),
                    Sweep::Kind { home, own },
                ),
            },
            Sweep::Kind { home, own } => if is_present(event) {
                sweep_after_stop(home.clone(), stop_stale_child(home, own))
            } else {
                Step::Done(Ok(0))
            },
            Sweep::Stop { home, stop } => sweep_after_stop(home, StopStale::resume(stop, event)),
            Sweep::Clean(clean) => sweep_after_clean(CleanHome::resume(clean, event)),
        }
    }
}

/// What a recovery has come to so far: what went wrong, how many files were cleared, the path of
/// the active home or why it is not known, and the number of the process that asks.
#[derive(Debug)]
pub struct Tally {
    pub errors: Vec<String>,
    pub cleaned: u64,
    pub home: Result<String, String>,
    pub own: u32,
}

/// What `Tally` says.
#[verifier::ext_equal]
pub struct TallyView {
    pub errors: Seq<Seq<char>>,
    pub cleaned: u64,
    pub home: Result<Seq<char>, Seq<char>>,
    pub own: u32,
}

impl View for Tally {
    type V = TallyView;

    open spec fn view(&self) -> TallyView {
        TallyView {
            errors: views(self.errors@),
            cleaned: self.cleaned,
            home: outcome(self.home),
            own: self.own,
        }
    }
}

/// A tally with one more thing that went wrong.
pub open spec fn tally_failed(tally: TallyView, error: Seq<char>) -> TallyView {
    TallyView { errors: tally.errors.push(error), ..tally }
}

/// A tally with more files cleared.
pub open spec fn tally_cleaned(tally: TallyView, count: u64) -> TallyView {
    TallyView { cleaned: total(tally.cleaned, count), ..tally }
}

impl Tally {
    /// Notes what went wrong.
    pub fn failed(self, error: String) -> (r: Tally)
        ensures
            r@ == tally_failed(self@, error@),
    {
        let mut errors = self.errors;
        errors.push(error);
        assert(views(errors@) =~= views(self.errors@).push(error@));
        Tally { errors, cleaned: self.cleaned, home: self.home, own: self.own }
    }

    /// Adds to the number of files that were cleared.
    pub fn cleaned(self, count: u64) -> (r: Tally)
        ensures
            r@ == tally_cleaned(self@, count),
    {
        Tally {
            errors: self.errors,
            cleaned: add_up(self.cleaned, count),
            home: self.home,
            own: self.own,
        }
    }
}

/// The end of a report: how many files were cleared, and what went wrong.
pub open spec fn concluded(report: ReportView, tally: TallyView) -> ReportView {
    let told = if tally.cleaned > 0 {
        noted(report, "已清理 "@ + decimal(tally.cleaned as nat) + " 份遗留临时认证文件。"@)
    } else {
        report
    };
    ReportView {
        messages: told.messages + tally.errors,
        needs_attention: told.needs_attention || tally.errors.len() > 0,
        ..told
    }
}

/// Concludes a report.
pub fn conclude(report: Report, tally: Tally) -> (r: Report)
    ensures
        r@ == concluded(report@, tally@),
{
    let told = if tally.cleaned > 0 {
        report.note(
            join3("已清理 ", number_text(tally.cleaned).as_str(), " 份遗留临时认证文件。"),
        )
    } else {
        report
    };
    let failed: bool = tally.errors.len() > 0;
    let mut messages = told.messages;
    let mut errors = tally.errors;
    let ghost before = messages@;
    messages.append(&mut errors);
    assert(views(messages@) =~= views(before) + views(tally.errors@));
    Report {
        messages,
        needs_attention: told.needs_attention || failed,
        restart_suggested: told.restart_suggested,
    }
}

/// A recovery as a whole: the login homes, the runtime homes, then the recorded update.
#[derive(Debug)]
pub enum Run {
    DataPath(Tally),
    RootPath { tally: Tally, runtime: bool },
    Listed { tally: Tally, runtime: bool },
    Sweep { tally: Tally, runtime: bool, rest: Vec<Entry>, sweep: Sweep },
    Recover { tally: Tally, recover: Recover },
    Draft { tally: Tally, report: Report, remove: CheckedRemove },
}

/// What `Run` says.
#[verifier::ext_equal]
pub enum RunView {
    DataPath(TallyView),
    RootPath { tally: TallyView, runtime: bool },
    Listed { tally: TallyView, runtime: bool },
    Sweep { tally: TallyView, runtime: bool, rest: Seq<EntryView>, sweep: SweepView },
    Recover { tally: TallyView, recover: RecoverView },
    Draft { tally: TallyView, report: ReportView, remove: CheckedRemoveView },
}

impl View for Run {
    type V = RunView;

    open spec fn view(&self) -> RunView {
        match self {
            Run::DataPath(inner) => RunView::DataPath(inner@),
            Run::RootPath { tally, runtime } => RunView::RootPath {
                tally: tally@,
                runtime: *runtime,
            },
            Run::Listed { tally, runtime } => RunView::Listed {
                tally: tally@,
                runtime: *runtime,
            },
            Run::Sweep { tally, runtime, rest, sweep } => RunView::Sweep {
                tally: tally@,
                runtime: *runtime,
                rest: views(rest@),
                sweep: sweep@,
            },
            Run::Recover { tally, recover } => RunView::Recover {
                tally: tally@,
                recover: recover@,
            },
            Run::Draft { tally, report, remove } => RunView::Draft {
                tally: tally@,
                report: report@,
                remove: remove@,
            },
        }
    }
}

/// The directory of the login homes or of the runtime homes.
pub open spec fn root_place(runtime: bool) -> PlaceView {
    if runtime {
        PlaceView::RuntimeRoot
    } else {
        PlaceView::LoginRoot
    }
}

/// The directory of the login homes or of the runtime homes.
pub fn root_of(runtime: bool) -> (r: Place)
    ensures
        r@ == root_place(runtime),
{
    if runtime {
        Place::RuntimeRoot
    } else {
        Place::LoginRoot
    }
}

/// A login home or a runtime home by its name.
pub open spec fn root_home(runtime: bool, name: Seq<char>) -> HomeView {
    if runtime {
        HomeView::Runtime(name)
    } else {
        HomeView::Login(name)
    }
}

/// A login home or a runtime home by its name.
pub fn home_in(runtime: bool, name: String) -> (r: Home)
    ensures
        r@ == root_home(runtime, name@),
{
    if runtime {
        Home::Runtime(name)
    } else {
        Home::Login(name)
    }
}

/// Ends a recovery.
pub open spec fn run_done(
    report: ReportView,
    tally: TallyView,
) -> StepView<ActionView, RunView, ReportView> {
    StepView::Done(Ok(concluded(report, tally)))
}

/// Ends a recovery.
pub fn run_report(report: Report, tally: Tally) -> (r: Step<Action, Run, Report>)
    ensures
        r@ == run_done(report@, tally@),
{
    Step::Done(Ok(conclude(report, tally)))
}

/// Goes on with the login homes or with the runtime homes.
pub open spec fn run_root(
    tally: TallyView,
    runtime: bool,
) -> StepView<ActionView, RunView, ReportView> {
    StepView::Ask(ActionView::CheckPath(root_place(runtime)), RunView::RootPath { tally, runtime })
}

/// Goes on with the login homes or with the runtime homes.
pub fn run_from_root(tally: Tally, runtime: bool) -> (r: Step<Action, Run, Report>)
    ensures
        r@ == run_root(tally@, runtime),
{
    Step::Ask(Action::CheckPath(root_of(runtime)), Run::RootPath { tally, runtime })
}

/// Goes on when one of the two directories is done.
pub open spec fn run_after_root(
    tally: TallyView,
    runtime: bool,
) -> StepView<ActionView, RunView, ReportView> {
    if runtime {
        run_recover(tally)
    } else {
        run_root(tally, true)
    }
}

/// Goes on when one of the two directories is done.
pub fn run_past_root(tally: Tally, runtime: bool) -> (r: Step<Action, Run, Report>)
    ensures
        r@ == run_after_root(tally@, runtime),
{
    if runtime {
        run_transaction(tally)
    } else {
        run_from_root(tally, true)
    }
}

/// Goes on with the recorded update.
pub open spec fn run_recover(tally: TallyView) -> StepView<ActionView, RunView, ReportView> {
    match tally.home {
        Ok(home) => run_recovered(
            tally,
            recovering(home, empty_report()),
        ),
        Err(error) => run_done(empty_report(), tally_failed(tally, error)),
    }
}

/// Goes on with the recorded update.
pub fn run_transaction(tally: Tally) -> (r: Step<Action, Run, Report>)
    ensures
        r@ == run_recover(tally@),
{
    match copy_result(&tally.home) {
        Ok(home) => run_after_recover(
            tally,
            recover_transaction(home.as_str(), Report::new()),
        ),
        Err(error) => run_report(Report::new(), Tally::failed(tally, error)),
    }
}

/// Goes on with the recorded update being recovered from.
pub open spec fn run_recovered(
    tally: TallyView,
    step: StepView<ActionView, RecoverView, RecoveredView>,
) -> StepView<ActionView, RunView, ReportView> {
    match step {
        StepView::Ask(action, recover) => StepView::Ask(
            action,
            RunView::Recover { tally, recover },
        ),
        StepView::Done(Err(error)) => run_draft_remove(tally_failed(tally, error), empty_report()),
        StepView::Done(Ok(recovered)) => match recovered.error {
            Some(error) => run_draft_remove(tally_failed(tally, error), recovered.report),
            None => run_draft_remove(tally, recovered.report),
        },
    }
}

/// Goes on with the recorded update being recovered from.
pub fn run_after_recover(
    tally: Tally,
    step: Step<Action, Recover, Recovered>,
) -> (r: Step<Action, Run, Report>)
    ensures
        r@ == run_recovered(tally@, step@),
{
    match step {
        Step::Ask(action, recover) => Step::Ask(action, Run::Recover { tally, recover }),
        Step::Done(Err(error)) => run_draft(Tally::failed(tally, error), Report::new()),
        Step::Done(Ok(recovered)) => match recovered.error {
            Some(error) => run_draft(Tally::failed(tally, error), recovered.report),
            None => run_draft(tally, recovered.report),
        },
    }
}

/// Removes the draft that an interrupted switch left.
pub open spec fn run_draft_remove(
    tally: TallyView,
    report: ReportView,
) -> StepView<ActionView, RunView, ReportView> {
    run_draft_removed(
        tally,
        report,
        removing_checked(PlaceView::InHome(HomeView::Active, HomeFile::SwitchDraft)),
    )
}

/// Removes the draft that an interrupted switch left.
pub fn run_draft(tally: Tally, report: Report) -> (r: Step<Action, Run, Report>)
    ensures
        r@ == run_draft_remove(tally@, report@),
{
    run_after_draft(
        tally,
        report,
        remove_file(Place::InHome(Home::Active, HomeFile::SwitchDraft)),
    )
}

/// Goes on with the draft being removed.
pub open spec fn run_draft_removed(
    tally: TallyView,
    report: ReportView,
    step: StepView<ActionView, CheckedRemoveView, ()>,
) -> StepView<ActionView, RunView, ReportView> {
    match step {
        StepView::Ask(action, remove) => StepView::Ask(
            action,
            RunView::Draft { tally, report, remove },
        ),
        StepView::Done(Err(error)) => run_done(report, tally_failed(tally, error)),
        StepView::Done(Ok(_)) => run_done(report, tally),
    }
}

/// Goes on with the draft being removed.
pub fn run_after_draft(
    tally: Tally,
    report: Report,
    step: Step<Action, CheckedRemove, ()>,
) -> (r: Step<Action, Run, Report>)
    ensures
        r@ == run_draft_removed(tally@, report@, step@),
{
    match step {
        Step::Ask(action, remove) => Step::Ask(action, Run::Draft { tally, report, remove }),
        Step::Done(Err(error)) => run_report(report, Tally::failed(tally, error)),
        Step::Done(Ok(_)) => run_report(report, tally),
    }
}

/// Goes through the entries of a directory: an entry that cannot be read is noted.
pub open spec fn run_entries(tally: TallyView, runtime: bool, entries: Seq<EntryView>) -> StepView<
    ActionView,
    RunView,
    ReportView,
>
    decreases entries.len(),
{
    match first_and_rest(entries) {
        None => run_after_root(tally, runtime),
        Some((EntryView::Unreadable(error), rest)) => run_entries(
            tally_failed(tally, error),
            runtime,
            rest,
        ),
        Some((EntryView::Named(name), rest)) => match sweeping(
            root_home(runtime, name),
            tally.own,
        ) {
            StepView::Ask(action, sweep) => StepView::Ask(
                action,
                RunView::Sweep { tally, runtime, rest, sweep },
            ),
            StepView::Done(Ok(count)) => run_entries(tally_cleaned(tally, count), runtime, rest),
            StepView::Done(Err(error)) => run_entries(tally_failed(tally, error), runtime, rest),
        },
    }
}

/// Goes through the entries of a directory.
pub fn run_through(tally: Tally, runtime: bool, entries: Vec<Entry>) -> (r: Step<
    Action,
    Run,
    Report,
>)
    ensures
        r@ == run_entries(tally@, runtime, views(entries@)),
    decreases entries@.len(),
{
    match split_first(entries) {
        None => run_past_root(tally, runtime),
        Some((Entry::Unreadable(error), rest)) => {
            assert(rest@.len() == views(rest@).len());
            run_through(tally.failed(error), runtime, rest)
        },
        Some((Entry::Named(name), rest)) => {
            assert(rest@.len() == views(rest@).len());
            match sweep_home(home_in(runtime, name), tally.own) {
                Step::Ask(action, sweep) => Step::Ask(
                    action,
                    Run::Sweep { tally, runtime, rest, sweep },
                ),
                Step::Done(Ok(count)) => run_through(tally.cleaned(count), runtime, rest),
                Step::Done(Err(error)) => run_through(tally.failed(error), runtime, rest),
            }
        },
    }
}

/// Goes on with one home being recovered.
pub open spec fn run_swept(
    tally: TallyView,
    runtime: bool,
    rest: Seq<EntryView>,
    step: StepView<ActionView, SweepView, u64>,
) -> StepView<ActionView, RunView, ReportView> {
    match step {
        StepView::Ask(action, sweep) => StepView::Ask(
            action,
            RunView::Sweep { tally, runtime, rest, sweep },
        ),
        StepView::Done(Ok(count)) => run_entries(tally_cleaned(tally, count), runtime, rest),
        StepView::Done(Err(error)) => run_entries(tally_failed(tally, error), runtime, rest),
    }
}

/// Goes on with one home being recovered.
pub fn run_after_sweep(
    tally: Tally,
    runtime: bool,
    rest: Vec<Entry>,
    step: Step<Action, Sweep, u64>,
) -> (r: Step<Action, Run, Report>)
    ensures
        r@ == run_swept(tally@, runtime, views(rest@), step@),
{
    match step {
        Step::Ask(action, sweep) => Step::Ask(action, Run::Sweep { tally, runtime, rest, sweep }),
        Step::Done(Ok(count)) => run_through(Tally::cleaned(tally, count), runtime, rest),
        Step::Done(Err(error)) => run_through(Tally::failed(tally, error), runtime, rest),
    }
}

/// Recovers from whatever an earlier run was interrupted in; `home` is the path of the active
/// home or why it is not known, and `own` the number of the process that asks.
///
/// The homes of logins and queries come first, so that what they leave is settled before the
/// recorded update imports the credentials in use.
pub open spec fn running_recovery(
    home: Result<Seq<char>, Seq<char>>,
    own: u32,
) -> StepView<ActionView, RunView, ReportView> {
    StepView::Ask(
        ActionView::CheckPath(PlaceView::DataDir),
        RunView::DataPath(TallyView { errors: seq![], cleaned: 0, home, own }),
    )
}

/// Recovers from whatever an earlier run was interrupted in; `home` is the path of the active
/// home or why it is not known, and `own` the number of the process that asks.
///
/// The homes of logins and queries come first, so that what they leave is settled before the
/// recorded update imports the credentials in use.
pub fn run(home: Result<String, String>, own: u32) -> (r: Step<Action, Run, Report>)
    ensures
        r@ == running_recovery(outcome(home), own),
{
    Step::Ask(
        Action::CheckPath(Place::DataDir),
        Run::DataPath(Tally { errors: no_texts(), cleaned: 0, home, own }),
    )
}

/// Goes on with the answer to what was asked.
pub open spec fn run_next(
    state: RunView,
    event: EventView,
) -> StepView<ActionView, RunView, ReportView> {
    match state {
        RunView::DataPath(tally) => match done_reply(event) {
            Err(error) => StepView::Done(Ok(asking_attention(noted(empty_report(), error)))),
            Ok(_) => run_root(tally, false),
        },
        RunView::RootPath { tally, runtime } => match done_reply(event) {
            Err(error) => run_after_root(tally_failed(tally, error), runtime),
            Ok(_) => StepView::Ask(
                ActionView::List(root_place(runtime)),
                RunView::Listed { tally, runtime },
            ),
        },
        RunView::Listed { tally, runtime } => match event {
            EventView::Names(entries) => run_entries(tally, runtime, entries),
            EventView::Missing { path: _, error: _ } => run_after_root(tally, runtime),
            other => run_after_root(
                tally_failed(
                    tally,
                    "无法检查临时认证目录："@ + failure_text(other),
                ),
                runtime,
            ),
        },
        RunView::Sweep { tally, runtime, rest, sweep } => run_swept(
            tally,
            runtime,
            rest,
            sweep_next(sweep, event),
        ),
        RunView::Recover { tally, recover } => run_recovered(
            tally,
            recover_next(recover, event),
        ),
        RunView::Draft { tally, report, remove } => run_draft_removed(
            tally,
            report,
            checked_remove_next(remove, event),
        ),
    }
}

impl Run {
    /// Goes on with the answer to what was asked.
    pub fn resume(self, event: Event) -> (r: Step<Action, Run, Report>)
        ensures
            r@ == run_next(self@, event@),
    {
        match self {
            Run::DataPath(tally) => match expect_done(event) {
                Err(error) => Step::Done(Ok(with_attention(Report::note(Report::new(), error)))),
                Ok(_) => run_from_root(tally, false),
            },
            Run::RootPath { tally, runtime } => match expect_done(event) {
                Err(error) => run_past_root(Tally::failed(tally, error), runtime),
                Ok(_) => Step::Ask(
                    Action::List(root_of(runtime)),
                    Run::Listed { tally, runtime },
                ),
            },
            Run::Listed { tally, runtime } => match event {
                Event::Names(entries) => run_through(tally, runtime, entries),
                Event::Missing { path: _, error: _ } => run_past_root(tally, runtime),
                other => run_past_root(
                    Tally::failed(
                        tally,
                        join2("无法检查临时认证目录：", failure(other).as_str()),
                    ),
                    runtime,
                ),
            },
            Run::Sweep { tally, runtime, rest, sweep } => run_after_sweep(
                tally,
                runtime,
                rest,
                Sweep::resume(sweep, event),
            ),
            Run::Recover { tally, recover } => run_after_recover(
                tally,
                Recover::resume(recover, event),
            ),
            Run::Draft { tally, report, remove } => run_after_draft(
                tally,
                report,
                CheckedRemove::resume(remove, event),
            ),
        }
    }
}

/// A file is removed only after its path was checked; one that is not there is as good as removed.
pub proof fn law_path_is_checked_before_a_removal(
    place: PlaceView,
    path: Seq<char>,
    error: Seq<char>,
)
    ensures
        removing_checked(place) == StepView::<ActionView, CheckedRemoveView, ()>::Ask(
            ActionView::CheckPath(place),
            CheckedRemoveView::Path(place),
        ),
        checked_remove_next(CheckedRemoveView::Path(place), EventView::Done) == StepView::<
            ActionView,
            CheckedRemoveView,
            (),
        >::Ask(ActionView::Remove(place), CheckedRemoveView::Removed),
        checked_remove_next(CheckedRemoveView::Path(place), EventView::Rejected(error))
            == StepView::<ActionView, CheckedRemoveView, ()>::Done(Err(error)),
        checked_remove_next(CheckedRemoveView::Removed, EventView::Done) == StepView::<
            ActionView,
            CheckedRemoveView,
            (),
        >::Done(Ok(())),
        checked_remove_next(CheckedRemoveView::Removed, EventView::Missing { path, error })
            == StepView::<ActionView, CheckedRemoveView, ()>::Done(Ok(())),
        checked_remove_next(CheckedRemoveView::Removed, EventView::Failed { path, error })
            == StepView::<ActionView, CheckedRemoveView, ()>::Done(
            Err("无法清理恢复文件："@ + error),
        ),
{
}

/// An update that is recorded stands in the way of another one.
pub proof fn law_recorded_update_stands_in_the_way()
    ensures
        pending_next(PendingView::Present, EventView::Present(true)) == StepView::<
            ActionView,
            PendingView,
            (),
        >::Done(
            Err(
                "有未完成的认证恢复记录，请先点击“检查并恢复”或“重试恢复”"@,
            ),
        ),
        pending_next(PendingView::Present, EventView::Present(false)) == StepView::<
            ActionView,
            PendingView,
            (),
        >::Done(Ok(())),
        pending_next(PendingView::Path, EventView::Done) == StepView::<
            ActionView,
            PendingView,
            (),
        >::Ask(ActionView::Exists(PlaceView::Journal), PendingView::Present),
{
}

/// The process of a login is waited for up to sixty times before its home is given up; the home is
/// cleared as soon as it has left.
pub proof fn law_login_process_is_given_time(
    home: HomeView,
    left: u32,
    process: IdentityView,
    slept: EventView,
)
    requires
        left > 0,
    ensures
        cleaning_login(home) == StepView::<ActionView, CleanLoginView, ()>::Ask(
            ActionView::CheckPath(PlaceView::InHome(home, HomeFile::Child)),
            CleanLoginView::Child { home, left: 60, child: ChildRunningView::Path(home) },
        ),
        ({
            let state = CleanLoginView::Child {
                home,
                left,
                child: ChildRunningView::Verified(process),
            };
            &&& clean_login_next(state, EventView::Alive(process)) == StepView::<
                ActionView,
                CleanLoginView,
                (),
            >::Ask(ActionView::Sleep(50), CleanLoginView::Pause { home, left })
            &&& clean_login_next(state, EventView::Gone) == StepView::<
                ActionView,
                CleanLoginView,
                (),
            >::Ask(
                ActionView::CheckPath(PlaceView::HomeDir(home)),
                CleanLoginView::Clean(CleanHomeView::Path { home }),
            )
            &&& left > 1 ==> clean_login_next(CleanLoginView::Pause { home, left }, slept)
                == StepView::<ActionView, CleanLoginView, ()>::Ask(
                ActionView::CheckPath(PlaceView::InHome(home, HomeFile::Child)),
                CleanLoginView::Child {
                    home,
                    left: (left - 1) as u32,
                    child: ChildRunningView::Path(home),
                },
            )
            &&& left == 1 ==> clean_login_next(CleanLoginView::Pause { home, left }, slept)
                == StepView::<ActionView, CleanLoginView, ()>::Done(
                Err(
                    "登录进程尚未退出，临时认证已保留，请结束该进程后重试恢复"@,
                ),
            )
        }),
{
}

/// A process of which no more than its number is recorded is never ended: it is refused while it
/// runs.
pub proof fn law_process_known_by_its_number_is_not_ended(pid: u32, own: u32)
    ensures
        stop_stale_next(
            StopStaleView::Record { own },
            EventView::Child(ChildRecordView::Legacy(pid)),
        ) == StepView::<ActionView, StopStaleView, ()>::Ask(
            ActionView::IsRunning(pid),
            StopStaleView::Legacy { pid },
        ),
        stop_stale_next(StopStaleView::Legacy { pid }, EventView::Present(true))
            matches StepView::Done(Err(_)),
        stop_stale_next(StopStaleView::Legacy { pid }, EventView::Present(false)) == StepView::<
            ActionView,
            StopStaleView,
            (),
        >::Done(Ok(())),
{
}

/// The first part of a path that is a link, or that cannot be looked at, is why the path is
/// refused.
pub proof fn law_first_obstacle_of_a_path_is_told(
    clear: Seq<AncestorView>,
    obstacle: AncestorView,
    rest: Seq<AncestorView>,
)
    requires
        forall|i: int| 0 <= i < clear.len() ==> (
            #[trigger] clear[i] is Plain || clear[i] is Missing
        ),
    ensures
        obstacle is Linked ==> path_verdict(true, clear + seq![obstacle] + rest) == Err::<
            (),
            Seq<char>,
        >("恢复路径包含链接或重解析点，已停止自动处理"@),
        obstacle matches AncestorView::Failed(error) ==> path_verdict(
            true,
            clear + seq![obstacle] + rest,
        ) == Err::<(), Seq<char>>("无法检查恢复路径："@ + error),
        path_verdict(false, clear) == Err::<(), Seq<char>>("恢复路径必须是绝对路径"@),
    decreases clear.len(),
{
    let all = clear + seq![obstacle] + rest;
    if clear.len() == 0 {
        assert(all[0] == obstacle);
    } else {
        assert(all[0] == clear[0]);
        law_first_obstacle_of_a_path_is_told(clear.drop_first(), obstacle, rest);
        assert(all.drop_first() =~= clear.drop_first() + seq![obstacle] + rest);
    }
}

} // verus!
