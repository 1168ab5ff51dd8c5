//! Writing a file so that it is replaced as a whole or not at all.
//!
//! The bytes go into a draft beside the file, the draft is synchronized, and only then does it take
//! the place of the file.

use vstd::prelude::*;
use vstd::string::*;

use crate::courses::{asked, lemma_course_join, reached};
use crate::effects::{Step, StepView};
use crate::text::{held, join2, join3};

verus! {

/// What a file is for: something the hub saves, the login that Codex uses, the usage cache.
#[derive(Clone, Copy, Debug, PartialEq, Eq, Structural)]
pub enum FileKind {
    Saved,
    Login,
    Cache,
}

/// The name of the draft of a file.
pub open spec fn draft_of(kind: FileKind, name: Seq<char>) -> Seq<char> {
    match kind {
        FileKind::Saved => "."@ + name + ".tmp"@,
        FileKind::Login => ".auth.json.codex-account-hub.tmp"@,
        FileKind::Cache => ".usage-cache.json.tmp"@,
    }
}

/// The name of the draft of a file.
pub fn draft_name(kind: FileKind, name: &str) -> (r: String)
    ensures
        r@ == draft_of(kind, name@),
{
    match kind {
        FileKind::Saved => join3(".", name, ".tmp"),
        FileKind::Login => ".auth.json.codex-account-hub.tmp".to_owned(),
        FileKind::Cache => ".usage-cache.json.tmp".to_owned(),
    }
}

/// The error of a path that has no directory above it.
pub open spec fn no_parent_text(kind: FileKind) -> Seq<char> {
    match kind {
        FileKind::Saved => "目标文件没有父目录"@,
        FileKind::Login => "认证文件没有父目录"@,
        FileKind::Cache => "额度缓存没有父目录"@,
    }
}

/// The error of a path that has no directory above it.
pub fn no_parent(kind: FileKind) -> (r: String)
    ensures
        r@ == no_parent_text(kind),
{
    match kind {
        FileKind::Saved => "目标文件没有父目录".to_owned(),
        FileKind::Login => "认证文件没有父目录".to_owned(),
        FileKind::Cache => "额度缓存没有父目录".to_owned(),
    }
}

/// The error of a directory that cannot be created.
pub open spec fn parent_failure(kind: FileKind, error: Seq<char>) -> Seq<char> {
    match kind {
        FileKind::Saved => error,
        FileKind::Login => "无法创建认证目录："@ + error,
        FileKind::Cache => "无法创建缓存目录："@ + error,
    }
}

/// The error of a directory that cannot be created.
pub fn parent_failed(kind: FileKind, error: &str) -> (r: String)
    ensures
        r@ == parent_failure(kind, error@),
{
    match kind {
        FileKind::Saved => error.to_owned(),
        FileKind::Login => join2("无法创建认证目录：", error),
        FileKind::Cache => join2("无法创建缓存目录：", error),
    }
}

/// The error of an old draft that cannot be removed.
pub open spec fn stale_failure(kind: FileKind, error: Seq<char>) -> Seq<char> {
    match kind {
        FileKind::Saved => "无法清理旧临时文件："@ + error,
        FileKind::Login => "无法清理旧切换临时文件："@ + error,
        FileKind::Cache => "无法清理旧缓存临时文件："@ + error,
    }
}

/// The error of an old draft that cannot be removed.
pub fn stale_failed(kind: FileKind, error: &str) -> (r: String)
    ensures
        r@ == stale_failure(kind, error@),
{
    match kind {
        FileKind::Saved => join2("无法清理旧临时文件：", error),
        FileKind::Login => join2("无法清理旧切换临时文件：", error),
        FileKind::Cache => join2("无法清理旧缓存临时文件：", error),
    }
}

/// The error of a draft that cannot be created.
pub open spec fn create_failure(kind: FileKind, error: Seq<char>) -> Seq<char> {
    match kind {
        FileKind::Saved => "写入临时文件失败："@ + error,
        FileKind::Login => "无法创建切换临时文件："@ + error,
        FileKind::Cache => "无法创建缓存临时文件："@ + error,
    }
}

/// The error of a draft that cannot be created.
pub fn create_failed(kind: FileKind, error: &str) -> (r: String)
    ensures
        r@ == create_failure(kind, error@),
{
    match kind {
        FileKind::Saved => join2("写入临时文件失败：", error),
        FileKind::Login => join2("无法创建切换临时文件：", error),
        FileKind::Cache => join2("无法创建缓存临时文件：", error),
    }
}

/// The error of a draft that cannot be written.
pub open spec fn write_failure(kind: FileKind, error: Seq<char>) -> Seq<char> {
    match kind {
        FileKind::Saved => "写入临时文件失败："@ + error,
        FileKind::Login => "无法写入切换临时文件："@ + error,
        FileKind::Cache => "无法写入缓存临时文件："@ + error,
    }
}

/// The error of a draft that cannot be written.
pub fn write_failed(kind: FileKind, error: &str) -> (r: String)
    ensures
        r@ == write_failure(kind, error@),
{
    match kind {
        FileKind::Saved => join2("写入临时文件失败：", error),
        FileKind::Login => join2("无法写入切换临时文件：", error),
        FileKind::Cache => join2("无法写入缓存临时文件：", error),
    }
}

/// The error of a draft that cannot be synchronized.
pub open spec fn sync_failure(kind: FileKind, error: Seq<char>) -> Seq<char> {
    match kind {
        FileKind::Saved => "同步临时文件失败："@ + error,
        FileKind::Login => "无法同步切换临时文件："@ + error,
        FileKind::Cache => "无法同步缓存临时文件："@ + error,
    }
}

/// The error of a draft that cannot be synchronized.
pub fn sync_failed(kind: FileKind, error: &str) -> (r: String)
    ensures
        r@ == sync_failure(kind, error@),
{
    match kind {
        FileKind::Saved => join2("同步临时文件失败：", error),
        FileKind::Login => join2("无法同步切换临时文件：", error),
        FileKind::Cache => join2("无法同步缓存临时文件：", error),
    }
}

/// The error of a draft that cannot take the place of the file.
pub open spec fn commit_failure(kind: FileKind, error: Seq<char>) -> Seq<char> {
    match kind {
        FileKind::Saved => "原子提交账号文件失败："@ + error,
        FileKind::Login => "原子替换认证文件失败："@ + error,
        FileKind::Cache => "原子提交额度缓存失败："@ + error,
    }
}

/// The error of a draft that cannot take the place of the file.
pub fn commit_failed(kind: FileKind, error: &str) -> (r: String)
    ensures
        r@ == commit_failure(kind, error@),
{
    match kind {
        FileKind::Saved => join2("原子提交账号文件失败：", error),
        FileKind::Login => join2("原子替换认证文件失败：", error),
        FileKind::Cache => join2("原子提交额度缓存失败：", error),
    }
}

/// The error of a file that cannot be removed to make room for the draft.
pub open spec fn update_failure(kind: FileKind, error: Seq<char>) -> Seq<char> {
    match kind {
        FileKind::Cache => "无法更新额度缓存："@ + error,
        _ => "无法更新账号文件："@ + error,
    }
}

/// The error of a file that cannot be removed to make room for the draft.
pub fn update_failed(kind: FileKind, error: &str) -> (r: String)
    ensures
        r@ == update_failure(kind, error@),
{
    match kind {
        FileKind::Cache => join2("无法更新额度缓存：", error),
        _ => join2("无法更新账号文件：", error),
    }
}

/// The error of a draft that cannot be renamed to the file.
pub open spec fn rename_failure(kind: FileKind, error: Seq<char>) -> Seq<char> {
    match kind {
        FileKind::Cache => "无法提交额度缓存："@ + error,
        _ => "提交账号文件失败："@ + error,
    }
}

/// The error of a draft that cannot be renamed to the file.
pub fn rename_failed(kind: FileKind, error: &str) -> (r: String)
    ensures
        r@ == rename_failure(kind, error@),
{
    match kind {
        FileKind::Cache => join2("无法提交额度缓存：", error),
        _ => join2("提交账号文件失败：", error),
    }
}

/// What a write asks for. `Commit` moves the draft over the file in one step; where that cannot be
/// done, the file is removed and the draft renamed.
#[derive(Debug)]
pub enum DiskAction {
    CreateParent,
    DraftExists,
    RemoveDraft,
    CreateDraft,
    WriteDraft(Vec<u8>),
    SyncDraft,
    Commit,
    TargetExists,
    RemoveTarget,
    RenameDraft,
}

/// What `DiskAction` says.
#[verifier::ext_equal]
pub enum DiskActionView {
    CreateParent,
    DraftExists,
    RemoveDraft,
    CreateDraft,
    WriteDraft(Seq<u8>),
    SyncDraft,
    Commit,
    TargetExists,
    RemoveTarget,
    RenameDraft,
}

impl View for DiskAction {
    type V = DiskActionView;

    open spec fn view(&self) -> DiskActionView {
        match self {
            DiskAction::CreateParent => DiskActionView::CreateParent,
            DiskAction::DraftExists => DiskActionView::DraftExists,
            DiskAction::RemoveDraft => DiskActionView::RemoveDraft,
            DiskAction::CreateDraft => DiskActionView::CreateDraft,
            DiskAction::WriteDraft(inner) => DiskActionView::WriteDraft(inner@),
            DiskAction::SyncDraft => DiskActionView::SyncDraft,
            DiskAction::Commit => DiskActionView::Commit,
            DiskAction::TargetExists => DiskActionView::TargetExists,
            DiskAction::RemoveTarget => DiskActionView::RemoveTarget,
            DiskAction::RenameDraft => DiskActionView::RenameDraft,
        }
    }
}

/// What comes of it.
#[derive(Debug)]
pub enum DiskEvent {
    Done,
    Present(bool),
    Failed(String),
}

/// What `DiskEvent` says.
#[verifier::ext_equal]
pub enum DiskEventView {
    Done,
    Present(bool),
    Failed(Seq<char>),
}

impl View for DiskEvent {
    type V = DiskEventView;

    open spec fn view(&self) -> DiskEventView {
        match self {
            DiskEvent::Done => DiskEventView::Done,
            DiskEvent::Present(inner) => DiskEventView::Present(*inner),
            DiskEvent::Failed(inner) => DiskEventView::Failed(inner@),
        }
    }
}

/// A write under way.
#[derive(Debug)]
pub enum AtomicWrite {
    Parent { kind: FileKind, windows: bool, bytes: Vec<u8> },
    Stale { kind: FileKind, windows: bool, bytes: Vec<u8> },
    StaleRemoved { kind: FileKind, windows: bool, bytes: Vec<u8> },
    Created { kind: FileKind, windows: bool, bytes: Vec<u8> },
    Written { kind: FileKind, windows: bool },
    Synced { kind: FileKind, windows: bool },
    Committed { kind: FileKind },
    Discarded { kind: FileKind, error: String },
    Target { kind: FileKind },
    TargetRemoved { kind: FileKind },
    Renamed { kind: FileKind },
}

/// What `AtomicWrite` says.
#[verifier::ext_equal]
pub enum AtomicWriteView {
    Parent { kind: FileKind, windows: bool, bytes: Seq<u8> },
    Stale { kind: FileKind, windows: bool, bytes: Seq<u8> },
    StaleRemoved { kind: FileKind, windows: bool, bytes: Seq<u8> },
    Created { kind: FileKind, windows: bool, bytes: Seq<u8> },
    Written { kind: FileKind, windows: bool },
    Synced { kind: FileKind, windows: bool },
    Committed { kind: FileKind },
    Discarded { kind: FileKind, error: Seq<char> },
    Target { kind: FileKind },
    TargetRemoved { kind: FileKind },
    Renamed { kind: FileKind },
}

impl View for AtomicWrite {
    type V = AtomicWriteView;

    open spec fn view(&self) -> AtomicWriteView {
        match self {
            AtomicWrite::Parent { kind, windows, bytes } => AtomicWriteView::Parent {
                kind: *kind,
                windows: *windows,
                bytes: bytes@,
            },
            AtomicWrite::Stale { kind, windows, bytes } => AtomicWriteView::Stale {
                kind: *kind,
                windows: *windows,
                bytes: bytes@,
            },
            AtomicWrite::StaleRemoved { kind, windows, bytes } => AtomicWriteView::StaleRemoved {
                kind: *kind,
                windows: *windows,
                bytes: bytes@,
            },
            AtomicWrite::Created { kind, windows, bytes } => AtomicWriteView::Created {
                kind: *kind,
                windows: *windows,
                bytes: bytes@,
            },
            AtomicWrite::Written { kind, windows } => AtomicWriteView::Written {
                kind: *kind,
                windows: *windows,
            },
            AtomicWrite::Synced { kind, windows } => AtomicWriteView::Synced {
                kind: *kind,
                windows: *windows,
            },
            AtomicWrite::Committed { kind } => AtomicWriteView::Committed {
                kind: *kind,
            },
            AtomicWrite::Discarded { kind, error } => AtomicWriteView::Discarded {
                kind: *kind,
                error: error@,
            },
            AtomicWrite::Target { kind } => AtomicWriteView::Target {
                kind: *kind,
            },
            AtomicWrite::TargetRemoved { kind } => AtomicWriteView::TargetRemoved {
                kind: *kind,
            },
            AtomicWrite::Renamed { kind } => AtomicWriteView::Renamed {
                kind: *kind,
            },
        }
    }
}

/// Writes a file; with `windows` the draft takes its place in one step.
pub open spec fn writing(
    kind: FileKind,
    windows: bool,
    bytes: Seq<u8>,
) -> StepView<DiskActionView, AtomicWriteView, ()> {
    match kind {
        FileKind::Login => if windows {
            StepView::Ask(
                DiskActionView::CreateParent,
                AtomicWriteView::Parent { kind, windows, bytes },
            )
        } else {
            StepView::Done(Err("账号切换当前只支持 Windows"@))
        },
        _ => StepView::Ask(
            DiskActionView::CreateParent,
            AtomicWriteView::Parent { kind, windows, bytes },
        ),
    }
}

/// Writes a file; with `windows` the draft takes its place in one step.
pub fn atomic_write(
    kind: FileKind,
    windows: bool,
    bytes: Vec<u8>,
) -> (r: Step<DiskAction, AtomicWrite, ()>)
    ensures
        r@ == writing(kind, windows, bytes@),
{
    match kind {
        FileKind::Login => if windows {
            Step::Ask(
                DiskAction::CreateParent,
                AtomicWrite::Parent { kind, windows, bytes },
            )
        } else {
            Step::Done(Err("账号切换当前只支持 Windows".to_owned()))
        },
        _ => Step::Ask(DiskAction::CreateParent, AtomicWrite::Parent { kind, windows, bytes }),
    }
}

/// Why something was not done, if it was not.
pub open spec fn disk_failed(event: DiskEventView) -> Option<Seq<char>> {
    match event {
        DiskEventView::Done => None,
        DiskEventView::Failed(error) => Some(error),
        DiskEventView::Present(_) => Some("应答与请求不符"@),
    }
}

/// Why something was not done, if it was not.
pub fn disk_failure(event: DiskEvent) -> (r: Option<String>)
    ensures
        held(r) == disk_failed(event@),
{
    match event {
        DiskEvent::Done => None,
        DiskEvent::Failed(error) => Some(error),
        DiskEvent::Present(_) => Some("应答与请求不符".to_owned()),
    }
}

/// Whether something is there.
pub open spec fn disk_present(event: DiskEventView) -> bool {
    match event {
        DiskEventView::Present(flag) => flag,
        _ => false,
    }
}

/// Whether something is there.
pub fn is_on_disk(event: DiskEvent) -> (r: bool)
    ensures
        r == disk_present(event@),
{
    match event {
        DiskEvent::Present(flag) => flag,
        _ => false,
    }
}

/// Goes on with what came of it.
pub open spec fn write_next(
    state: AtomicWriteView,
    event: DiskEventView,
) -> StepView<DiskActionView, AtomicWriteView, ()> {
    match state {
        AtomicWriteView::Parent { kind, windows, bytes } => match disk_failed(event) {
            Some(error) => StepView::Done(Err(parent_failure(kind, error))),
            None => StepView::Ask(
                DiskActionView::DraftExists,
                AtomicWriteView::Stale { kind, windows, bytes },
            ),
        },
        AtomicWriteView::Stale { kind, windows, bytes } => if disk_present(event) {
            StepView::Ask(
                DiskActionView::RemoveDraft,
                AtomicWriteView::StaleRemoved { kind, windows, bytes },
            )
        } else {
            StepView::Ask(
                DiskActionView::CreateDraft,
                AtomicWriteView::Created { kind, windows, bytes },
            )
        },
        AtomicWriteView::StaleRemoved { kind, windows, bytes } => match disk_failed(event) {
            Some(error) => StepView::Done(Err(stale_failure(kind, error))),
            None => StepView::Ask(
                DiskActionView::CreateDraft,
                AtomicWriteView::Created { kind, windows, bytes },
            ),
        },
        AtomicWriteView::Created { kind, windows, bytes } => match disk_failed(event) {
            Some(error) => StepView::Done(Err(create_failure(kind, error))),
            None => StepView::Ask(
                DiskActionView::WriteDraft(bytes),
                AtomicWriteView::Written { kind, windows },
            ),
        },
        AtomicWriteView::Written { kind, windows } => match disk_failed(event) {
            Some(error) => StepView::Done(Err(write_failure(kind, error))),
            None => StepView::Ask(
                DiskActionView::SyncDraft,
                AtomicWriteView::Synced { kind, windows },
            ),
        },
        AtomicWriteView::Synced { kind, windows } => match disk_failed(event) {
            Some(error) => StepView::Done(Err(sync_failure(kind, error))),
            None => if windows {
                StepView::Ask(DiskActionView::Commit, AtomicWriteView::Committed { kind })
            } else {
                StepView::Ask(DiskActionView::TargetExists, AtomicWriteView::Target { kind })
            },
        },
        AtomicWriteView::Committed { kind } => match disk_failed(event) {
            Some(error) => StepView::Ask(
                DiskActionView::RemoveDraft,
                AtomicWriteView::Discarded { kind, error },
            ),
            None => StepView::Done(Ok(())),
        },
        AtomicWriteView::Discarded { kind, error } => StepView::Done(
            Err(commit_failure(kind, error)),
        ),
        AtomicWriteView::Target { kind } => if disk_present(event) {
            StepView::Ask(DiskActionView::RemoveTarget, AtomicWriteView::TargetRemoved { kind })
        } else {
            StepView::Ask(DiskActionView::RenameDraft, AtomicWriteView::Renamed { kind })
        },
        AtomicWriteView::TargetRemoved { kind } => match disk_failed(event) {
            Some(error) => StepView::Done(Err(update_failure(kind, error))),
            None => StepView::Ask(DiskActionView::RenameDraft, AtomicWriteView::Renamed { kind }),
        },
        AtomicWriteView::Renamed { kind } => match disk_failed(event) {
            Some(error) => StepView::Done(Err(rename_failure(kind, error))),
            None => StepView::Done(Ok(())),
        },
    }
}

impl AtomicWrite {
    /// Goes on with what came of it.
    pub fn resume(self, event: DiskEvent) -> (r: Step<DiskAction, AtomicWrite, ()>)
        ensures
            r@ == write_next(self@, event@),
    {
        match self {
            AtomicWrite::Parent { kind, windows, bytes } => match disk_failure(event) {
                Some(error) => Step::Done(Err(parent_failed(kind, error.as_str()))),
                None => Step::Ask(
                    DiskAction::DraftExists,
                    AtomicWrite::Stale { kind, windows, bytes },
                ),
            },
            AtomicWrite::Stale { kind, windows, bytes } => if is_on_disk(event) {
                Step::Ask(
                    DiskAction::RemoveDraft,
                    AtomicWrite::StaleRemoved { kind, windows, bytes },
                )
            } else {
                Step::Ask(
                    DiskAction::CreateDraft,
                    AtomicWrite::Created { kind, windows, bytes },
                )
            },
            AtomicWrite::StaleRemoved { kind, windows, bytes } => match disk_failure(event) {
                Some(error) => Step::Done(Err(stale_failed(kind, error.as_str()))),
                None => Step::Ask(
                    DiskAction::CreateDraft,
                    AtomicWrite::Created { kind, windows, bytes },
                ),
            },
            AtomicWrite::Created { kind, windows, bytes } => match disk_failure(event) {
                Some(error) => Step::Done(Err(create_failed(kind, error.as_str()))),
                None => Step::Ask(
                    DiskAction::WriteDraft(bytes),
                    AtomicWrite::Written { kind, windows },
                ),
            },
            AtomicWrite::Written { kind, windows } => match disk_failure(event) {
                Some(error) => Step::Done(Err(write_failed(kind, error.as_str()))),
                None => Step::Ask(DiskAction::SyncDraft, AtomicWrite::Synced { kind, windows }),
            },
            AtomicWrite::Synced { kind, windows } => match disk_failure(event) {
                Some(error) => Step::Done(Err(sync_failed(kind, error.as_str()))),
                None => if windows {
                    Step::Ask(DiskAction::Commit, AtomicWrite::Committed { kind })
                } else {
                    Step::Ask(DiskAction::TargetExists, AtomicWrite::Target { kind })
                },
            },
            AtomicWrite::Committed { kind } => match disk_failure(event) {
                Some(error) => Step::Ask(
                    DiskAction::RemoveDraft,
                    AtomicWrite::Discarded { kind, error },
                ),
                None => Step::Done(Ok(())),
            },
            AtomicWrite::Discarded { kind, error } => Step::Done(
                Err(commit_failed(kind, error.as_str())),
            ),
            AtomicWrite::Target { kind } => if is_on_disk(event) {
                Step::Ask(DiskAction::RemoveTarget, AtomicWrite::TargetRemoved { kind })
            } else {
                Step::Ask(DiskAction::RenameDraft, AtomicWrite::Renamed { kind })
            },
            AtomicWrite::TargetRemoved { kind } => match disk_failure(event) {
                Some(error) => Step::Done(Err(update_failed(kind, error.as_str()))),
                None => Step::Ask(DiskAction::RenameDraft, AtomicWrite::Renamed { kind }),
            },
            AtomicWrite::Renamed { kind } => match disk_failure(event) {
                Some(error) => Step::Done(Err(rename_failed(kind, error.as_str()))),
                None => Step::Done(Ok(())),
            },
        }
    }
}

/// A file and its draft: what they hold, if they are there, and whether what the draft holds has
/// reached the disk.
#[verifier::ext_equal]
pub struct Disk {
    pub target: Option<Seq<u8>>,
    pub draft: Option<Seq<u8>>,
    pub synced: bool,
}

/// How an action that was answered by an event changed the disk. A write that fails may have
/// written anything into the draft; whatever else fails has no effect.
pub open spec fn disk_performed(
    before: Disk,
    action: DiskActionView,
    event: DiskEventView,
    after: Disk,
) -> bool {
    match action {
        DiskActionView::RemoveDraft => match event {
            DiskEventView::Done => after == (Disk { draft: None, synced: false, ..before }),
            _ => after == before,
        },
        DiskActionView::CreateDraft => match event {
            DiskEventView::Done => after == (Disk { draft: Some(seq![]), synced: false, ..before }),
            _ => after == before,
        },
        DiskActionView::WriteDraft(bytes) => match event {
            DiskEventView::Done => after == (Disk { draft: Some(bytes), synced: false, ..before }),
            _ => after == (Disk { draft: after.draft, synced: false, ..before }),
        },
        DiskActionView::SyncDraft => match event {
            DiskEventView::Done => after == (Disk { synced: true, ..before }),
            _ => after == before,
        },
        DiskActionView::Commit | DiskActionView::RenameDraft => match event {
            DiskEventView::Done => after == (Disk {
                target: before.draft,
                draft: None,
                synced: false,
            }),
            _ => after == before,
        },
        DiskActionView::RemoveTarget => match event {
            DiskEventView::Done => after == (Disk { target: None, ..before }),
            _ => after == before,
        },
        _ => after == before,
    }
}

/// Whether a write, from a step and a disk, gets to another step and disk.
pub open spec fn disk_leads(
    step: StepView<DiskActionView, AtomicWriteView, ()>,
    disk: Disk,
    history: Seq<(DiskEventView, Disk)>,
    end: StepView<DiskActionView, AtomicWriteView, ()>,
    after: Disk,
) -> bool
    decreases history.len(),
{
    if history.len() == 0 {
        end == step && after == disk
    } else {
        match step {
            StepView::Ask(action, machine) => disk_performed(
                disk,
                action,
                history[0].0,
                history[0].1,
            ) && disk_leads(
                write_next(machine, history[0].0),
                history[0].1,
                history.drop_first(),
                end,
                after,
            ),
            StepView::Done(_) => false,
        }
    }
}

/// What holds of every step of a write.
spec fn write_kept(
    old_target: Option<Seq<u8>>,
    kind: FileKind,
    windows: bool,
    bytes: Seq<u8>,
    step: StepView<DiskActionView, AtomicWriteView, ()>,
    disk: Disk,
) -> bool {
    let ready = disk.draft == Some(bytes) && disk.synced;
    match step {
        StepView::Ask(action, AtomicWriteView::Parent { kind: k, windows: w, bytes: b }) => k
            == kind && w == windows && b == bytes && disk.target == old_target && action
            is CreateParent,
        StepView::Ask(action, AtomicWriteView::Stale { kind: k, windows: w, bytes: b }) => k == kind
            && w == windows && b == bytes && disk.target == old_target && action is DraftExists,
        StepView::Ask(action, AtomicWriteView::StaleRemoved { kind: k, windows: w, bytes: b }) => k
            == kind && w == windows && b == bytes && disk.target == old_target && action
            is RemoveDraft,
        StepView::Ask(action, AtomicWriteView::Created { kind: k, windows: w, bytes: b }) => k
            == kind && w == windows && b == bytes && disk.target == old_target && action
            is CreateDraft,
        StepView::Ask(action, AtomicWriteView::Written { kind: k, windows: w }) => k == kind && w
            == windows && disk.target == old_target && action == DiskActionView::WriteDraft(bytes),
        StepView::Ask(action, AtomicWriteView::Synced { kind: k, windows: w }) => k == kind && w
            == windows && disk.target == old_target && disk.draft == Some(bytes) && action
            is SyncDraft,
        StepView::Ask(action, AtomicWriteView::Committed { kind: k }) => k == kind && windows
            && disk.target == old_target && ready && action is Commit,
        StepView::Ask(action, AtomicWriteView::Discarded { kind: k, .. }) => k == kind
            && disk.target == old_target && action is RemoveDraft,
        StepView::Ask(action, AtomicWriteView::Target { kind: k }) => k == kind && !windows
            && disk.target == old_target && ready && action is TargetExists,
        StepView::Ask(action, AtomicWriteView::TargetRemoved { kind: k }) => k == kind && !windows
            && disk.target == old_target && ready && action is RemoveTarget,
        StepView::Ask(action, AtomicWriteView::Renamed { kind: k }) => k == kind && !windows && (
        disk.target == old_target || disk.target is None) && ready && action is RenameDraft,
        StepView::Done(Ok(_)) => disk.target == Some(bytes) && disk.draft is None,
        StepView::Done(Err(_)) => disk.target == old_target || (!windows && disk.target is None
            && ready),
    }
}

/// What holds of a step of a write holds of every step that is reached.
proof fn lemma_write_kept(
    old_target: Option<Seq<u8>>,
    kind: FileKind,
    windows: bool,
    bytes: Seq<u8>,
    step: StepView<DiskActionView, AtomicWriteView, ()>,
    disk: Disk,
    history: Seq<(DiskEventView, Disk)>,
    end: StepView<DiskActionView, AtomicWriteView, ()>,
    after: Disk,
)
    requires
        disk_leads(step, disk, history, end, after),
        write_kept(old_target, kind, windows, bytes, step, disk),
    ensures
        write_kept(old_target, kind, windows, bytes, end, after),
    decreases history.len(),
{
    if history.len() > 0 {
        if let StepView::Ask(action, machine) = step {
            lemma_write_kept(
                old_target,
                kind,
                windows,
                bytes,
                write_next(machine, history[0].0),
                history[0].1,
                history.drop_first(),
                end,
                after,
            );
        }
    }
}

/// On Windows a file that is written holds at every moment what it held before or all of what is
/// written, never a part of it; if the write succeeds it holds what was written and no draft is
/// left, and if it fails it holds what it held before. What takes its place has reached the disk.
pub proof fn law_file_is_replaced_as_a_whole(
    start: Disk,
    kind: FileKind,
    bytes: Seq<u8>,
    history: Seq<(DiskEventView, Disk)>,
    end: StepView<DiskActionView, AtomicWriteView, ()>,
    after: Disk,
)
    requires
        disk_leads(writing(kind, true, bytes), start, history, end, after),
    ensures
        after.target == start.target || after.target == Some(bytes),
        end matches StepView::Done(Ok(_)) ==> after.target == Some(bytes) && after.draft is None,
        end matches StepView::Done(Err(_)) ==> after.target == start.target,
        end matches StepView::Ask(DiskActionView::Commit, _) ==> after.draft == Some(bytes)
            && after.synced,
{
    lemma_write_kept(
        start.target,
        kind,
        true,
        bytes,
        writing(kind, true, bytes),
        start,
        history,
        end,
        after,
    );
}

/// Elsewhere a file that is written may be missing for a moment, while its draft holds all of what
/// is written and has reached the disk; it never holds a part of it. If the write succeeds no draft
/// is left.
pub proof fn law_file_is_never_written_in_part(
    start: Disk,
    kind: FileKind,
    windows: bool,
    bytes: Seq<u8>,
    history: Seq<(DiskEventView, Disk)>,
    end: StepView<DiskActionView, AtomicWriteView, ()>,
    after: Disk,
)
    requires
        disk_leads(writing(kind, windows, bytes), start, history, end, after),
    ensures
        after.target == start.target || after.target == Some(bytes) || (after.target is None
            && after.draft == Some(bytes) && after.synced),
        end matches StepView::Done(Ok(_)) ==> after.target == Some(bytes) && after.draft is None,
{
    lemma_write_kept(
        start.target,
        kind,
        windows,
        bytes,
        writing(kind, windows, bytes),
        start,
        history,
        end,
        after,
    );
}

/// The machine of a write.
pub open spec fn write_machine() -> spec_fn(
    AtomicWriteView,
    DiskEventView,
) -> StepView<DiskActionView, AtomicWriteView, ()> {
    |machine: AtomicWriteView, event: DiskEventView| write_next(machine, event)
}

/// A write in which nothing fails: the directory is made, a draft that was left is removed, the
/// draft is created, written and synchronized, and takes the place of the file. On Windows that is
/// one step; elsewhere the file that is there is removed first, and what belongs to a login is not
/// written at all.
pub proof fn law_course_of_a_write(kind: FileKind, bytes: Seq<u8>, stale: bool, there: bool)
    ensures
        ({
            let done = DiskEventView::Done;
            let begin = seq![DiskActionView::CreateParent, DiskActionView::DraftExists];
            let clear = if stale {
                seq![DiskActionView::RemoveDraft]
            } else {
                Seq::<DiskActionView>::empty()
            };
            let write = seq![
                DiskActionView::CreateDraft,
                DiskActionView::WriteDraft(bytes),
                DiskActionView::SyncDraft,
            ];
            let first = seq![done, DiskEventView::Present(stale)];
            let middle = if stale {
                seq![done, done, done, done]
            } else {
                seq![done, done, done]
            };
            let well = StepView::<DiskActionView, AtomicWriteView, ()>::Done(Ok(()));
            &&& asked(write_machine(), writing(kind, true, bytes), first + middle + seq![done])
                == begin + clear + write + seq![DiskActionView::Commit]
            &&& reached(write_machine(), writing(kind, true, bytes), first + middle + seq![done])
                == well
            &&& !(kind is Login) ==> {
                let target = if there {
                    seq![
                        DiskActionView::TargetExists,
                        DiskActionView::RemoveTarget,
                        DiskActionView::RenameDraft,
                    ]
                } else {
                    seq![DiskActionView::TargetExists, DiskActionView::RenameDraft]
                };
                let last = if there {
                    seq![DiskEventView::Present(true), done, done]
                } else {
                    seq![DiskEventView::Present(false), done]
                };
                &&& asked(write_machine(), writing(kind, false, bytes), first + middle + last)
                    == begin + clear + write + target
                &&& reached(write_machine(), writing(kind, false, bytes), first + middle + last)
                    == well
            }
            &&& kind is Login ==> writing(kind, false, bytes) == StepView::<
                DiskActionView,
                AtomicWriteView,
                (),
            >::Done(Err("账号切换当前只支持 Windows"@))
        }),
{
    lemma_draft_course(kind, true, bytes, stale);
    let done = DiskEventView::Done;
    let machine = write_machine();
    let first = seq![done, DiskEventView::Present(stale)];
    let middle = if stale {
        seq![done, done, done, done]
    } else {
        seq![done, done, done]
    };
    let start = writing(kind, true, bytes);
    reveal_with_fuel(asked, 4);
    reveal_with_fuel(reached, 4);
    lemma_course_join(machine, start, first + middle, seq![done]);
    let committing = StepView::<DiskActionView, AtomicWriteView, ()>::Ask(
        DiskActionView::Commit,
        AtomicWriteView::Committed { kind },
    );
    assert(asked(machine, committing, seq![done]) =~= seq![DiskActionView::Commit]);
    let head = draft_requests(bytes, stale);
    assert((head + seq![DiskActionView::Commit]).drop_last() =~= head);
    if !(kind is Login) {
        lemma_draft_course(kind, false, bytes, stale);
        let begun = writing(kind, false, bytes);
        let last = if there {
            seq![DiskEventView::Present(true), done, done]
        } else {
            seq![DiskEventView::Present(false), done]
        };
        lemma_course_join(machine, begun, first + middle, last);
        let looking = StepView::<DiskActionView, AtomicWriteView, ()>::Ask(
            DiskActionView::TargetExists,
            AtomicWriteView::Target { kind },
        );
        if there {
            assert(asked(machine, looking, last) =~= seq![
                DiskActionView::TargetExists,
                DiskActionView::RemoveTarget,
                DiskActionView::RenameDraft,
            ]);
        } else {
            assert(asked(machine, looking, last) =~= seq![
                DiskActionView::TargetExists,
                DiskActionView::RenameDraft,
            ]);
        }
        assert((head + seq![DiskActionView::TargetExists]).drop_last() =~= head);
    }
}

/// What is asked for up to the moment at which the draft is ready.
spec fn draft_requests(bytes: Seq<u8>, stale: bool) -> Seq<DiskActionView> {
    let begin = seq![DiskActionView::CreateParent, DiskActionView::DraftExists];
    let clear = if stale {
        seq![DiskActionView::RemoveDraft]
    } else {
        Seq::<DiskActionView>::empty()
    };
    begin + clear + seq![
        DiskActionView::CreateDraft,
        DiskActionView::WriteDraft(bytes),
        DiskActionView::SyncDraft,
    ]
}

/// A write up to the moment at which the draft is ready.
proof fn lemma_draft_course(kind: FileKind, windows: bool, bytes: Seq<u8>, stale: bool)
    requires
        windows || !(kind is Login),
    ensures
        ({
            let done = DiskEventView::Done;
            let first = seq![done, DiskEventView::Present(stale)];
            let middle = if stale {
                seq![done, done, done, done]
            } else {
                seq![done, done, done]
            };
            let next = if windows {
                DiskActionView::Commit
            } else {
                DiskActionView::TargetExists
            };
            let state = if windows {
                AtomicWriteView::Committed { kind }
            } else {
                AtomicWriteView::Target { kind }
            };
            &&& asked(write_machine(), writing(kind, windows, bytes), first + middle)
                == draft_requests(bytes, stale) + seq![next]
            &&& reached(write_machine(), writing(kind, windows, bytes), first + middle)
                == StepView::<DiskActionView, AtomicWriteView, ()>::Ask(next, state)
        }),
{
    reveal_with_fuel(asked, 8);
    reveal_with_fuel(reached, 8);
    let done = DiskEventView::Done;
    let first = seq![done, DiskEventView::Present(stale)];
    let middle = if stale {
        seq![done, done, done, done]
    } else {
        seq![done, done, done]
    };
    let next = if windows {
        DiskActionView::Commit
    } else {
        DiskActionView::TargetExists
    };
    let start = writing(kind, windows, bytes);
    if stale {
        let events = seq![done, DiskEventView::Present(true), done, done, done, done];
        assert(first + middle =~= events);
        assert(asked(write_machine(), start, events) =~= draft_requests(bytes, stale) + seq![next]);
    } else {
        let events = seq![done, DiskEventView::Present(false), done, done, done];
        assert(first + middle =~= events);
        assert(asked(write_machine(), start, events) =~= draft_requests(bytes, stale) + seq![next]);
    }
}

/// A draft that cannot take the place of the file is removed, and why is told; whatever else fails
/// ends the write, and is told too. A draft has a name of its own beside the file.
pub proof fn law_failure_of_a_write_is_told(
    kind: FileKind,
    windows: bool,
    bytes: Seq<u8>,
    error: Seq<char>,
    any: DiskEventView,
    name: Seq<char>,
)
    ensures
        ({
            let failed = DiskEventView::Failed(error);
            let told = |state: AtomicWriteView, heading: Seq<char>|
                write_next(state, failed) == StepView::<DiskActionView, AtomicWriteView, ()>::Done(
                    Err(heading + error),
                );
            let saved = FileKind::Saved;
            let login = FileKind::Login;
            let cache = FileKind::Cache;
            &&& write_next(AtomicWriteView::Committed { kind }, failed) == StepView::<
                DiskActionView,
                AtomicWriteView,
                (),
            >::Ask(DiskActionView::RemoveDraft, AtomicWriteView::Discarded { kind, error })
            &&& write_next(AtomicWriteView::Discarded { kind, error }, any) matches StepView::Done(
                Err(all),
            ) && all == (match kind {
                FileKind::Saved => "原子提交账号文件失败："@,
                FileKind::Login => "原子替换认证文件失败："@,
                FileKind::Cache => "原子提交额度缓存失败："@,
            }) + error
            &&& told(
                AtomicWriteView::Parent { kind: login, windows, bytes },
                "无法创建认证目录："@,
            )
            &&& told(
                AtomicWriteView::Parent { kind: cache, windows, bytes },
                "无法创建缓存目录："@,
            )
            &&& told(
                AtomicWriteView::StaleRemoved { kind: saved, windows, bytes },
                "无法清理旧临时文件："@,
            )
            &&& told(
                AtomicWriteView::StaleRemoved { kind: login, windows, bytes },
                "无法清理旧切换临时文件："@,
            )
            &&& told(
                AtomicWriteView::Created { kind: saved, windows, bytes },
                "写入临时文件失败："@,
            )
            &&& told(
                AtomicWriteView::Created { kind: login, windows, bytes },
                "无法创建切换临时文件："@,
            )
            &&& told(
                AtomicWriteView::Written { kind: saved, windows },
                "写入临时文件失败："@,
            )
            &&& told(
                AtomicWriteView::Written { kind: login, windows },
                "无法写入切换临时文件："@,
            )
            &&& told(
                AtomicWriteView::Synced { kind: saved, windows },
                "同步临时文件失败："@,
            )
            &&& told(
                AtomicWriteView::Synced { kind: login, windows },
                "无法同步切换临时文件："@,
            )
            &&& told(AtomicWriteView::TargetRemoved { kind: saved }, "无法更新账号文件："@)
            &&& told(AtomicWriteView::Renamed { kind: saved }, "提交账号文件失败："@)
            &&& draft_of(saved, name) == "."@ + name + ".tmp"@
            &&& draft_of(login, name) == ".auth.json.codex-account-hub.tmp"@
            &&& draft_of(cache, name) == ".usage-cache.json.tmp"@
        }),
{
}

} // verus!
