//! The processes that the hub starts: which one a record means, and when it may be ended.

use vstd::prelude::*;
use vstd::string::*;

use crate::effects::{failure, failure_text, Action, ActionView, Event, EventView, Step, StepView};
use crate::text::{decimal, join3, number_text, outcome, same};

verus! {

/// A process by its number, the time it was created and the program it runs.
#[derive(Debug)]
pub struct Identity {
    pub pid: u32,
    pub created: u64,
    pub image: String,
}

/// What `Identity` says.
#[verifier::ext_equal]
pub struct IdentityView {
    pub pid: u32,
    pub created: u64,
    pub image: Seq<char>,
}

impl View for Identity {
    type V = IdentityView;

    open spec fn view(&self) -> IdentityView {
        IdentityView {
            pid: self.pid,
            created: self.created,
            image: self.image@,
        }
    }
}

/// A process that the hub started, and the hub that started it.
#[derive(Debug)]
pub struct Record {
    pub version: u32,
    pub process: Identity,
    pub owner: Identity,
}

/// What `Record` says.
#[verifier::ext_equal]
pub struct RecordView {
    pub version: u32,
    pub process: IdentityView,
    pub owner: IdentityView,
}

impl View for Record {
    type V = RecordView;

    open spec fn view(&self) -> RecordView {
        RecordView {
            version: self.version,
            process: self.process@,
            owner: self.owner@,
        }
    }
}

/// What a home says of the process that works there; an old record has its number only.
#[derive(Debug)]
pub enum ChildRecord {
    Verified(Record),
    Legacy(u32),
}

/// What `ChildRecord` says.
#[verifier::ext_equal]
pub enum ChildRecordView {
    Verified(RecordView),
    Legacy(u32),
}

impl View for ChildRecord {
    type V = ChildRecordView;

    open spec fn view(&self) -> ChildRecordView {
        match self {
            ChildRecord::Verified(inner) => ChildRecordView::Verified(inner@),
            ChildRecord::Legacy(inner) => ChildRecordView::Legacy(*inner),
        }
    }
}

impl Clone for Identity {
    fn clone(&self) -> (r: Identity)
        ensures
            r == *self,
    {
        Identity { pid: self.pid, created: self.created, image: self.image.clone() }
    }
}

/// Whether two identities are the same.
pub fn same_identity(a: &Identity, b: &Identity) -> (r: bool)
    ensures
        r == (a@ == b@),
{
    a.pid == b.pid && a.created == b.created && same(a.image.as_str(), b.image.as_str())
}

/// The version of the records that the hub writes.
pub const RECORD_VERSION: u32 = 1;

/// How long to wait for a process that was told to end, in milliseconds.
pub const STOP_WAIT: u64 = 3000;

/// Whether a process is the one that is meant and still runs, from what it was found to be.
///
/// A process that has the same number but was created at another time or runs another program is
/// not the one that is meant.
pub open spec fn running_reply(
    event: EventView,
    identity: IdentityView,
) -> Result<bool, Seq<char>> {
    match event {
        EventView::Gone => Ok(false),
        EventView::Exited => Ok(false),
        EventView::Alive(found) => Ok((found == identity)),
        other => Err(failure_text(other)),
    }
}

/// Whether a process is the one that is meant and still runs, from what it was found to be.
///
/// A process that has the same number but was created at another time or runs another program is
/// not the one that is meant.
pub fn running(event: Event, identity: &Identity) -> (r: Result<bool, String>)
    ensures
        outcome(r) == running_reply(event@, identity@),
{
    match event {
        Event::Gone => Ok(false),
        Event::Exited => Ok(false),
        Event::Alive(found) => Ok(same_identity(&found, identity)),
        other => Err(failure(other)),
    }
}

/// Whether any process with a number runs.
pub open spec fn legacy_reply(event: EventView) -> Result<bool, Seq<char>> {
    match event {
        EventView::Present(flag) => Ok(flag),
        other => Err(failure_text(other)),
    }
}

/// Whether any process with a number runs.
pub fn legacy_running(event: Event) -> (r: Result<bool, String>)
    ensures
        outcome(r) == legacy_reply(event@),
{
    match event {
        Event::Present(flag) => Ok(flag),
        other => Err(failure(other)),
    }
}

/// The identity of a process that was looked up by its number.
pub open spec fn capture_reply(event: EventView) -> Result<IdentityView, Seq<char>> {
    match event {
        EventView::Alive(identity) => Ok(identity),
        EventView::Gone => Err("子进程已退出"@),
        other => Err(failure_text(other)),
    }
}

/// The identity of a process that was looked up by its number.
pub fn capture(event: Event) -> (r: Result<Identity, String>)
    ensures
        outcome(r) == capture_reply(event@),
{
    match event {
        Event::Alive(identity) => Ok(identity),
        Event::Gone => Err("子进程已退出".to_owned()),
        other => Err(failure(other)),
    }
}

/// Ending a process that an earlier run left.
///
/// It is ended only if it still is the process of the record, if it is not the hub itself, and if
/// the hub that started it is this one or no longer runs. Its identity is checked once more
/// through the hold by which it is ended, so that another process that was given its number in
/// the meantime is not touched.
#[derive(Debug)]
pub enum Stop {
    Process { record: Record, own: u32 },
    Own { record: Record },
    Owner { record: Record },
    Held { process: Identity },
    Terminated { pid: u32 },
    Survived { pid: u32 },
    Waited { pid: u32 },
}

/// What `Stop` says.
#[verifier::ext_equal]
pub enum StopView {
    Process { record: RecordView, own: u32 },
    Own { record: RecordView },
    Owner { record: RecordView },
    Held { process: IdentityView },
    Terminated { pid: u32 },
    Survived { pid: u32 },
    Waited { pid: u32 },
}

impl View for Stop {
    type V = StopView;

    open spec fn view(&self) -> StopView {
        match self {
            Stop::Process { record, own } => StopView::Process {
                record: record@,
                own: *own,
            },
            Stop::Own { record } => StopView::Own {
                record: record@,
            },
            Stop::Owner { record } => StopView::Owner {
                record: record@,
            },
            Stop::Held { process } => StopView::Held {
                process: process@,
            },
            Stop::Terminated { pid } => StopView::Terminated {
                pid: *pid,
            },
            Stop::Survived { pid } => StopView::Survived {
                pid: *pid,
            },
            Stop::Waited { pid } => StopView::Waited {
                pid: *pid,
            },
        }
    }
}

/// Ends the process of a record; `own` is the number of the process that asks.
pub open spec fn stopping(record: RecordView, own: u32) -> StepView<ActionView, StopView, ()> {
    if record.version != RECORD_VERSION {
        StepView::Done(Err("子进程记录版本不受支持"@))
    } else {
        StepView::Ask(ActionView::Observe(record.process.pid), StopView::Process { record, own })
    }
}

/// Ends the process of a record; `own` is the number of the process that asks.
pub fn stop(record: Record, own: u32) -> (r: Step<Action, Stop, ()>)
    ensures
        r@ == stopping(record@, own),
{
    if record.version != RECORD_VERSION {
        Step::Done(Err("子进程记录版本不受支持".to_owned()))
    } else {
        Step::Ask(Action::Observe(record.process.pid), Stop::Process { record, own })
    }
}

/// Takes hold of the process that is to be ended.
pub open spec fn stop_hold(process: IdentityView) -> StepView<ActionView, StopView, ()> {
    StepView::Ask(ActionView::Hold(process.pid), StopView::Held { process })
}

/// Takes hold of the process that is to be ended.
pub fn hold_process(process: Identity) -> (r: Step<Action, Stop, ()>)
    ensures
        r@ == stop_hold(process@),
{
    Step::Ask(Action::Hold(process.pid), Stop::Held { process })
}

/// Goes on with the answer to what was asked.
pub open spec fn stop_next(
    state: StopView,
    event: EventView,
) -> StepView<ActionView, StopView, ()> {
    match state {
        StopView::Process { record, own } => match running_reply(event, record.process) {
            Err(error) => StepView::Done(Err(error)),
            Ok(false) => StepView::Done(Ok(())),
            Ok(true) => if record.process.pid == own {
                StepView::Done(Err("恢复记录指向管理器自身，已拒绝结束进程"@))
            } else {
                StepView::Ask(ActionView::Identify(own), StopView::Own { record })
            },
        },
        StopView::Own { record } => match capture_reply(event) {
            Err(error) => StepView::Done(Err(error)),
            Ok(current) => if record.owner == current {
                stop_hold(record.process)
            } else {
                StepView::Ask(ActionView::Observe(record.owner.pid), StopView::Owner { record })
            },
        },
        StopView::Owner { record } => match running_reply(event, record.owner) {
            Err(error) => StepView::Done(Err(error)),
            Ok(true) => StepView::Done(
                Err("子进程仍由另一正在运行的管理器使用，请退出另一实例后重试恢复"@),
            ),
            Ok(false) => stop_hold(record.process),
        },
        StopView::Held { process } => match running_reply(event, process) {
            Err(error) => StepView::Done(Err(error)),
            Ok(false) => StepView::Done(Ok(())),
            Ok(true) => StepView::Ask(
                ActionView::TerminateHeld,
                StopView::Terminated { pid: process.pid },
            ),
        },
        StopView::Terminated { pid } => match event {
            EventView::Done => StepView::Ask(
                ActionView::WaitHeld(STOP_WAIT),
                StopView::Waited { pid },
            ),
            _ => StepView::Ask(ActionView::ObserveHeld, StopView::Survived { pid }),
        },
        StopView::Survived { pid } => match legacy_reply(event) {
            Err(error) => StepView::Done(Err(error)),
            Ok(true) => StepView::Done(
                Err(
                    "无法结束遗留子进程 PID "@ + decimal((pid as u64) as nat) + "，请重试恢复"@,
                ),
            ),
            Ok(false) => StepView::Ask(ActionView::WaitHeld(STOP_WAIT), StopView::Waited { pid }),
        },
        StopView::Waited { pid } => match event {
            EventView::Exited => StepView::Done(Ok(())),
            _ => StepView::Done(
                Err(
                    "遗留子进程 PID "@ + decimal((pid as u64) as nat) + " 尚未退出，请重试恢复"@,
                ),
            ),
        },
    }
}

impl Stop {
    /// Goes on with the answer to what was asked.
    pub fn resume(self, event: Event) -> (r: Step<Action, Stop, ()>)
        ensures
            r@ == stop_next(self@, event@),
    {
        match self {
            Stop::Process { record, own } => match running(event, &record.process) {
                Err(error) => Step::Done(Err(error)),
                Ok(false) => Step::Done(Ok(())),
                Ok(true) => if record.process.pid == own {
                    Step::Done(Err("恢复记录指向管理器自身，已拒绝结束进程".to_owned()))
                } else {
                    Step::Ask(Action::Identify(own), Stop::Own { record })
                },
            },
            Stop::Own { record } => match capture(event) {
                Err(error) => Step::Done(Err(error)),
                Ok(current) => if same_identity(&record.owner, &current) {
                    hold_process(record.process)
                } else {
                    Step::Ask(Action::Observe(record.owner.pid), Stop::Owner { record })
                },
            },
            Stop::Owner { record } => match running(event, &record.owner) {
                Err(error) => Step::Done(Err(error)),
                Ok(true) => Step::Done(
                    Err("子进程仍由另一正在运行的管理器使用，请退出另一实例后重试恢复".to_owned()),
                ),
                Ok(false) => hold_process(record.process),
            },
            Stop::Held { process } => match running(event, &process) {
                Err(error) => Step::Done(Err(error)),
                Ok(false) => Step::Done(Ok(())),
                Ok(true) => Step::Ask(
                    Action::TerminateHeld,
                    Stop::Terminated { pid: process.pid },
                ),
            },
            Stop::Terminated { pid } => match event {
                Event::Done => Step::Ask(Action::WaitHeld(STOP_WAIT), Stop::Waited { pid }),
                _ => Step::Ask(Action::ObserveHeld, Stop::Survived { pid }),
            },
            Stop::Survived { pid } => match legacy_running(event) {
                Err(error) => Step::Done(Err(error)),
                Ok(true) => Step::Done(
                    Err(
                        join3(
                            "无法结束遗留子进程 PID ",
                            number_text(pid as u64).as_str(),
                            "，请重试恢复",
                        ),
                    ),
                ),
                Ok(false) => Step::Ask(Action::WaitHeld(STOP_WAIT), Stop::Waited { pid }),
            },
            Stop::Waited { pid } => match event {
                Event::Exited => Step::Done(Ok(())),
                _ => Step::Done(
                    Err(
                        join3(
                            "遗留子进程 PID ",
                            number_text(pid as u64).as_str(),
                            " 尚未退出，请重试恢复",
                        ),
                    ),
                ),
            },
        }
    }
}

} // verus!
