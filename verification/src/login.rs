//! The login that is in progress, and how it is cancelled.

use vstd::prelude::*;
use vstd::string::*;
use vstd::utf8::encode_utf8;

use crate::effects::{Step, StepView};
use crate::text::{held, join2, join3, outcome, same};

verus! {

/// The error of a login that was cancelled.
pub const CANCELLED: &'static str = "登录已取消";

/// The longest request id, in bytes.
pub const MAX_REQUEST_ID: usize = 80;

/// How long to wait for a process before looking again, in milliseconds.
pub const POLL_PAUSE: u64 = 50;

/// How long a login may take, in seconds.
pub const LOGIN_DEADLINE: u64 = 600;

/// A login in progress: who asked for it, and how far it is.
#[derive(Debug)]
pub struct Progress {
    pub request_id: String,
    pub phase: &'static str,
}

/// What `Progress` says.
#[verifier::ext_equal]
pub struct ProgressView {
    pub request_id: Seq<char>,
    pub phase: Seq<char>,
}

impl View for Progress {
    type V = ProgressView;

    open spec fn view(&self) -> ProgressView {
        ProgressView { request_id: self.request_id@, phase: self.phase@ }
    }
}

impl Clone for Progress {
    fn clone(&self) -> (r: Progress)
        ensures
            r == *self,
    {
        Progress { request_id: self.request_id.clone(), phase: self.phase }
    }
}

/// The login in progress, if there is one.
#[derive(Debug)]
pub struct LoginState {
    pub active: Option<Progress>,
}

impl View for LoginState {
    type V = Option<ProgressView>;

    open spec fn view(&self) -> Option<ProgressView> {
        held(self.active)
    }
}

/// The right to carry out a login.
#[derive(Debug)]
pub struct Session {
    request_id: String,
}

impl View for Session {
    type V = Seq<char>;

    closed spec fn view(&self) -> Seq<char> {
        self.request_id@
    }
}

/// Whether a text can be the id of a request.
pub open spec fn is_request_id(id: Seq<char>) -> bool {
    id.len() > 0 && encode_utf8(id).len() <= MAX_REQUEST_ID
}

/// Whether a login may begin: why not, if it may not.
pub open spec fn begin_verdict(state: Option<ProgressView>, id: Seq<char>) -> Result<
    (),
    Seq<char>,
> {
    if !is_request_id(id) {
        Err("登录请求标识无效"@)
    } else if state is Some {
        Err("已有登录进行中"@)
    } else {
        Ok(())
    }
}

/// The state after a request to begin a login.
pub open spec fn begun(state: Option<ProgressView>, id: Seq<char>) -> Option<ProgressView> {
    match begin_verdict(state, id) {
        Ok(_) => Some(ProgressView { request_id: id, phase: "queued"@ }),
        Err(_) => state,
    }
}

/// Whether a login can be cancelled by a request: it is its own, and it is not being saved.
pub open spec fn can_cancel(state: Option<ProgressView>, id: Seq<char>) -> bool {
    match state {
        Some(progress) => progress.request_id == id && progress.phase != "saving"@,
        None => false,
    }
}

/// The state after a request to cancel a login.
pub open spec fn cancelled(state: Option<ProgressView>, id: Seq<char>) -> Option<ProgressView> {
    if can_cancel(state, id) {
        Some(ProgressView { request_id: id, phase: "cancelling"@ })
    } else {
        state
    }
}

/// The state after a login came to a phase, and what is then known of it.
pub open spec fn phase_verdict(state: Option<ProgressView>, phase: Seq<char>) -> Result<
    ProgressView,
    Seq<char>,
> {
    match state {
        None => Err("登录已经结束"@),
        Some(progress) => if progress.phase == "cancelling"@ {
            Err(CANCELLED@)
        } else {
            Ok(ProgressView { phase, ..progress })
        },
    }
}

/// The state after a login came to a phase.
pub open spec fn phased(state: Option<ProgressView>, phase: Seq<char>) -> Option<ProgressView> {
    match phase_verdict(state, phase) {
        Ok(progress) => Some(progress),
        Err(_) => state,
    }
}

/// Whether a login may go on: why not, if it may not.
pub open spec fn check_verdict(state: Option<ProgressView>) -> Result<(), Seq<char>> {
    match state {
        None => Err(CANCELLED@),
        Some(progress) => if progress.phase == "cancelling"@ {
            Err(CANCELLED@)
        } else {
            Ok(())
        },
    }
}

/// The state after a session ended.
pub open spec fn ended(state: Option<ProgressView>, id: Seq<char>) -> Option<ProgressView> {
    match state {
        Some(progress) => if progress.request_id == id {
            None
        } else {
            state
        },
        None => None,
    }
}

impl Default for LoginState {
    /// No login.
    fn default() -> (r: LoginState)
        ensures
            r@ is None,
    {
        LoginState { active: None }
    }
}

impl LoginState {
    /// Begins a login, if none is in progress.
    pub fn begin(&mut self, request_id: String) -> (r: Result<Session, String>)
        ensures
            outcome(r) == (match begin_verdict(old(self)@, request_id@) {
                Ok(_) => Ok::<Seq<char>, Seq<char>>(request_id@),
                Err(error) => Err(error),
            }),
            final(self)@ == begun(old(self)@, request_id@),
    {
        if request_id.as_str().is_empty() || request_id.as_str().as_bytes().len()
            > MAX_REQUEST_ID {
            return Err("登录请求标识无效".to_owned());
        }
        if self.active.is_some() {
            return Err("已有登录进行中".to_owned());
        }
        self.active = Some(Progress { request_id: request_id.clone(), phase: "queued" });
        Ok(Session { request_id })
    }

    /// Cancels a login: only the one that was asked for under this id, and only until it is
    /// saved. Says whether it was cancelled.
    pub fn cancel(&mut self, request_id: &str) -> (r: Result<bool, String>)
        ensures
            r == Ok::<bool, String>(can_cancel(old(self)@, request_id@)),
            final(self)@ == cancelled(old(self)@, request_id@),
    {
        let cancels: bool = match &self.active {
            Some(progress) => same(progress.request_id.as_str(), request_id) && !same(
                progress.phase,
                "saving",
            ),
            None => false,
        };
        if cancels {
            self.active =
            Some(Progress { request_id: request_id.to_owned(), phase: "cancelling" });
        }
        Ok(cancels)
    }
}

impl Session {
    /// Comes to a phase of the login, unless it was cancelled or has ended.
    pub fn phase(&self, state: &mut LoginState, phase: &'static str) -> (r: Result<
        Progress,
        String,
    >)
        ensures
            outcome(r) == phase_verdict(old(state)@, phase@),
            final(state)@ == phased(old(state)@, phase@),
    {
        let request_id = match &state.active {
            None => {
                return Err("登录已经结束".to_owned());
            },
            Some(progress) => {
                if same(progress.phase, "cancelling") {
                    return Err(CANCELLED.to_owned());
                }
                progress.request_id.clone()
            },
        };
        let progress = Progress { request_id, phase };
        state.active = Some(progress.clone());
        Ok(progress)
    }

    /// Says whether the login may go on.
    pub fn check(&self, state: &LoginState) -> (r: Result<(), String>)
        ensures
            outcome(r) == check_verdict(state@),
    {
        match &state.active {
            None => Err(CANCELLED.to_owned()),
            Some(progress) => if same(progress.phase, "cancelling") {
                Err(CANCELLED.to_owned())
            } else {
                Ok(())
            },
        }
    }

    /// Ends the session: its login, if it is still the one in progress, is no longer.
    pub fn end(self, state: &mut LoginState)
        ensures
            final(state)@ == ended(old(state)@, self@),
    {
        let own: bool = match &state.active {
            Some(progress) => same(progress.request_id.as_str(), self.request_id.as_str()),
            None => false,
        };
        if own {
            state.active = None;
        }
    }
}

/// A request cancels no login but its own.
pub proof fn law_cancellation_is_scoped(state: Option<ProgressView>, id: Seq<char>)
    requires
        state matches Some(progress) ==> progress.request_id != id,
    ensures
        !can_cancel(state, id),
        cancelled(state, id) == state,
{
}

/// A login that is being saved is not cancelled.
pub proof fn law_saving_is_not_interrupted(state: Option<ProgressView>, id: Seq<char>)
    requires
        phase_verdict(state, "saving"@) is Ok,
    ensures
        !can_cancel(phased(state, "saving"@), id),
        cancelled(phased(state, "saving"@), id) == phased(state, "saving"@),
{
}

/// A login that was cancelled comes to no other phase and may not go on.
pub proof fn law_cancelled_login_stops(
    state: Option<ProgressView>,
    id: Seq<char>,
    phase: Seq<char>,
)
    requires
        can_cancel(state, id),
    ensures
        phase_verdict(cancelled(state, id), phase) == Err::<ProgressView, Seq<char>>(CANCELLED@),
        phased(cancelled(state, id), phase) == cancelled(state, id),
        check_verdict(cancelled(state, id)) == Err::<(), Seq<char>>(CANCELLED@),
{
}

/// Only one login is in progress, and it is followed by another only when its session ends: until
/// then a request to begin is refused and changes nothing.
pub proof fn law_one_login_at_a_time(state: Option<ProgressView>, id: Seq<char>, next: Seq<char>)
    requires
        begin_verdict(state, id) is Ok,
        is_request_id(next),
    ensures
        begin_verdict(begun(state, id), next) == Err::<(), Seq<char>>("已有登录进行中"@),
        begun(begun(state, id), next) == begun(state, id),
        begin_verdict(ended(begun(state, id), id), next) is Ok,
{
}

/// A session that ends late does not end the login of another.
pub proof fn law_late_end_is_harmless(state: Option<ProgressView>, id: Seq<char>)
    requires
        state matches Some(progress) ==> progress.request_id != id,
    ensures
        ended(state, id) == state,
{
}

/// What waiting asks for: to go on with what is waited for, for a short while, or to end and reap
/// the process.
#[derive(Debug)]
pub enum WaitAction {
    Poll(u64),
    Kill,
    Reap,
}

/// What `WaitAction` says.
#[verifier::ext_equal]
pub enum WaitActionView {
    Poll(u64),
    Kill,
    Reap,
}

impl View for WaitAction {
    type V = WaitActionView;

    open spec fn view(&self) -> WaitActionView {
        match self {
            WaitAction::Poll(inner) => WaitActionView::Poll(*inner),
            WaitAction::Kill => WaitActionView::Kill,
            WaitAction::Reap => WaitActionView::Reap,
        }
    }
}

/// What comes of it: the process still runs, or it has ended well or not, or the request was
/// carried out, or it failed.
#[derive(Debug)]
pub enum WaitEvent {
    Running,
    Ended { success: bool },
    Done,
    Failed(String),
}

/// What `WaitEvent` says.
#[verifier::ext_equal]
pub enum WaitEventView {
    Running,
    Ended { success: bool },
    Done,
    Failed(Seq<char>),
}

impl View for WaitEvent {
    type V = WaitEventView;

    open spec fn view(&self) -> WaitEventView {
        match self {
            WaitEvent::Running => WaitEventView::Running,
            WaitEvent::Ended { success } => WaitEventView::Ended {
                success: *success,
            },
            WaitEvent::Done => WaitEventView::Done,
            WaitEvent::Failed(inner) => WaitEventView::Failed(inner@),
        }
    }
}

/// Waiting for a login process.
#[derive(Debug)]
pub enum WaitChild {
    Polled,
    Killed { reason: String },
    Reaped { reason: String },
}

/// What `WaitChild` says.
#[verifier::ext_equal]
pub enum WaitChildView {
    Polled,
    Killed { reason: Seq<char> },
    Reaped { reason: Seq<char> },
}

impl View for WaitChild {
    type V = WaitChildView;

    open spec fn view(&self) -> WaitChildView {
        match self {
            WaitChild::Polled => WaitChildView::Polled,
            WaitChild::Killed { reason } => WaitChildView::Killed {
                reason: reason@,
            },
            WaitChild::Reaped { reason } => WaitChildView::Reaped {
                reason: reason@,
            },
        }
    }
}

/// Goes on waiting for something that is or is not ready, if the login may go on.
pub open spec fn wait_turn(
    ready: bool,
    check: Result<(), Seq<char>>,
) -> StepView<WaitActionView, WaitChildView, ()> {
    match check {
        Err(error) => StepView::Done(Err(error)),
        Ok(_) => if ready {
            StepView::Done(Ok(()))
        } else {
            StepView::Ask(WaitActionView::Poll(POLL_PAUSE), WaitChildView::Polled)
        },
    }
}

/// Goes on waiting for something that is or is not ready, if the login may go on.
pub fn wait(ready: bool, check: Result<(), String>) -> (r: Step<WaitAction, WaitChild, ()>)
    ensures
        r@ == wait_turn(ready, outcome(check)),
{
    match check {
        Err(error) => Step::Done(Err(error)),
        Ok(_) => if ready {
            Step::Done(Ok(()))
        } else {
            Step::Ask(WaitAction::Poll(POLL_PAUSE), WaitChild::Polled)
        },
    }
}

/// Goes on waiting for a login process, or ends it: because the login was cancelled, or because it
/// took too long.
pub open spec fn wait_child_turn(
    check: Result<(), Seq<char>>,
    overdue: bool,
) -> StepView<WaitActionView, WaitChildView, ()> {
    match check {
        Err(reason) => StepView::Ask(WaitActionView::Kill, WaitChildView::Killed { reason }),
        Ok(_) => if overdue {
            StepView::Ask(
                WaitActionView::Kill,
                WaitChildView::Killed { reason: "登录等待已超过 10 分钟，请重试"@ },
            )
        } else {
            StepView::Ask(WaitActionView::Poll(POLL_PAUSE), WaitChildView::Polled)
        },
    }
}

/// Goes on waiting for a login process, or ends it: because the login was cancelled, or because it
/// took too long.
pub fn wait_child(check: Result<(), String>, overdue: bool) -> (r: Step<WaitAction, WaitChild, ()>)
    ensures
        r@ == wait_child_turn(outcome(check), overdue),
{
    match check {
        Err(reason) => Step::Ask(WaitAction::Kill, WaitChild::Killed { reason }),
        Ok(_) => if overdue {
            Step::Ask(
                WaitAction::Kill,
                WaitChild::Killed { reason: "登录等待已超过 10 分钟，请重试".to_owned() },
            )
        } else {
            Step::Ask(WaitAction::Poll(POLL_PAUSE), WaitChild::Polled)
        },
    }
}

/// Goes on with what came of it; `check` says whether the login may go on, and `overdue`
/// whether it has taken too long.
pub open spec fn wait_child_next(
    state: WaitChildView,
    event: WaitEventView,
    check: Result<(), Seq<char>>,
    overdue: bool,
) -> StepView<WaitActionView, WaitChildView, ()> {
    match state {
        WaitChildView::Polled => match event {
            WaitEventView::Ended { success } => match check {
                Err(error) => StepView::Done(Err(error)),
                Ok(_) => if success {
                    StepView::Done(Ok(()))
                } else {
                    StepView::Done(Err("Codex 登录未完成或已取消"@))
                },
            },
            WaitEventView::Failed(error) => StepView::Done(
                Err("等待 Codex 登录失败："@ + error),
            ),
            _ => wait_child_turn(check, overdue),
        },
        WaitChildView::Killed { reason } => match event {
            WaitEventView::Failed(error) => StepView::Done(
                Err(reason + "；无法结束登录进程："@ + error),
            ),
            _ => StepView::Ask(WaitActionView::Reap, WaitChildView::Reaped { reason }),
        },
        WaitChildView::Reaped { reason } => match event {
            WaitEventView::Failed(error) => StepView::Done(
                Err("无法确认登录进程退出："@ + error),
            ),
            _ => StepView::Done(Err(reason)),
        },
    }
}

impl WaitChild {
    /// Goes on with what came of it; `check` says whether the login may go on, and `overdue`
    /// whether it has taken too long.
    pub fn resume(
        self,
        event: WaitEvent,
        check: Result<(), String>,
        overdue: bool,
    ) -> (r: Step<WaitAction, WaitChild, ()>)
        ensures
            r@ == wait_child_next(self@, event@, outcome(check), overdue),
    {
        match self {
            WaitChild::Polled => match event {
                WaitEvent::Ended { success } => match check {
                    Err(error) => Step::Done(Err(error)),
                    Ok(_) => if success {
                        Step::Done(Ok(()))
                    } else {
                        Step::Done(Err("Codex 登录未完成或已取消".to_owned()))
                    },
                },
                WaitEvent::Failed(error) => Step::Done(
                    Err(join2("等待 Codex 登录失败：", error.as_str())),
                ),
                _ => wait_child(check, overdue),
            },
            WaitChild::Killed { reason } => match event {
                WaitEvent::Failed(error) => Step::Done(
                    Err(join3(reason.as_str(), "；无法结束登录进程：", error.as_str())),
                ),
                _ => Step::Ask(WaitAction::Reap, WaitChild::Reaped { reason }),
            },
            WaitChild::Reaped { reason } => match event {
                WaitEvent::Failed(error) => Step::Done(
                    Err(join2("无法确认登录进程退出：", error.as_str())),
                ),
                _ => Step::Done(Err(reason)),
            },
        }
    }
}

impl Session {
    /// Goes on waiting for something that is or is not ready.
    pub fn wait(&self, state: &LoginState, ready: bool) -> (r: Step<WaitAction, WaitChild, ()>)
        ensures
            r@ == wait_turn(ready, check_verdict(state@)),
    {
        wait(ready, self.check(state))
    }

    /// Begins to wait for a login process.
    pub fn wait_child(&self, state: &LoginState, overdue: bool) -> (r: Step<
        WaitAction,
        WaitChild,
        (),
    >)
        ensures
            r@ == wait_child_turn(check_verdict(state@), overdue),
    {
        wait_child(self.check(state), overdue)
    }
}

/// Waiting for a login process ends well only if the process has ended, and ended well, and the
/// login was not cancelled. A login that is cancelled or overdue ends only when its process was
/// ended and reaped, or that failed.
pub proof fn law_login_process_is_reaped(
    machine: WaitChildView,
    event: WaitEventView,
    check: Result<(), Seq<char>>,
    overdue: bool,
)
    ensures
        wait_child_next(machine, event, check, overdue) matches StepView::Done(Ok(_)) ==> machine
            is Polled && event == (WaitEventView::Ended { success: true }) && check is Ok,
        machine is Polled && event is Running && (check is Err || overdue) ==> (wait_child_next(
            machine,
            event,
            check,
            overdue,
        ) matches StepView::Ask(WaitActionView::Kill, WaitChildView::Killed { .. })),
        machine is Killed && !(event is Failed) ==> (wait_child_next(machine, event, check, overdue)
            matches StepView::Ask(WaitActionView::Reap, WaitChildView::Reaped { .. })),
{
}

/// A login may begin where none is in progress and the request has an id of up to eighty bytes. It
/// waits for its turn at first.
pub proof fn law_login_begins_queued(state: Option<ProgressView>, id: Seq<char>)
    ensures
        id.len() == 0 || encode_utf8(id).len() > 80 ==> begin_verdict(state, id) == Err::<
            (),
            Seq<char>,
        >("登录请求标识无效"@),
        id.len() > 0 && encode_utf8(id).len() <= 80 ==> begin_verdict(state, id) == (
        if state is None {
            Ok::<(), Seq<char>>(())
        } else {
            Err("已有登录进行中"@)
        }),
        begin_verdict(state, id) is Ok ==> begun(state, id) == Some(
            ProgressView { request_id: id, phase: "queued"@ },
        ),
        begin_verdict(state, id) is Err ==> begun(state, id) == state,
{
}

/// A login is cancelled by its own request in every phase but that of saving.
pub proof fn law_login_can_be_cancelled(progress: ProgressView)
    ensures
        progress.phase != "saving"@ ==> can_cancel(Some(progress), progress.request_id)
            && cancelled(Some(progress), progress.request_id) == Some(
            ProgressView { request_id: progress.request_id, phase: "cancelling"@ },
        ),
        progress.phase == "saving"@ ==> !can_cancel(Some(progress), progress.request_id),
{
}

/// A login that was not cancelled comes to the phase that it asks for and may go on; one that has
/// ended does neither.
pub proof fn law_login_goes_on_unless_cancelled(progress: ProgressView, phase: Seq<char>)
    ensures
        progress.phase != "cancelling"@ ==> {
            let now = ProgressView { request_id: progress.request_id, phase };
            &&& phase_verdict(Some(progress), phase) == Ok::<ProgressView, Seq<char>>(now)
            &&& phased(Some(progress), phase) == Some(now)
            &&& check_verdict(Some(progress)) is Ok
        },
        progress.phase == "cancelling"@ ==> {
            &&& phase_verdict(Some(progress), phase) == Err::<ProgressView, Seq<char>>(
                "登录已取消"@,
            )
            &&& phased(Some(progress), phase) == Some(progress)
            &&& check_verdict(Some(progress)) == Err::<(), Seq<char>>("登录已取消"@)
        },
        phase_verdict(None, phase) is Err && phased(None, phase) is None && check_verdict(
            None,
        ) is Err,
        ended(Some(progress), progress.request_id) is None,
{
}

/// Waiting for a turn ends when it comes, goes on until then, and stops when the login may not go
/// on, even if the turn has come.
pub proof fn law_waiting_for_a_turn(error: Seq<char>, ready: bool)
    ensures
        wait_turn(true, Ok(())) == StepView::<WaitActionView, WaitChildView, ()>::Done(Ok(())),
        wait_turn(false, Ok(())) == StepView::<WaitActionView, WaitChildView, ()>::Ask(
            WaitActionView::Poll(50),
            WaitChildView::Polled,
        ),
        wait_turn(ready, Err(error)) == StepView::<WaitActionView, WaitChildView, ()>::Done(
            Err(error),
        ),
{
}

/// A login process that still runs is waited for, as long as the login may go on and is not
/// overdue. Otherwise it is ended and reaped, and why is told: that the login may not go on before
/// that it took too long.
pub proof fn law_login_process_is_waited_for(
    reason: Seq<char>,
    overdue: bool,
    killed: WaitEventView,
    reaped: WaitEventView,
    check: Result<(), Seq<char>>,
    late: bool,
)
    requires
        !(killed is Failed),
        !(reaped is Failed),
    ensures
        wait_child_turn(Ok(()), false) == StepView::<WaitActionView, WaitChildView, ()>::Ask(
            WaitActionView::Poll(50),
            WaitChildView::Polled,
        ),
        wait_child_next(WaitChildView::Polled, WaitEventView::Running, Ok(()), false)
            == StepView::<WaitActionView, WaitChildView, ()>::Ask(
            WaitActionView::Poll(50),
            WaitChildView::Polled,
        ),
        ({
            let told = |step: StepView<WaitActionView, WaitChildView, ()>, why: Seq<char>|
                step matches StepView::Ask(WaitActionView::Kill, ending) && (wait_child_next(
                    ending,
                    killed,
                    check,
                    late,
                ) matches StepView::Ask(WaitActionView::Reap, last) && wait_child_next(
                    last,
                    reaped,
                    check,
                    late,
                ) == StepView::<WaitActionView, WaitChildView, ()>::Done(Err(why)));
            &&& told(wait_child_turn(Err(reason), overdue), reason)
            &&& told(
                wait_child_next(
                    WaitChildView::Polled,
                    WaitEventView::Running,
                    Err(reason),
                    overdue,
                ),
                reason,
            )
            &&& told(
                wait_child_turn(Ok(()), true),
                "登录等待已超过 10 分钟，请重试"@,
            )
            &&& told(
                wait_child_next(WaitChildView::Polled, WaitEventView::Running, Ok(()), true),
                "登录等待已超过 10 分钟，请重试"@,
            )
        }),
{
}

/// What a login process that has ended comes to.
pub proof fn law_ended_login_process(reason: Seq<char>, success: bool, overdue: bool)
    ensures
        wait_child_next(
            WaitChildView::Polled,
            WaitEventView::Ended { success: true },
            Ok(()),
            overdue,
        ) == StepView::<WaitActionView, WaitChildView, ()>::Done(Ok(())),
        wait_child_next(
            WaitChildView::Polled,
            WaitEventView::Ended { success: false },
            Ok(()),
            overdue,
        ) == StepView::<WaitActionView, WaitChildView, ()>::Done(
            Err("Codex 登录未完成或已取消"@),
        ),
        wait_child_next(
            WaitChildView::Polled,
            WaitEventView::Ended { success },
            Err(reason),
            overdue,
        ) == StepView::<WaitActionView, WaitChildView, ()>::Done(Err(reason)),
{
}

} // verus!
