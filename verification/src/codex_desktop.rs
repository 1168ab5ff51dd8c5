//! Closing the Codex desktop application and starting it again.

use vstd::prelude::*;
use vstd::string::*;

use crate::effects::{Step, StepView};
use crate::text::{
    ascii_lower, begins_with, chars_of, closes_with, decimal, ends_with, first_and_rest, join2,
    number_text, starts_with, views,
};

verus! {

/// How long the application is given to close by itself, in milliseconds.
pub const CLOSE_PATIENCE: u64 = 1800;

/// How long to wait after ending what is left of it, in milliseconds.
pub const END_PAUSE: u64 = 900;

/// What a restart did.
#[derive(Debug)]
pub struct RestartOutcome {
    pub was_running: bool,
    pub processes_closed: usize,
}

/// What `RestartOutcome` says.
#[verifier::ext_equal]
pub struct RestartOutcomeView {
    pub was_running: bool,
    pub processes_closed: usize,
}

impl View for RestartOutcome {
    type V = RestartOutcomeView;

    open spec fn view(&self) -> RestartOutcomeView {
        RestartOutcomeView {
            was_running: self.was_running,
            processes_closed: self.processes_closed,
        }
    }
}

/// A process of the application.
#[derive(Debug)]
pub struct CodexProcess {
    pub pid: u32,
    pub app_id: String,
}

/// What `CodexProcess` says.
#[verifier::ext_equal]
pub struct CodexProcessView {
    pub pid: u32,
    pub app_id: Seq<char>,
}

impl View for CodexProcess {
    type V = CodexProcessView;

    open spec fn view(&self) -> CodexProcessView {
        CodexProcessView {
            pid: self.pid,
            app_id: self.app_id@,
        }
    }
}

/// Whether two texts differ at most in the case of ASCII letters.
pub open spec fn same_but_case(a: Seq<char>, b: Seq<char>) -> bool {
    a.len() == b.len() && forall|i: int|
        0 <= i < a.len() ==> ascii_lower(#[trigger] a[i]) == ascii_lower(b[i])
}

/// Whether a process is one of the application, by the program it runs and the id of its package.
pub open spec fn is_codex(executable: Seq<char>, app_id: Seq<char>) -> bool {
    same_but_case(executable, "ChatGPT.exe"@) && begins_with(app_id, "OpenAI.Codex_"@)
        && closes_with(app_id, "!App"@)
}

/// A letter in lower case, if it is an ASCII one.
fn lower_ascii(c: char) -> (r: char)
    ensures
        r == ascii_lower(c),
{
    if 'A' <= c && c <= 'Z' {
        let code: u8 = c as u8;
        (code + 32) as char
    } else {
        c
    }
}

/// Whether two texts differ at most in the case of ASCII letters.
pub fn eq_ignore_ascii_case(a: &str, b: &str) -> (r: bool)
    ensures
        r == same_but_case(a@, b@),
{
    let left = chars_of(a);
    let right = chars_of(b);
    if left.len() != right.len() {
        return false;
    }
    for i in 0..left.len()
        invariant
            left@ == a@,
            right@ == b@,
            left@.len() == right@.len(),
            forall|j: int| 0 <= j < i ==> ascii_lower(
                #[trigger] left@[j],
            ) == ascii_lower(right@[j]),
    {
        if lower_ascii(left[i]) != lower_ascii(right[i]) {
            return false;
        }
    }
    true
}

/// Whether a process is one of the application.
pub fn is_codex_process(executable: &str, app_id: &str) -> (r: bool)
    ensures
        r == is_codex(executable@, app_id@),
{
    eq_ignore_ascii_case(executable, "ChatGPT.exe") && starts_with(app_id, "OpenAI.Codex_")
        && ends_with(app_id, "!App")
}

/// What a restart asks for: the processes of the application, its windows to be closed, a pause, a
/// process to be ended, the application to be started.
#[derive(Debug)]
pub enum DesktopAction {
    Discover,
    Close(Vec<u32>),
    Sleep(u64),
    Terminate(u32),
    Launch(String),
}

/// What `DesktopAction` says.
#[verifier::ext_equal]
pub enum DesktopActionView {
    Discover,
    Close(Seq<u32>),
    Sleep(u64),
    Terminate(u32),
    Launch(Seq<char>),
}

impl View for DesktopAction {
    type V = DesktopActionView;

    open spec fn view(&self) -> DesktopActionView {
        match self {
            DesktopAction::Discover => DesktopActionView::Discover,
            DesktopAction::Close(inner) => DesktopActionView::Close(inner@),
            DesktopAction::Sleep(inner) => DesktopActionView::Sleep(*inner),
            DesktopAction::Terminate(inner) => DesktopActionView::Terminate(*inner),
            DesktopAction::Launch(inner) => DesktopActionView::Launch(inner@),
        }
    }
}

/// What comes of it.
#[derive(Debug)]
pub enum DesktopEvent {
    Processes(Vec<CodexProcess>),
    Done,
    Failed(String),
}

/// What `DesktopEvent` says.
#[verifier::ext_equal]
pub enum DesktopEventView {
    Processes(Seq<CodexProcessView>),
    Done,
    Failed(Seq<char>),
}

impl View for DesktopEvent {
    type V = DesktopEventView;

    open spec fn view(&self) -> DesktopEventView {
        match self {
            DesktopEvent::Processes(inner) => DesktopEventView::Processes(views(inner@)),
            DesktopEvent::Done => DesktopEventView::Done,
            DesktopEvent::Failed(inner) => DesktopEventView::Failed(inner@),
        }
    }
}

/// A restart of the application: it is asked to close, what is left of it is ended, and it is
/// started again.
#[derive(Debug)]
pub enum Restart {
    Found,
    Closed { app_id: String, count: usize },
    Paused { app_id: String, count: usize },
    Left { app_id: String, count: usize },
    Ended { app_id: String, count: usize, pid: u32, rest: Vec<u32> },
    Settled { app_id: String, count: usize },
    Launched { count: usize },
}

/// What `Restart` says.
#[verifier::ext_equal]
pub enum RestartView {
    Found,
    Closed { app_id: Seq<char>, count: usize },
    Paused { app_id: Seq<char>, count: usize },
    Left { app_id: Seq<char>, count: usize },
    Ended { app_id: Seq<char>, count: usize, pid: u32, rest: Seq<u32> },
    Settled { app_id: Seq<char>, count: usize },
    Launched { count: usize },
}

impl View for Restart {
    type V = RestartView;

    open spec fn view(&self) -> RestartView {
        match self {
            Restart::Found => RestartView::Found,
            Restart::Closed { app_id, count } => RestartView::Closed {
                app_id: app_id@,
                count: *count,
            },
            Restart::Paused { app_id, count } => RestartView::Paused {
                app_id: app_id@,
                count: *count,
            },
            Restart::Left { app_id, count } => RestartView::Left {
                app_id: app_id@,
                count: *count,
            },
            Restart::Ended { app_id, count, pid, rest } => RestartView::Ended {
                app_id: app_id@,
                count: *count,
                pid: *pid,
                rest: rest@,
            },
            Restart::Settled { app_id, count } => RestartView::Settled {
                app_id: app_id@,
                count: *count,
            },
            Restart::Launched { count } => RestartView::Launched {
                count: *count,
            },
        }
    }
}

/// The numbers of processes.
pub open spec fn numbers_of(processes: Seq<CodexProcessView>) -> Seq<u32> {
    processes.map_values(|process: CodexProcessView| process.pid)
}

/// The numbers of processes.
pub fn process_numbers(processes: &Vec<CodexProcess>) -> (r: Vec<u32>)
    ensures
        r@ == numbers_of(views(processes@)),
{
    let mut numbers: Vec<u32> = Vec::new();
    for at in 0..processes.len()
        invariant
            numbers@.len() == at,
            forall|i: int| 0 <= i < at ==> #[trigger] numbers@[i] == processes@[i]@.pid,
    {
        numbers.push(processes[at].pid);
    }
    assert(numbers@ =~= numbers_of(views(processes@)));
    numbers
}

/// The number of processes.
pub open spec fn count_of(processes: Seq<CodexProcessView>) -> usize {
    processes.len() as usize
}

/// The number of processes.
pub fn how_many(processes: &Vec<CodexProcess>) -> (r: usize)
    ensures
        r == count_of(views(processes@)),
        r == processes@.len(),
{
    processes.len()
}

/// The package to start: that of the first process, or the one that is installed by default.
pub open spec fn package_of(processes: Seq<CodexProcessView>) -> Seq<char> {
    if processes.len() == 0 {
        "OpenAI.Codex_2p2nqsd0c76g0!App"@
    } else {
        processes[0].app_id
    }
}

/// The package to start.
pub fn app_id_of(processes: &Vec<CodexProcess>) -> (r: String)
    ensures
        r@ == package_of(views(processes@)),
{
    if processes.len() == 0 {
        "OpenAI.Codex_2p2nqsd0c76g0!App".to_owned()
    } else {
        processes[0].app_id.clone()
    }
}

/// The first number of a list and those after it.
pub fn split_number(numbers: Vec<u32>) -> (r: Option<(u32, Vec<u32>)>)
    ensures
        match r {
            Some((first, rest)) => first_and_rest(numbers@) == Some((first, rest@)),
            None => first_and_rest(numbers@) is None,
        },
{
    let mut rest = numbers;
    if rest.len() == 0 {
        return None;
    }
    let first: u32 = rest.remove(0);
    assert(rest@ =~= numbers@.drop_first());
    Some((first, rest))
}

/// Restarts the application; that is only done on Windows.
pub open spec fn restarting(
    windows: bool,
) -> StepView<DesktopActionView, RestartView, RestartOutcomeView> {
    if windows {
        StepView::Ask(DesktopActionView::Discover, RestartView::Found)
    } else {
        StepView::Done(Err("Codex 桌面端自动重启当前只支持 Windows"@))
    }
}

/// Restarts the application; that is only done on Windows.
pub fn restart(windows: bool) -> (r: Step<DesktopAction, Restart, RestartOutcome>)
    ensures
        r@ == restarting(windows),
{
    if windows {
        Step::Ask(DesktopAction::Discover, Restart::Found)
    } else {
        Step::Done(Err("Codex 桌面端自动重启当前只支持 Windows".to_owned()))
    }
}

/// Starts the application.
pub open spec fn restart_launch(
    app_id: Seq<char>,
    count: usize,
) -> StepView<DesktopActionView, RestartView, RestartOutcomeView> {
    StepView::Ask(
        DesktopActionView::Launch("shell:AppsFolder\\"@ + app_id),
        RestartView::Launched { count },
    )
}

/// Starts the application.
pub fn launch(app_id: String, count: usize) -> (r: Step<DesktopAction, Restart, RestartOutcome>)
    ensures
        r@ == restart_launch(app_id@, count),
{
    Step::Ask(
        DesktopAction::Launch(join2("shell:AppsFolder\\", app_id.as_str())),
        Restart::Launched { count },
    )
}

/// Ends the processes that are left, one by one.
pub open spec fn restart_end(
    app_id: Seq<char>,
    count: usize,
    numbers: Seq<u32>,
) -> StepView<DesktopActionView, RestartView, RestartOutcomeView> {
    match first_and_rest(numbers) {
        Some((pid, rest)) => StepView::Ask(
            DesktopActionView::Terminate(pid),
            RestartView::Ended { app_id, count, pid, rest },
        ),
        None => StepView::Ask(
            DesktopActionView::Sleep(END_PAUSE),
            RestartView::Settled { app_id, count },
        ),
    }
}

/// Ends the processes that are left, one by one.
pub fn end_processes(
    app_id: String,
    count: usize,
    numbers: Vec<u32>,
) -> (r: Step<DesktopAction, Restart, RestartOutcome>)
    ensures
        r@ == restart_end(app_id@, count, numbers@),
{
    match split_number(numbers) {
        Some((pid, rest)) => Step::Ask(
            DesktopAction::Terminate(pid),
            Restart::Ended { app_id, count, pid, rest },
        ),
        None => Step::Ask(DesktopAction::Sleep(END_PAUSE), Restart::Settled { app_id, count }),
    }
}

/// Why the processes are not known.
pub open spec fn discovery_failure() -> StepView<
    DesktopActionView,
    RestartView,
    RestartOutcomeView,
> {
    StepView::Done(Err("无法枚举 Windows 进程"@))
}

/// Why the processes are not known.
pub fn not_discovered() -> (r: Step<DesktopAction, Restart, RestartOutcome>)
    ensures
        r@ == discovery_failure(),
{
    Step::Done(Err("无法枚举 Windows 进程".to_owned()))
}

/// Goes on with what came of it.
pub open spec fn restart_next(
    state: RestartView,
    event: DesktopEventView,
) -> StepView<DesktopActionView, RestartView, RestartOutcomeView> {
    match state {
        RestartView::Found => match event {
            DesktopEventView::Processes(processes) => if processes.len() == 0 {
                StepView::Ask(
                    DesktopActionView::Discover,
                    RestartView::Left { app_id: package_of(processes), count: 0 },
                )
            } else {
                StepView::Ask(
                    DesktopActionView::Close(numbers_of(processes)),
                    RestartView::Closed {
                        app_id: package_of(processes),
                        count: count_of(processes),
                    },
                )
            },
            _ => discovery_failure(),
        },
        RestartView::Closed { app_id, count } => StepView::Ask(
            DesktopActionView::Sleep(CLOSE_PATIENCE),
            RestartView::Paused { app_id, count },
        ),
        RestartView::Paused { app_id, count } => StepView::Ask(
            DesktopActionView::Discover,
            RestartView::Left { app_id, count },
        ),
        RestartView::Left { app_id, count } => match event {
            DesktopEventView::Processes(processes) => if processes.len() == 0 {
                restart_launch(app_id, count)
            } else {
                restart_end(app_id, count, numbers_of(processes))
            },
            _ => discovery_failure(),
        },
        RestartView::Ended { app_id, count, pid, rest } => match event {
            DesktopEventView::Failed(_) => StepView::Done(
                Err("无法结束 Codex 进程 "@ + decimal((pid as u64) as nat)),
            ),
            _ => restart_end(app_id, count, rest),
        },
        RestartView::Settled { app_id, count } => restart_launch(app_id, count),
        RestartView::Launched { count } => match event {
            DesktopEventView::Failed(error) => StepView::Done(
                Err("账号已切换，但无法重新启动 Codex："@ + error),
            ),
            _ => StepView::Done(
                Ok(RestartOutcomeView { was_running: count > 0, processes_closed: count }),
            ),
        },
    }
}

impl Restart {
    /// Goes on with what came of it.
    pub fn resume(self, event: DesktopEvent) -> (r: Step<DesktopAction, Restart, RestartOutcome>)
        ensures
            r@ == restart_next(self@, event@),
    {
        match self {
            Restart::Found => match event {
                DesktopEvent::Processes(processes) => if processes.len() == 0 {
                    Step::Ask(
                        DesktopAction::Discover,
                        Restart::Left { app_id: app_id_of(&processes), count: 0 },
                    )
                } else {
                    Step::Ask(
                        DesktopAction::Close(process_numbers(&processes)),
                        Restart::Closed {
                            app_id: app_id_of(&processes),
                            count: how_many(&processes),
                        },
                    )
                },
                _ => not_discovered(),
            },
            Restart::Closed { app_id, count } => Step::Ask(
                DesktopAction::Sleep(CLOSE_PATIENCE),
                Restart::Paused { app_id, count },
            ),
            Restart::Paused { app_id, count } => Step::Ask(
                DesktopAction::Discover,
                Restart::Left { app_id, count },
            ),
            Restart::Left { app_id, count } => match event {
                DesktopEvent::Processes(processes) => if processes.len() == 0 {
                    launch(app_id, count)
                } else {
                    end_processes(app_id, count, process_numbers(&processes))
                },
                _ => not_discovered(),
            },
            Restart::Ended { app_id, count, pid, rest } => match event {
                DesktopEvent::Failed(_) => Step::Done(
                    Err(join2("无法结束 Codex 进程 ", number_text(pid as u64).as_str())),
                ),
                _ => end_processes(app_id, count, rest),
            },
            Restart::Settled { app_id, count } => launch(app_id, count),
            Restart::Launched { count } => match event {
                DesktopEvent::Failed(error) => Step::Done(
                    Err(join2("账号已切换，但无法重新启动 Codex：", error.as_str())),
                ),
                _ => Step::Done(
                    Ok(RestartOutcome { was_running: count > 0, processes_closed: count }),
                ),
            },
        }
    }
}

/// A process is ended only if it is among those that were found to be left, and the application is
/// started only after that.
pub proof fn law_only_processes_of_the_application_are_ended(
    machine: RestartView,
    event: DesktopEventView,
)
    ensures
        restart_next(machine, event) matches StepView::Ask(
            DesktopActionView::Terminate(pid),
            _,
        ) ==> (
        (machine is Left && event is Processes && numbers_of(event->Processes_0).contains(pid)) || (
        machine is Ended && machine->rest.contains(pid))),
        restart_next(machine, event) matches StepView::Done(Ok(outcome)) ==> machine is Launched
            && outcome.processes_closed == machine->Launched_count && outcome.was_running == (
        outcome.processes_closed > 0),
{
    match machine {
        RestartView::Left { .. } => {
            if let DesktopEventView::Processes(processes) = event {
                if processes.len() > 0 {
                    assert(numbers_of(processes)[0] == processes[0].pid);
                    assert(numbers_of(processes).contains(numbers_of(processes)[0]));
                }
            }
        },
        RestartView::Ended { rest, .. } => {
            if rest.len() > 0 {
                assert(rest.contains(rest[0]));
            }
        },
        _ => {},
    }
}

/// A process is one of the application exactly where its program is `ChatGPT.exe`, in whatever case
/// that is written, and its package is one of Codex: `middle` is what tells it from others.
pub proof fn law_processes_of_the_application(
    executable: Seq<char>,
    middle: Seq<char>,
    app_id: Seq<char>,
)
    ensures
        is_codex("ChatGPT.exe"@, "OpenAI.Codex_"@ + middle + "!App"@),
        is_codex("CHATGPT.EXE"@, "OpenAI.Codex_"@ + middle + "!App"@),
        is_codex(executable, app_id) ==> {
            &&& executable.len() == "ChatGPT.exe"@.len()
            &&& forall|i: int|
                0 <= i < executable.len() ==> ascii_lower(#[trigger] executable[i]) == ascii_lower(
                    "ChatGPT.exe"@[i],
                )
            &&& app_id.len() >= "OpenAI.Codex_"@.len()
            &&& app_id.take("OpenAI.Codex_"@.len() as int) == "OpenAI.Codex_"@
            &&& app_id.skip(app_id.len() - "!App"@.len()) == "!App"@
        },
{
    let name = "ChatGPT.exe"@;
    let loud = "CHATGPT.EXE"@;
    reveal_strlit("ChatGPT.exe");
    reveal_strlit("CHATGPT.EXE");
    reveal_strlit("OpenAI.Codex_");
    reveal_strlit("!App");
    let whole = "OpenAI.Codex_"@ + middle + "!App"@;
    assert(whole.subrange(0, "OpenAI.Codex_"@.len() as int) =~= "OpenAI.Codex_"@);
    assert(whole.subrange(whole.len() - "!App"@.len(), whole.len() as int) =~= "!App"@);
    assert forall|i: int| 0 <= i < name.len() implies ascii_lower(#[trigger] loud[i])
        == ascii_lower(name[i]) by {}
    if is_codex(executable, app_id) {
        assert(app_id.take("OpenAI.Codex_"@.len() as int) =~= app_id.subrange(
            0,
            "OpenAI.Codex_"@.len() as int,
        ));
        assert(app_id.skip(app_id.len() - "!App"@.len()) =~= app_id.subrange(
            app_id.len() - "!App"@.len(),
            app_id.len() as int,
        ));
    }
}

} // verus!
