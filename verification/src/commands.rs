//! What the hub does at the user's request, from beginning to end.

use vstd::prelude::*;
use vstd::string::*;

use crate::accounts::{
    account_of, asked_label, find_account, is_listed, listed, AccountInfo, AccountInfoView,
    SavedAccount, SavedAccountView,
};
use crate::app_server::{UsageSnapshot, UsageSnapshotView};
use crate::codex_desktop::{RestartOutcome, RestartOutcomeView};
use crate::effects::{
    expect_index, index_reply, Action, ActionView, Event, EventView, Home, HomeFile, HomeView,
    Place, PlaceView, Step, StepView,
};
use crate::recovery::{
    clean_login_next, cleaning_login, cleanup_login, ensure_idle, ensure_idle_next, ensuring_idle,
    CleanLogin, CleanLoginView, EnsureIdle, EnsureIdleView,
};
use crate::text::{
    begins_with, closes_with, decimal, held, join2, join3, long_number_text, number_text, outcome,
    replace, same, substituted, trim,
};
use crate::vault::{
    activate_account, activate_next, activating, complete_reauthorization, finish_isolated_home,
    finish_next, finishing_isolated, import_current, import_next, importing, isolated_account_id,
    isolated_id_reply, prepare_isolated_home, prepare_next, preparing, reauthorize_next,
    reauthorizing, save_current_before_switch, save_current_next, saving_current, Activate,
    ActivateView, Finish, FinishView, Import, ImportView, Prepare, PrepareView, Reauthorize,
    ReauthorizeView, SaveCurrent, SaveCurrentView,
};

verus! {

/// How many queries may be under way at once.
pub const MAX_CONCURRENT_USAGE_QUERIES: usize = 3;

/// What a switch did.
#[derive(Debug)]
pub struct SwitchOutcome {
    pub account: SavedAccount,
    pub restart_requested: bool,
    pub restart_succeeded: bool,
    pub codex_was_running: bool,
    pub processes_closed: usize,
    pub restart_warning: Option<String>,
}

/// What `SwitchOutcome` says.
#[verifier::ext_equal]
pub struct SwitchOutcomeView {
    pub account: SavedAccountView,
    pub restart_requested: bool,
    pub restart_succeeded: bool,
    pub codex_was_running: bool,
    pub processes_closed: usize,
    pub restart_warning: Option<Seq<char>>,
}

impl View for SwitchOutcome {
    type V = SwitchOutcomeView;

    open spec fn view(&self) -> SwitchOutcomeView {
        SwitchOutcomeView {
            account: self.account@,
            restart_requested: self.restart_requested,
            restart_succeeded: self.restart_succeeded,
            codex_was_running: self.codex_was_running,
            processes_closed: self.processes_closed,
            restart_warning: held(self.restart_warning),
        }
    }
}

/// What a login did: the account that it saved, and whether the credentials in use were replaced.
#[derive(Debug)]
pub struct ReauthorizationOutcome {
    pub account: SavedAccount,
    pub current_auth_updated: bool,
}

/// What `ReauthorizationOutcome` says.
#[verifier::ext_equal]
pub struct ReauthorizationOutcomeView {
    pub account: SavedAccountView,
    pub current_auth_updated: bool,
}

impl View for ReauthorizationOutcome {
    type V = ReauthorizationOutcomeView;

    open spec fn view(&self) -> ReauthorizationOutcomeView {
        ReauthorizationOutcomeView {
            account: self.account@,
            current_auth_updated: self.current_auth_updated,
        }
    }
}

/// What a restart came to.
#[derive(Debug)]
pub struct RestartResult {
    pub succeeded: bool,
    pub warning: Option<String>,
}

/// What `RestartResult` says.
#[verifier::ext_equal]
pub struct RestartResultView {
    pub succeeded: bool,
    pub warning: Option<Seq<char>>,
}

impl View for RestartResult {
    type V = RestartResultView;

    open spec fn view(&self) -> RestartResultView {
        RestartResultView {
            succeeded: self.succeeded,
            warning: held(self.warning),
        }
    }
}

/// What a restart came to; that it failed is no more than a warning.
pub open spec fn restart_report(
    result: Result<RestartOutcomeView, Seq<char>>,
) -> RestartResultView {
    match result {
        Ok(_) => RestartResultView { succeeded: true, warning: None },
        Err(warning) => RestartResultView { succeeded: false, warning: Some(warning) },
    }
}

/// What a restart came to; that it failed is no more than a warning.
pub fn restart_result(result: Result<RestartOutcome, String>) -> (r: RestartResult)
    ensures
        r@ == restart_report(outcome(result)),
{
    match result {
        Ok(_) => RestartResult { succeeded: true, warning: None },
        Err(warning) => RestartResult { succeeded: false, warning: Some(warning) },
    }
}

/// The result of some work and of the cleaning up after it.
pub open spec fn combined<V>(
    operation: Result<V, Seq<char>>,
    cleanup: Result<(), Seq<char>>,
) -> Result<V, Seq<char>> {
    match (operation, cleanup) {
        (Ok(value), Ok(_)) => Ok(value),
        (Err(error), Ok(_)) => Err(error),
        (Ok(_), Err(error)) => Err(error),
        (Err(operation_error), Err(cleanup_error)) => Err(
            operation_error + "；"@ + cleanup_error,
        ),
    }
}

/// The result of some work and of the cleaning up after it.
pub fn combine_operation_and_cleanup<T: View>(
    operation: Result<T, String>,
    cleanup: Result<(), String>,
) -> (r: Result<T, String>)
    ensures
        outcome(r) == combined(outcome(operation), outcome(cleanup)),
        cleanup is Ok ==> r == operation,
        operation is Ok && cleanup is Err ==> r == Err::<T, String>(cleanup->Err_0),
{
    match (operation, cleanup) {
        (Ok(value), Ok(_)) => Ok(value),
        (Err(error), Ok(_)) => Err(error),
        (Ok(_), Err(error)) => Err(error),
        (Err(operation_error), Err(cleanup_error)) => Err(
            join3(operation_error.as_str(), "；", cleanup_error.as_str()),
        ),
    }
}

/// The outcome of work is a success only if the cleaning up after it is one too, and no error is
/// dropped.
pub proof fn law_no_error_is_dropped<V>(
    operation: Result<V, Seq<char>>,
    cleanup: Result<(), Seq<char>>,
)
    ensures
        combined(operation, cleanup) is Ok <==> operation is Ok && cleanup is Ok,
        operation matches Err(error) ==> (combined(operation, cleanup) matches Err(all)
            && begins_with(all, error)),
        cleanup matches Err(error) ==> (combined(operation, cleanup) matches Err(all)
            && closes_with(all, error)),
{
    if let Err(first) = operation {
        assert(first.subrange(0, first.len() as int) =~= first);
        if let Err(second) = cleanup {
            let all = first + "；"@ + second;
            assert(all.subrange(0, first.len() as int) =~= first);
            assert(all.subrange(all.len() - second.len(), all.len() as int) =~= second);
        }
    } else if let Err(second) = cleanup {
        assert(second.subrange(0, second.len() as int) =~= second);
    }
}

/// The result of a query and of the cleaning up after it.
pub open spec fn query_and_cleanup(
    result: Result<UsageSnapshotView, Seq<char>>,
    cleanup: Result<(), Seq<char>>,
) -> Result<UsageSnapshotView, Seq<char>> {
    match (result, cleanup) {
        (Ok(snapshot), Ok(_)) => Ok(snapshot),
        (Err(error), Ok(_)) => Err(error),
        (Ok(_), Err(error)) => Err(error),
        (Err(query_error), Err(cleanup_error)) => Err(
            query_error + "；同时清理隔离认证状态失败："@ + cleanup_error,
        ),
    }
}

/// The result of a query and of the cleaning up after it.
pub fn join_query_and_cleanup(
    result: Result<UsageSnapshot, String>,
    cleanup: Result<(), String>,
) -> (r: Result<UsageSnapshot, String>)
    ensures
        outcome(r) == query_and_cleanup(outcome(result), outcome(cleanup)),
        cleanup is Ok ==> r == result,
        result is Ok && cleanup is Err ==> r == Err::<UsageSnapshot, String>(cleanup->Err_0),
{
    match (result, cleanup) {
        (Ok(snapshot), Ok(_)) => Ok(snapshot),
        (Err(error), Ok(_)) => Err(error),
        (Ok(_), Err(error)) => Err(error),
        (Err(query_error), Err(cleanup_error)) => Err(
            join3(
                query_error.as_str(),
                "；同时清理隔离认证状态失败：",
                cleanup_error.as_str(),
            ),
        ),
    }
}

/// The label that is shown for the account in use.
pub open spec fn shown_label(label: Option<Seq<char>>) -> Seq<char> {
    match asked_label(label) {
        Some(text) => text,
        None => "未识别当前账号"@,
    }
}

/// The line of the menu and the hint that show the account in use.
pub fn tray_texts(label: Option<String>) -> (r: (String, String))
    ensures
        r.0@ == "当前账号："@ + substituted(shown_label(held(label)), '&', "&&"@),
        r.1@ == "Codex Account Hub · "@ + shown_label(held(label)),
{
    let shown = match &label {
        Some(text) => {
            let clean = trim(text.as_str());
            if clean.is_empty() {
                "未识别当前账号".to_owned()
            } else {
                clean.to_owned()
            }
        },
        None => "未识别当前账号".to_owned(),
    };
    let escaped = replace(shown.as_str(), '&', "&&");
    (join2("当前账号：", escaped.as_str()), join2("Codex Account Hub · ", shown.as_str()))
}

/// The name of the home of a login: the process that makes it, and a mark that makes it unique.
pub open spec fn login_home_text(own: u32, mark: u128) -> Seq<char> {
    decimal((own as u64) as nat) + "-"@ + decimal((mark) as nat)
}

/// The name of the home of a login: the process that makes it, and a mark that makes it unique.
pub fn login_home_name(own: u32, mark: u128) -> (r: String)
    ensures
        r@ == login_home_text(own, mark),
{
    join3(number_text(own as u64).as_str(), "-", long_number_text(mark).as_str())
}

/// What a switch asks for: an action on files, or a restart of Codex.
#[derive(Debug)]
pub enum SwitchAction {
    Do(Action),
    Restart,
}

/// What `SwitchAction` says.
#[verifier::ext_equal]
pub enum SwitchActionView {
    Do(ActionView),
    Restart,
}

impl View for SwitchAction {
    type V = SwitchActionView;

    open spec fn view(&self) -> SwitchActionView {
        match self {
            SwitchAction::Do(inner) => SwitchActionView::Do(inner@),
            SwitchAction::Restart => SwitchActionView::Restart,
        }
    }
}

/// What comes of it.
#[derive(Debug)]
pub enum SwitchEvent {
    Did(Event),
    Restarted(Result<RestartOutcome, String>),
}

/// What `SwitchEvent` says.
#[verifier::ext_equal]
pub enum SwitchEventView {
    Did(EventView),
    Restarted(Result<RestartOutcomeView, Seq<char>>),
}

impl View for SwitchEvent {
    type V = SwitchEventView;

    open spec fn view(&self) -> SwitchEventView {
        match self {
            SwitchEvent::Did(inner) => SwitchEventView::Did(inner@),
            SwitchEvent::Restarted(inner) => SwitchEventView::Restarted(outcome(*inner)),
        }
    }
}

/// A switch to a saved account: the account in use is saved, then the other one is activated, and
/// then Codex is started anew if that is asked for.
#[derive(Debug)]
pub enum Switch {
    Save { id: String, codex_home: String, restart: bool, save: SaveCurrent },
    Activate { id: String, restart: bool, activate: Activate },
    Index { id: String, restart: bool },
    Restart { account: SavedAccount },
}

/// What `Switch` says.
#[verifier::ext_equal]
pub enum SwitchView {
    Save { id: Seq<char>, codex_home: Seq<char>, restart: bool, save: SaveCurrentView },
    Activate { id: Seq<char>, restart: bool, activate: ActivateView },
    Index { id: Seq<char>, restart: bool },
    Restart { account: SavedAccountView },
}

impl View for Switch {
    type V = SwitchView;

    open spec fn view(&self) -> SwitchView {
        match self {
            Switch::Save { id, codex_home, restart, save } => SwitchView::Save {
                id: id@,
                codex_home: codex_home@,
                restart: *restart,
                save: save@,
            },
            Switch::Activate { id, restart, activate } => SwitchView::Activate {
                id: id@,
                restart: *restart,
                activate: activate@,
            },
            Switch::Index { id, restart } => SwitchView::Index {
                id: id@,
                restart: *restart,
            },
            Switch::Restart { account } => SwitchView::Restart {
                account: account@,
            },
        }
    }
}

/// Switches to a saved account.
pub open spec fn switching(
    account_id: Seq<char>,
    codex_home: Seq<char>,
    restart: bool,
) -> StepView<SwitchActionView, SwitchView, SwitchOutcomeView> {
    switch_saved(account_id, codex_home, restart, saving_current(account_id))
}

/// Switches to a saved account.
pub fn switch_saved_account(
    account_id: &str,
    codex_home: &str,
    restart: bool,
) -> (r: Step<SwitchAction, Switch, SwitchOutcome>)
    ensures
        r@ == switching(account_id@, codex_home@, restart),
{
    switch_after_save(
        account_id.to_owned(),
        codex_home.to_owned(),
        restart,
        save_current_before_switch(account_id),
    )
}

/// Goes on with the account in use being saved.
pub open spec fn switch_saved(
    id: Seq<char>,
    codex_home: Seq<char>,
    restart: bool,
    step: StepView<ActionView, SaveCurrentView, ()>,
) -> StepView<SwitchActionView, SwitchView, SwitchOutcomeView> {
    match step {
        StepView::Ask(action, save) => StepView::Ask(
            SwitchActionView::Do(action),
            SwitchView::Save { id, codex_home, restart, save },
        ),
        StepView::Done(Err(error)) => StepView::Done(Err(error)),
        StepView::Done(Ok(_)) => switch_activating(id, codex_home, restart),
    }
}

/// Goes on with the account in use being saved.
pub fn switch_after_save(
    id: String,
    codex_home: String,
    restart: bool,
    step: Step<Action, SaveCurrent, ()>,
) -> (r: Step<SwitchAction, Switch, SwitchOutcome>)
    ensures
        r@ == switch_saved(id@, codex_home@, restart, step@),
{
    match step {
        Step::Ask(action, save) => Step::Ask(
            SwitchAction::Do(action),
            Switch::Save { id, codex_home, restart, save },
        ),
        Step::Done(Err(error)) => Step::Done(Err(error)),
        Step::Done(Ok(_)) => switch_activate(id, codex_home, restart),
    }
}

/// Goes on with the activation.
pub open spec fn switch_activating(
    id: Seq<char>,
    codex_home: Seq<char>,
    restart: bool,
) -> StepView<SwitchActionView, SwitchView, SwitchOutcomeView> {
    match activating(id, codex_home) {
        StepView::Ask(action, activate) => StepView::Ask(
            SwitchActionView::Do(action),
            SwitchView::Activate { id, restart, activate },
        ),
        StepView::Done(Err(error)) => StepView::Done(Err(error)),
        StepView::Done(Ok(_)) => StepView::Ask(
            SwitchActionView::Do(ActionView::ReadIndex),
            SwitchView::Index { id, restart },
        ),
    }
}

/// Goes on with the activation.
pub fn switch_activate(
    id: String,
    codex_home: String,
    restart: bool,
) -> (r: Step<SwitchAction, Switch, SwitchOutcome>)
    ensures
        r@ == switch_activating(id@, codex_home@, restart),
{
    match activate_account(id.as_str(), codex_home.as_str()) {
        Step::Ask(action, activate) => Step::Ask(
            SwitchAction::Do(action),
            Switch::Activate { id, restart, activate },
        ),
        Step::Done(Err(error)) => Step::Done(Err(error)),
        Step::Done(Ok(_)) => Step::Ask(
            SwitchAction::Do(Action::ReadIndex),
            Switch::Index { id, restart },
        ),
    }
}

/// Goes on with the account being activated.
pub open spec fn switch_activated(
    id: Seq<char>,
    restart: bool,
    step: StepView<ActionView, ActivateView, ()>,
) -> StepView<SwitchActionView, SwitchView, SwitchOutcomeView> {
    match step {
        StepView::Ask(action, activate) => StepView::Ask(
            SwitchActionView::Do(action),
            SwitchView::Activate { id, restart, activate },
        ),
        StepView::Done(Err(error)) => StepView::Done(Err(error)),
        StepView::Done(Ok(_)) => StepView::Ask(
            SwitchActionView::Do(ActionView::ReadIndex),
            SwitchView::Index { id, restart },
        ),
    }
}

/// Goes on with the account being activated.
pub fn switch_after_activate(
    id: String,
    restart: bool,
    step: Step<Action, Activate, ()>,
) -> (r: Step<SwitchAction, Switch, SwitchOutcome>)
    ensures
        r@ == switch_activated(id@, restart, step@),
{
    match step {
        Step::Ask(action, activate) => Step::Ask(
            SwitchAction::Do(action),
            Switch::Activate { id, restart, activate },
        ),
        Step::Done(Err(error)) => Step::Done(Err(error)),
        Step::Done(Ok(_)) => Step::Ask(
            SwitchAction::Do(Action::ReadIndex),
            Switch::Index { id, restart },
        ),
    }
}

/// The answer to an action on files.
pub open spec fn file_reply(event: SwitchEventView) -> EventView {
    match event {
        SwitchEventView::Did(event) => event,
        SwitchEventView::Restarted(_) => EventView::Rejected("应答与请求不符"@),
    }
}

/// The answer to an action on files.
pub fn expect_did(event: SwitchEvent) -> (r: Event)
    ensures
        r@ == file_reply(event@),
{
    match event {
        SwitchEvent::Did(event) => event,
        SwitchEvent::Restarted(_) => Event::Rejected("应答与请求不符".to_owned()),
    }
}

/// What a switch did that came with a restart.
pub open spec fn switch_report(
    account: SavedAccountView,
    result: Result<RestartOutcomeView, Seq<char>>,
) -> SwitchOutcomeView {
    match result {
        Ok(restart) => SwitchOutcomeView {
            account,
            restart_requested: true,
            restart_succeeded: true,
            codex_was_running: restart.was_running,
            processes_closed: restart.processes_closed,
            restart_warning: None,
        },
        Err(warning) => SwitchOutcomeView {
            account,
            restart_requested: true,
            restart_succeeded: false,
            codex_was_running: false,
            processes_closed: 0,
            restart_warning: Some(warning),
        },
    }
}

/// What a switch did that came with a restart.
pub fn switch_with_restart(
    account: SavedAccount,
    result: Result<RestartOutcome, String>,
) -> (r: SwitchOutcome)
    ensures
        r@ == switch_report(account@, outcome(result)),
{
    match result {
        Ok(restart) => SwitchOutcome {
            account,
            restart_requested: true,
            restart_succeeded: true,
            codex_was_running: restart.was_running,
            processes_closed: restart.processes_closed,
            restart_warning: None,
        },
        Err(warning) => SwitchOutcome {
            account,
            restart_requested: true,
            restart_succeeded: false,
            codex_was_running: false,
            processes_closed: 0,
            restart_warning: Some(warning),
        },
    }
}

/// Goes on with what came of it.
pub open spec fn switch_next(
    state: SwitchView,
    event: SwitchEventView,
) -> StepView<SwitchActionView, SwitchView, SwitchOutcomeView> {
    match state {
        SwitchView::Save { id, codex_home, restart, save } => switch_saved(
            id,
            codex_home,
            restart,
            save_current_next(save, file_reply(event)),
        ),
        SwitchView::Activate { id, restart, activate } => switch_activated(
            id,
            restart,
            activate_next(activate, file_reply(event)),
        ),
        SwitchView::Index { id, restart } => match index_reply(file_reply(event)) {
            Err(error) => StepView::Done(Err(error)),
            Ok(index) => match account_of(index.accounts, id) {
                None => StepView::Done(
                    Err("切换成功，但账号索引中找不到目标账号"@),
                ),
                Some(account) => if restart {
                    StepView::Ask(SwitchActionView::Restart, SwitchView::Restart { account })
                } else {
                    StepView::Done(
                        Ok(
                            SwitchOutcomeView {
                                account,
                                restart_requested: false,
                                restart_succeeded: false,
                                codex_was_running: false,
                                processes_closed: 0,
                                restart_warning: None,
                            },
                        ),
                    )
                },
            },
        },
        SwitchView::Restart { account } => match event {
            SwitchEventView::Restarted(result) => StepView::Done(
                Ok(switch_report(account, result)),
            ),
            SwitchEventView::Did(_) => StepView::Done(
                Ok(switch_report(account, Err("应答与请求不符"@))),
            ),
        },
    }
}

impl Switch {
    /// Goes on with what came of it.
    pub fn resume(self, event: SwitchEvent) -> (r: Step<SwitchAction, Switch, SwitchOutcome>)
        ensures
            r@ == switch_next(self@, event@),
    {
        match self {
            Switch::Save { id, codex_home, restart, save } => switch_after_save(
                id,
                codex_home,
                restart,
                SaveCurrent::resume(save, expect_did(event)),
            ),
            Switch::Activate { id, restart, activate } => switch_after_activate(
                id,
                restart,
                Activate::resume(activate, expect_did(event)),
            ),
            Switch::Index { id, restart } => match expect_index(expect_did(event)) {
                Err(error) => Step::Done(Err(error)),
                Ok(index) => match find_account(&index.accounts, id.as_str()) {
                    None => Step::Done(
                        Err("切换成功，但账号索引中找不到目标账号".to_owned()),
                    ),
                    Some(account) => if restart {
                        Step::Ask(SwitchAction::Restart, Switch::Restart { account })
                    } else {
                        Step::Done(
                            Ok(
                                SwitchOutcome {
                                    account,
                                    restart_requested: false,
                                    restart_succeeded: false,
                                    codex_was_running: false,
                                    processes_closed: 0,
                                    restart_warning: None,
                                },
                            ),
                        )
                    },
                },
            },
            Switch::Restart { account } => match event {
                SwitchEvent::Restarted(result) => Step::Done(
                    Ok(switch_with_restart(account, result)),
                ),
                SwitchEvent::Did(_) => Step::Done(
                    Ok(switch_with_restart(account, Err("应答与请求不符".to_owned()))),
                ),
            },
        }
    }
}

/// A restart that fails does not undo a switch: the switch succeeds, and the failure is a warning.
pub proof fn law_failed_restart_is_a_warning(
    account: SavedAccountView,
    result: Result<RestartOutcomeView, Seq<char>>,
)
    ensures
        switch_next(
            SwitchView::Restart { account },
            SwitchEventView::Restarted(result),
        ) matches StepView::Done(Ok(done)) && done.account == account && done.restart_requested
            && done.restart_succeeded == (result is Ok) && (result matches Err(warning)
            ==> done.restart_warning == Some(warning)),
{
}

/// What a query of a saved account asks for: an action on files, or the query itself.
#[derive(Debug)]
pub enum SavedAction {
    Do(Action),
    Query(Home),
}

/// What `SavedAction` says.
#[verifier::ext_equal]
pub enum SavedActionView {
    Do(ActionView),
    Query(HomeView),
}

impl View for SavedAction {
    type V = SavedActionView;

    open spec fn view(&self) -> SavedActionView {
        match self {
            SavedAction::Do(inner) => SavedActionView::Do(inner@),
            SavedAction::Query(inner) => SavedActionView::Query(inner@),
        }
    }
}

/// What comes of it.
#[derive(Debug)]
pub enum SavedEvent {
    Did(Event),
    Queried(Result<UsageSnapshot, String>),
}

/// What `SavedEvent` says.
#[verifier::ext_equal]
pub enum SavedEventView {
    Did(EventView),
    Queried(Result<UsageSnapshotView, Seq<char>>),
}

impl View for SavedEvent {
    type V = SavedEventView;

    open spec fn view(&self) -> SavedEventView {
        match self {
            SavedEvent::Did(inner) => SavedEventView::Did(inner@),
            SavedEvent::Queried(inner) => SavedEventView::Queried(outcome(*inner)),
        }
    }
}

/// A query of a saved account: its runtime home is prepared, queried and taken back.
#[derive(Debug)]
pub enum QuerySaved {
    Prepare { id: String, prepare: Prepare },
    Query { id: String },
    Finish { result: Result<UsageSnapshot, String>, finish: Finish },
}

/// What `QuerySaved` says.
#[verifier::ext_equal]
pub enum QuerySavedView {
    Prepare { id: Seq<char>, prepare: PrepareView },
    Query { id: Seq<char> },
    Finish { result: Result<UsageSnapshotView, Seq<char>>, finish: FinishView },
}

impl View for QuerySaved {
    type V = QuerySavedView;

    open spec fn view(&self) -> QuerySavedView {
        match self {
            QuerySaved::Prepare { id, prepare } => QuerySavedView::Prepare {
                id: id@,
                prepare: prepare@,
            },
            QuerySaved::Query { id } => QuerySavedView::Query {
                id: id@,
            },
            QuerySaved::Finish { result, finish } => QuerySavedView::Finish {
                result: outcome(*result),
                finish: finish@,
            },
        }
    }
}

/// Queries a saved account.
pub open spec fn querying_saved(
    account_id: Seq<char>,
) -> StepView<SavedActionView, QuerySavedView, UsageSnapshotView> {
    saved_prepared(account_id, preparing(account_id))
}

/// Queries a saved account.
pub fn query_saved_usage(account_id: &str) -> (r: Step<SavedAction, QuerySaved, UsageSnapshot>)
    ensures
        r@ == querying_saved(account_id@),
{
    saved_after_prepare(account_id.to_owned(), prepare_isolated_home(account_id))
}

/// Goes on with the runtime home being prepared.
pub open spec fn saved_prepared(
    id: Seq<char>,
    step: StepView<ActionView, PrepareView, HomeView>,
) -> StepView<SavedActionView, QuerySavedView, UsageSnapshotView> {
    match step {
        StepView::Ask(action, prepare) => StepView::Ask(
            SavedActionView::Do(action),
            QuerySavedView::Prepare { id, prepare },
        ),
        StepView::Done(Err(error)) => StepView::Done(Err(error)),
        StepView::Done(Ok(home)) => StepView::Ask(
            SavedActionView::Query(home),
            QuerySavedView::Query { id },
        ),
    }
}

/// Goes on with the runtime home being prepared.
pub fn saved_after_prepare(
    id: String,
    step: Step<Action, Prepare, Home>,
) -> (r: Step<SavedAction, QuerySaved, UsageSnapshot>)
    ensures
        r@ == saved_prepared(id@, step@),
{
    match step {
        Step::Ask(action, prepare) => Step::Ask(
            SavedAction::Do(action),
            QuerySaved::Prepare { id, prepare },
        ),
        Step::Done(Err(error)) => Step::Done(Err(error)),
        Step::Done(Ok(home)) => Step::Ask(SavedAction::Query(home), QuerySaved::Query { id }),
    }
}

/// Goes on with the runtime home being taken back.
pub open spec fn saved_finished(
    result: Result<UsageSnapshotView, Seq<char>>,
    step: StepView<ActionView, FinishView, ()>,
) -> StepView<SavedActionView, QuerySavedView, UsageSnapshotView> {
    match step {
        StepView::Ask(action, finish) => StepView::Ask(
            SavedActionView::Do(action),
            QuerySavedView::Finish { result, finish },
        ),
        StepView::Done(cleanup) => StepView::Done(query_and_cleanup(result, cleanup)),
    }
}

/// Goes on with the runtime home being taken back.
pub fn saved_after_finish(
    result: Result<UsageSnapshot, String>,
    step: Step<Action, Finish, ()>,
) -> (r: Step<SavedAction, QuerySaved, UsageSnapshot>)
    ensures
        r@ == saved_finished(outcome(result), step@),
{
    match step {
        Step::Ask(action, finish) => Step::Ask(
            SavedAction::Do(action),
            QuerySaved::Finish { result, finish },
        ),
        Step::Done(cleanup) => Step::Done(join_query_and_cleanup(result, cleanup)),
    }
}

/// The answer to an action on files.
pub open spec fn saved_file_reply(event: SavedEventView) -> EventView {
    match event {
        SavedEventView::Did(event) => event,
        SavedEventView::Queried(_) => EventView::Rejected("应答与请求不符"@),
    }
}

/// The answer to an action on files.
pub fn expect_saved_did(event: SavedEvent) -> (r: Event)
    ensures
        r@ == saved_file_reply(event@),
{
    match event {
        SavedEvent::Did(event) => event,
        SavedEvent::Queried(_) => Event::Rejected("应答与请求不符".to_owned()),
    }
}

/// What the query came to.
pub open spec fn queried_reply(event: SavedEventView) -> Result<UsageSnapshotView, Seq<char>> {
    match event {
        SavedEventView::Queried(result) => result,
        SavedEventView::Did(_) => Err("应答与请求不符"@),
    }
}

/// What the query came to.
pub fn expect_queried(event: SavedEvent) -> (r: Result<UsageSnapshot, String>)
    ensures
        outcome(r) == queried_reply(event@),
{
    match event {
        SavedEvent::Queried(result) => result,
        SavedEvent::Did(_) => Err("应答与请求不符".to_owned()),
    }
}

/// Goes on with what came of it.
pub open spec fn query_saved_next(
    state: QuerySavedView,
    event: SavedEventView,
) -> StepView<SavedActionView, QuerySavedView, UsageSnapshotView> {
    match state {
        QuerySavedView::Prepare { id, prepare } => saved_prepared(
            id,
            prepare_next(prepare, saved_file_reply(event)),
        ),
        QuerySavedView::Query { id } => saved_finished(
            queried_reply(event),
            finishing_isolated(id),
        ),
        QuerySavedView::Finish { result, finish } => saved_finished(
            result,
            finish_next(finish, saved_file_reply(event)),
        ),
    }
}

impl QuerySaved {
    /// Goes on with what came of it.
    pub fn resume(self, event: SavedEvent) -> (r: Step<SavedAction, QuerySaved, UsageSnapshot>)
        ensures
            r@ == query_saved_next(self@, event@),
    {
        match self {
            QuerySaved::Prepare { id, prepare } => saved_after_prepare(
                id,
                Prepare::resume(prepare, expect_saved_did(event)),
            ),
            QuerySaved::Query { id } => saved_after_finish(
                expect_queried(event),
                finish_isolated_home(id.as_str()),
            ),
            QuerySaved::Finish { result, finish } => saved_after_finish(
                result,
                Finish::resume(finish, expect_saved_did(event)),
            ),
        }
    }
}

/// What the official login asks for: its process to be started, to be tied to the hub, to be
/// recorded, to be waited for and to be ended; whether it has ended; its record to be removed.
#[derive(Debug)]
pub enum ProcessAction {
    Spawn,
    Attach,
    Record,
    Wait,
    Kill,
    HasExited,
    Clear,
}

/// What `ProcessAction` says.
#[verifier::ext_equal]
pub enum ProcessActionView {
    Spawn,
    Attach,
    Record,
    Wait,
    Kill,
    HasExited,
    Clear,
}

impl View for ProcessAction {
    type V = ProcessActionView;

    open spec fn view(&self) -> ProcessActionView {
        match self {
            ProcessAction::Spawn => ProcessActionView::Spawn,
            ProcessAction::Attach => ProcessActionView::Attach,
            ProcessAction::Record => ProcessActionView::Record,
            ProcessAction::Wait => ProcessActionView::Wait,
            ProcessAction::Kill => ProcessActionView::Kill,
            ProcessAction::HasExited => ProcessActionView::HasExited,
            ProcessAction::Clear => ProcessActionView::Clear,
        }
    }
}

/// What comes of it.
#[derive(Debug)]
pub enum ProcessEvent {
    Finished(Result<(), String>),
    Exited(bool),
}

/// What `ProcessEvent` says.
#[verifier::ext_equal]
pub enum ProcessEventView {
    Finished(Result<(), Seq<char>>),
    Exited(bool),
}

impl View for ProcessEvent {
    type V = ProcessEventView;

    open spec fn view(&self) -> ProcessEventView {
        match self {
            ProcessEvent::Finished(inner) => ProcessEventView::Finished(outcome(*inner)),
            ProcessEvent::Exited(inner) => ProcessEventView::Exited(*inner),
        }
    }
}

/// The official login.
#[derive(Debug)]
pub enum Interactive {
    Spawned,
    Attached,
    Recorded,
    Waited,
    Killed { error: String },
    Checked { result: Result<(), String> },
    Cleared { result: Result<(), String> },
}

/// What `Interactive` says.
#[verifier::ext_equal]
pub enum InteractiveView {
    Spawned,
    Attached,
    Recorded,
    Waited,
    Killed { error: Seq<char> },
    Checked { result: Result<(), Seq<char>> },
    Cleared { result: Result<(), Seq<char>> },
}

impl View for Interactive {
    type V = InteractiveView;

    open spec fn view(&self) -> InteractiveView {
        match self {
            Interactive::Spawned => InteractiveView::Spawned,
            Interactive::Attached => InteractiveView::Attached,
            Interactive::Recorded => InteractiveView::Recorded,
            Interactive::Waited => InteractiveView::Waited,
            Interactive::Killed { error } => InteractiveView::Killed {
                error: error@,
            },
            Interactive::Checked { result } => InteractiveView::Checked {
                result: outcome(*result),
            },
            Interactive::Cleared { result } => InteractiveView::Cleared {
                result: outcome(*result),
            },
        }
    }
}

/// Carries out the official login in a home of its own.
pub open spec fn logging_in() -> StepView<ProcessActionView, InteractiveView, ()> {
    StepView::Ask(ProcessActionView::Spawn, InteractiveView::Spawned)
}

/// Carries out the official login in a home of its own.
pub fn run_interactive_login() -> (r: Step<ProcessAction, Interactive, ()>)
    ensures
        r@ == logging_in(),
{
    Step::Ask(ProcessAction::Spawn, Interactive::Spawned)
}

/// Whether something was carried out.
pub open spec fn process_reply(event: ProcessEventView) -> Result<(), Seq<char>> {
    match event {
        ProcessEventView::Finished(result) => result,
        ProcessEventView::Exited(_) => Err("应答与请求不符"@),
    }
}

/// Whether something was carried out.
pub fn expect_process(event: ProcessEvent) -> (r: Result<(), String>)
    ensures
        outcome(r) == process_reply(event@),
{
    match event {
        ProcessEvent::Finished(result) => result,
        ProcessEvent::Exited(_) => Err("应答与请求不符".to_owned()),
    }
}

/// Goes on with what came of it.
pub open spec fn interactive_next(
    state: InteractiveView,
    event: ProcessEventView,
) -> StepView<ProcessActionView, InteractiveView, ()> {
    match state {
        InteractiveView::Spawned => match process_reply(event) {
            Err(error) => StepView::Done(
                Err("无法启动 Codex 官方登录："@ + error),
            ),
            Ok(_) => StepView::Ask(ProcessActionView::Attach, InteractiveView::Attached),
        },
        InteractiveView::Attached => match process_reply(event) {
            Err(error) => StepView::Ask(ProcessActionView::Kill, InteractiveView::Killed { error }),
            Ok(_) => StepView::Ask(ProcessActionView::Record, InteractiveView::Recorded),
        },
        InteractiveView::Recorded => match process_reply(event) {
            Err(error) => StepView::Ask(ProcessActionView::Kill, InteractiveView::Killed { error }),
            Ok(_) => StepView::Ask(ProcessActionView::Wait, InteractiveView::Waited),
        },
        InteractiveView::Killed { error } => StepView::Done(Err(error)),
        InteractiveView::Waited => StepView::Ask(
            ProcessActionView::HasExited,
            InteractiveView::Checked { result: process_reply(event) },
        ),
        InteractiveView::Checked { result } => match event {
            ProcessEventView::Exited(true) => StepView::Ask(
                ProcessActionView::Clear,
                InteractiveView::Cleared { result },
            ),
            _ => StepView::Done(result),
        },
        InteractiveView::Cleared { result } => match process_reply(event) {
            Err(error) => StepView::Done(Err(error)),
            Ok(_) => StepView::Done(result),
        },
    }
}

impl Interactive {
    /// Goes on with what came of it.
    pub fn resume(self, event: ProcessEvent) -> (r: Step<ProcessAction, Interactive, ()>)
        ensures
            r@ == interactive_next(self@, event@),
    {
        match self {
            Interactive::Spawned => match expect_process(event) {
                Err(error) => Step::Done(
                    Err(join2("无法启动 Codex 官方登录：", error.as_str())),
                ),
                Ok(_) => Step::Ask(ProcessAction::Attach, Interactive::Attached),
            },
            Interactive::Attached => match expect_process(event) {
                Err(error) => Step::Ask(ProcessAction::Kill, Interactive::Killed { error }),
                Ok(_) => Step::Ask(ProcessAction::Record, Interactive::Recorded),
            },
            Interactive::Recorded => match expect_process(event) {
                Err(error) => Step::Ask(ProcessAction::Kill, Interactive::Killed { error }),
                Ok(_) => Step::Ask(ProcessAction::Wait, Interactive::Waited),
            },
            Interactive::Killed { error } => Step::Done(Err(error)),
            Interactive::Waited => Step::Ask(
                ProcessAction::HasExited,
                Interactive::Checked { result: expect_process(event) },
            ),
            Interactive::Checked { result } => match event {
                ProcessEvent::Exited(true) => Step::Ask(
                    ProcessAction::Clear,
                    Interactive::Cleared { result },
                ),
                _ => Step::Done(result),
            },
            Interactive::Cleared { result } => match expect_process(event) {
                Err(error) => Step::Done(Err(error)),
                Ok(_) => Step::Done(result),
            },
        }
    }
}

/// What a login is for: a new account, or a new authorization of one that is saved.
#[derive(Debug)]
pub enum Purpose {
    Add { label: Option<String> },
    Renew { id: String },
}

/// What `Purpose` says.
#[verifier::ext_equal]
pub enum PurposeView {
    Add { label: Option<Seq<char>> },
    Renew { id: Seq<char> },
}

impl View for Purpose {
    type V = PurposeView;

    open spec fn view(&self) -> PurposeView {
        match self {
            Purpose::Add { label } => PurposeView::Add {
                label: held(*label),
            },
            Purpose::Renew { id } => PurposeView::Renew {
                id: id@,
            },
        }
    }
}

/// What a login is for once Codex is found: a renewal may concern the login in use, in the home of
/// this path.
#[derive(Debug)]
pub enum Errand {
    Add { label: Option<String> },
    Renew { id: String, codex_home: String },
}

/// What `Errand` says.
#[verifier::ext_equal]
pub enum ErrandView {
    Add { label: Option<Seq<char>> },
    Renew { id: Seq<char>, codex_home: Seq<char> },
}

impl View for Errand {
    type V = ErrandView;

    open spec fn view(&self) -> ErrandView {
        match self {
            Errand::Add { label } => ErrandView::Add { label: held(*label) },
            Errand::Renew { id, codex_home } => ErrandView::Renew {
                id: id@,
                codex_home: codex_home@,
            },
        }
    }
}

/// What a login asks for: to come to a phase; that no other operation is under way; that Codex is
/// found; a home; the official login there; a query of that home; an action on files.
#[derive(Debug)]
pub enum LoginAction {
    Phase(LoginPhase),
    Acquire,
    Discover,
    CreateHome,
    LogIn,
    Query,
    Do(Action),
}

/// What `LoginAction` says.
#[verifier::ext_equal]
pub enum LoginActionView {
    Phase(LoginPhase),
    Acquire,
    Discover,
    CreateHome,
    LogIn,
    Query,
    Do(ActionView),
}

impl View for LoginAction {
    type V = LoginActionView;

    open spec fn view(&self) -> LoginActionView {
        match self {
            LoginAction::Phase(inner) => LoginActionView::Phase(*inner),
            LoginAction::Acquire => LoginActionView::Acquire,
            LoginAction::Discover => LoginActionView::Discover,
            LoginAction::CreateHome => LoginActionView::CreateHome,
            LoginAction::LogIn => LoginActionView::LogIn,
            LoginAction::Query => LoginActionView::Query,
            LoginAction::Do(inner) => LoginActionView::Do(inner@),
        }
    }
}

/// How far a login is.
#[derive(Clone, Copy, Debug, PartialEq, Eq, Structural)]
pub enum LoginPhase {
    Queued,
    Waiting,
    Verifying,
    Saving,
}

/// The name of a phase.
pub open spec fn phase_text(phase: LoginPhase) -> Seq<char> {
    match phase {
        LoginPhase::Queued => "queued"@,
        LoginPhase::Waiting => "waiting"@,
        LoginPhase::Verifying => "verifying"@,
        LoginPhase::Saving => "saving"@,
    }
}

/// The name of a phase.
pub fn phase_name(phase: LoginPhase) -> (r: &'static str)
    ensures
        r@ == phase_text(phase),
{
    match phase {
        LoginPhase::Queued => "queued",
        LoginPhase::Waiting => "waiting",
        LoginPhase::Verifying => "verifying",
        LoginPhase::Saving => "saving",
    }
}

/// What comes of it; where Codex is found, with the path of its home.
#[derive(Debug)]
pub enum LoginEvent {
    Finished(Result<(), String>),
    Found(Result<String, String>),
    Created(Result<String, String>),
    Queried(Result<(), String>, Option<AccountInfo>),
    Did(Event),
}

/// What `LoginEvent` says.
#[verifier::ext_equal]
pub enum LoginEventView {
    Finished(Result<(), Seq<char>>),
    Found(Result<Seq<char>, Seq<char>>),
    Created(Result<Seq<char>, Seq<char>>),
    Queried(Result<(), Seq<char>>, Option<AccountInfoView>),
    Did(EventView),
}

impl View for LoginEvent {
    type V = LoginEventView;

    open spec fn view(&self) -> LoginEventView {
        match self {
            LoginEvent::Finished(inner) => LoginEventView::Finished(outcome(*inner)),
            LoginEvent::Found(inner) => LoginEventView::Found(outcome(*inner)),
            LoginEvent::Created(inner) => LoginEventView::Created(outcome(*inner)),
            LoginEvent::Queried(first, second) => LoginEventView::Queried(
                outcome(*first),
                held(*second),
            ),
            LoginEvent::Did(inner) => LoginEventView::Did(inner@),
        }
    }
}

/// A login from beginning to end. Once it has a home of its own, that home is cleared whatever
/// happens.
#[derive(Debug)]
pub enum Login {
    Queued { purpose: Purpose },
    Acquired { purpose: Purpose },
    Discovered { purpose: Purpose },
    Listed { id: String, codex_home: String },
    Home { errand: Errand },
    Waiting { name: String, errand: Errand },
    LoggedIn { name: String, errand: Errand },
    Identified { name: String, id: String, codex_home: String },
    Verifying { name: String, errand: Errand },
    Queried { name: String, errand: Errand },
    Idle { name: String, errand: Errand, account: Option<AccountInfo>, idle: EnsureIdle },
    Saving { name: String, errand: Errand, account: Option<AccountInfo> },
    Import { name: String, import: Import },
    Renew { name: String, renew: Reauthorize },
    Clean { result: Result<ReauthorizationOutcome, String>, clean: CleanLogin },
}

/// What `Login` says.
#[verifier::ext_equal]
pub enum LoginView {
    Queued { purpose: PurposeView },
    Acquired { purpose: PurposeView },
    Discovered { purpose: PurposeView },
    Listed { id: Seq<char>, codex_home: Seq<char> },
    Home { errand: ErrandView },
    Waiting { name: Seq<char>, errand: ErrandView },
    LoggedIn { name: Seq<char>, errand: ErrandView },
    Identified { name: Seq<char>, id: Seq<char>, codex_home: Seq<char> },
    Verifying { name: Seq<char>, errand: ErrandView },
    Queried { name: Seq<char>, errand: ErrandView },
    Idle {
        name: Seq<char>,
        errand: ErrandView,
        account: Option<AccountInfoView>,
        idle: EnsureIdleView,
    },
    Saving { name: Seq<char>, errand: ErrandView, account: Option<AccountInfoView> },
    Import { name: Seq<char>, import: ImportView },
    Renew { name: Seq<char>, renew: ReauthorizeView },
    Clean { result: Result<ReauthorizationOutcomeView, Seq<char>>, clean: CleanLoginView },
}

impl View for Login {
    type V = LoginView;

    open spec fn view(&self) -> LoginView {
        match self {
            Login::Queued { purpose } => LoginView::Queued {
                purpose: purpose@,
            },
            Login::Acquired { purpose } => LoginView::Acquired {
                purpose: purpose@,
            },
            Login::Discovered { purpose } => LoginView::Discovered {
                purpose: purpose@,
            },
            Login::Listed { id, codex_home } => LoginView::Listed {
                id: id@,
                codex_home: codex_home@,
            },
            Login::Home { errand } => LoginView::Home {
                errand: errand@,
            },
            Login::Waiting { name, errand } => LoginView::Waiting {
                name: name@,
                errand: errand@,
            },
            Login::LoggedIn { name, errand } => LoginView::LoggedIn {
                name: name@,
                errand: errand@,
            },
            Login::Identified { name, id, codex_home } => LoginView::Identified {
                name: name@,
                id: id@,
                codex_home: codex_home@,
            },
            Login::Verifying { name, errand } => LoginView::Verifying {
                name: name@,
                errand: errand@,
            },
            Login::Queried { name, errand } => LoginView::Queried {
                name: name@,
                errand: errand@,
            },
            Login::Idle { name, errand, account, idle } => LoginView::Idle {
                name: name@,
                errand: errand@,
                account: held(*account),
                idle: idle@,
            },
            Login::Saving { name, errand, account } => LoginView::Saving {
                name: name@,
                errand: errand@,
                account: held(*account),
            },
            Login::Import { name, import } => LoginView::Import {
                name: name@,
                import: import@,
            },
            Login::Renew { name, renew } => LoginView::Renew {
                name: name@,
                renew: renew@,
            },
            Login::Clean { result, clean } => LoginView::Clean {
                result: outcome(*result),
                clean: clean@,
            },
        }
    }
}

/// Begins a login.
pub open spec fn login_beginning(
    purpose: PurposeView,
) -> StepView<LoginActionView, LoginView, ReauthorizationOutcomeView> {
    StepView::Ask(LoginActionView::Phase(LoginPhase::Queued), LoginView::Queued { purpose })
}

/// Begins a login.
pub fn log_in(purpose: Purpose) -> (r: Step<LoginAction, Login, ReauthorizationOutcome>)
    ensures
        r@ == login_beginning(purpose@),
{
    Step::Ask(LoginAction::Phase(LoginPhase::Queued), Login::Queued { purpose })
}

/// Whether something was carried out.
pub open spec fn login_reply(event: LoginEventView) -> Result<(), Seq<char>> {
    match event {
        LoginEventView::Finished(result) => result,
        _ => Err("应答与请求不符"@),
    }
}

/// Whether something was carried out.
pub fn expect_login(event: LoginEvent) -> (r: Result<(), String>)
    ensures
        outcome(r) == login_reply(event@),
{
    match event {
        LoginEvent::Finished(result) => result,
        _ => Err("应答与请求不符".to_owned()),
    }
}

/// The path of the home of Codex, if Codex was found.
pub open spec fn found_reply(event: LoginEventView) -> Result<Seq<char>, Seq<char>> {
    match event {
        LoginEventView::Found(result) => result,
        _ => Err("应答与请求不符"@),
    }
}

/// The path of the home of Codex, if Codex was found.
pub fn expect_found(event: LoginEvent) -> (r: Result<String, String>)
    ensures
        outcome(r) == found_reply(event@),
{
    match event {
        LoginEvent::Found(result) => result,
        _ => Err("应答与请求不符".to_owned()),
    }
}

/// The answer to an action on files.
pub open spec fn login_file_reply(event: LoginEventView) -> EventView {
    match event {
        LoginEventView::Did(event) => event,
        _ => EventView::Rejected("应答与请求不符"@),
    }
}

/// The answer to an action on files.
pub fn expect_login_did(event: LoginEvent) -> (r: Event)
    ensures
        r@ == login_file_reply(event@),
{
    match event {
        LoginEvent::Did(event) => event,
        _ => Event::Rejected("应答与请求不符".to_owned()),
    }
}

/// Goes on with the home of the login being cleared.
pub open spec fn login_cleaned(
    result: Result<ReauthorizationOutcomeView, Seq<char>>,
    step: StepView<ActionView, CleanLoginView, ()>,
) -> StepView<LoginActionView, LoginView, ReauthorizationOutcomeView> {
    match step {
        StepView::Ask(action, clean) => StepView::Ask(
            LoginActionView::Do(action),
            LoginView::Clean { result, clean },
        ),
        StepView::Done(cleanup) => StepView::Done(combined(result, cleanup)),
    }
}

/// Goes on with the home of the login being cleared.
pub fn login_after_cleanup(
    result: Result<ReauthorizationOutcome, String>,
    step: Step<Action, CleanLogin, ()>,
) -> (r: Step<LoginAction, Login, ReauthorizationOutcome>)
    ensures
        r@ == login_cleaned(outcome(result), step@),
{
    match step {
        Step::Ask(action, clean) => Step::Ask(
            LoginAction::Do(action),
            Login::Clean { result, clean },
        ),
        Step::Done(cleanup) => Step::Done(combine_operation_and_cleanup(result, cleanup)),
    }
}

/// Clears the home of a login that has come to a result.
pub open spec fn login_settled(
    name: Seq<char>,
    result: Result<ReauthorizationOutcomeView, Seq<char>>,
) -> StepView<LoginActionView, LoginView, ReauthorizationOutcomeView> {
    login_cleaned(result, cleaning_login(HomeView::Login(name)))
}

/// Clears the home of a login that has come to a result.
pub fn settle_login(
    name: String,
    result: Result<ReauthorizationOutcome, String>,
) -> (r: Step<LoginAction, Login, ReauthorizationOutcome>)
    ensures
        r@ == login_settled(name@, outcome(result)),
{
    login_after_cleanup(result, cleanup_login(Home::Login(name)))
}

/// Goes on to verify what the login came to.
pub open spec fn login_verifying(
    name: Seq<char>,
    errand: ErrandView,
) -> StepView<LoginActionView, LoginView, ReauthorizationOutcomeView> {
    StepView::Ask(
        LoginActionView::Phase(LoginPhase::Verifying),
        LoginView::Verifying { name, errand },
    )
}

/// Goes on to verify what the login came to.
pub fn verify_login(
    name: String,
    errand: Errand,
) -> (r: Step<LoginAction, Login, ReauthorizationOutcome>)
    ensures
        r@ == login_verifying(name@, errand@),
{
    Step::Ask(
        LoginAction::Phase(LoginPhase::Verifying),
        Login::Verifying { name, errand },
    )
}

/// Goes on while it is not known whether a process works in the home.
pub open spec fn login_idle(
    name: Seq<char>,
    errand: ErrandView,
    account: Option<AccountInfoView>,
    step: StepView<ActionView, EnsureIdleView, ()>,
) -> StepView<LoginActionView, LoginView, ReauthorizationOutcomeView> {
    match step {
        StepView::Ask(action, idle) => StepView::Ask(
            LoginActionView::Do(action),
            LoginView::Idle { name, errand, account, idle },
        ),
        StepView::Done(Err(error)) => login_settled(name, Err(error)),
        StepView::Done(Ok(_)) => StepView::Ask(
            LoginActionView::Phase(LoginPhase::Saving),
            LoginView::Saving { name, errand, account },
        ),
    }
}

/// Goes on while it is not known whether a process works in the home.
pub fn login_after_idle(
    name: String,
    errand: Errand,
    account: Option<AccountInfo>,
    step: Step<Action, EnsureIdle, ()>,
) -> (r: Step<LoginAction, Login, ReauthorizationOutcome>)
    ensures
        r@ == login_idle(name@, errand@, held(account), step@),
{
    match step {
        Step::Ask(action, idle) => Step::Ask(
            LoginAction::Do(action),
            Login::Idle { name, errand, account, idle },
        ),
        Step::Done(Err(error)) => settle_login(name, Err(error)),
        Step::Done(Ok(_)) => Step::Ask(
            LoginAction::Phase(LoginPhase::Saving),
            Login::Saving { name, errand, account },
        ),
    }
}

/// Goes on with a new account being imported.
pub open spec fn login_imported(
    name: Seq<char>,
    step: StepView<ActionView, ImportView, SavedAccountView>,
) -> StepView<LoginActionView, LoginView, ReauthorizationOutcomeView> {
    match step {
        StepView::Ask(action, import) => StepView::Ask(
            LoginActionView::Do(action),
            LoginView::Import { name, import },
        ),
        StepView::Done(Err(error)) => login_settled(name, Err(error)),
        StepView::Done(Ok(account)) => login_settled(
            name,
            Ok(ReauthorizationOutcomeView { account, current_auth_updated: false }),
        ),
    }
}

/// Goes on with a new account being imported.
pub fn login_after_import(
    name: String,
    step: Step<Action, Import, SavedAccount>,
) -> (r: Step<LoginAction, Login, ReauthorizationOutcome>)
    ensures
        r@ == login_imported(name@, step@),
{
    match step {
        Step::Ask(action, import) => Step::Ask(
            LoginAction::Do(action),
            Login::Import { name, import },
        ),
        Step::Done(Err(error)) => settle_login(name, Err(error)),
        Step::Done(Ok(account)) => settle_login(
            name,
            Ok(ReauthorizationOutcome { account, current_auth_updated: false }),
        ),
    }
}

/// Goes on with a saved account being authorized anew.
pub open spec fn login_renewed(
    name: Seq<char>,
    step: StepView<ActionView, ReauthorizeView, (SavedAccountView, bool)>,
) -> StepView<LoginActionView, LoginView, ReauthorizationOutcomeView> {
    match step {
        StepView::Ask(action, renew) => StepView::Ask(
            LoginActionView::Do(action),
            LoginView::Renew { name, renew },
        ),
        StepView::Done(Err(error)) => login_settled(name, Err(error)),
        StepView::Done(Ok((account, current_auth_updated))) => login_settled(
            name,
            Ok(ReauthorizationOutcomeView { account, current_auth_updated }),
        ),
    }
}

/// Goes on with a saved account being authorized anew.
pub fn login_after_renewal(
    name: String,
    step: Step<Action, Reauthorize, (SavedAccount, bool)>,
) -> (r: Step<LoginAction, Login, ReauthorizationOutcome>)
    ensures
        r@ == login_renewed(name@, step@),
{
    match step {
        Step::Ask(action, renew) => Step::Ask(
            LoginAction::Do(action),
            Login::Renew { name, renew },
        ),
        Step::Done(Err(error)) => settle_login(name, Err(error)),
        Step::Done(Ok((account, current_auth_updated))) => settle_login(
            name,
            Ok(ReauthorizationOutcome { account, current_auth_updated }),
        ),
    }
}

/// Saves what the login came to.
pub open spec fn login_saving(
    name: Seq<char>,
    errand: ErrandView,
    account: Option<AccountInfoView>,
) -> StepView<LoginActionView, LoginView, ReauthorizationOutcomeView> {
    match errand {
        ErrandView::Add { label } => login_imported(
            name,
            importing(HomeView::Login(name), account, label),
        ),
        ErrandView::Renew { id, codex_home } => login_renewed(
            name,
            reauthorizing(codex_home, HomeView::Login(name), id, account),
        ),
    }
}

/// Saves what the login came to.
pub fn save_login(
    name: String,
    errand: Errand,
    account: Option<AccountInfo>,
) -> (r: Step<LoginAction, Login, ReauthorizationOutcome>)
    ensures
        r@ == login_saving(name@, errand@, held(account)),
{
    match errand {
        Errand::Add { label } => login_after_import(
            name.clone(),
            import_current(Home::Login(name), account, label),
        ),
        Errand::Renew { id, codex_home } => login_after_renewal(
            name.clone(),
            complete_reauthorization(
                codex_home.as_str(),
                Home::Login(name),
                id.as_str(),
                account,
            ),
        ),
    }
}

/// Goes on with what came of it.
pub open spec fn login_next(
    state: LoginView,
    event: LoginEventView,
) -> StepView<LoginActionView, LoginView, ReauthorizationOutcomeView> {
    match state {
        LoginView::Queued { purpose } => match login_reply(event) {
            Err(error) => StepView::Done(Err(error)),
            Ok(_) => StepView::Ask(LoginActionView::Acquire, LoginView::Acquired { purpose }),
        },
        LoginView::Acquired { purpose } => match login_reply(event) {
            Err(error) => StepView::Done(Err(error)),
            Ok(_) => StepView::Ask(LoginActionView::Discover, LoginView::Discovered { purpose }),
        },
        LoginView::Discovered { purpose } => match found_reply(event) {
            Err(error) => StepView::Done(Err(error)),
            Ok(codex_home) => match purpose {
                PurposeView::Add { label } => StepView::Ask(
                    LoginActionView::CreateHome,
                    LoginView::Home { errand: ErrandView::Add { label } },
                ),
                PurposeView::Renew { id } => StepView::Ask(
                    LoginActionView::Do(ActionView::ReadIndex),
                    LoginView::Listed { id, codex_home },
                ),
            },
        },
        LoginView::Listed { id, codex_home } => match index_reply(login_file_reply(event)) {
            Err(error) => StepView::Done(Err(error)),
            Ok(index) => if listed(index.accounts, id) {
                StepView::Ask(
                    LoginActionView::CreateHome,
                    LoginView::Home { errand: ErrandView::Renew { id, codex_home } },
                )
            } else {
                StepView::Done(Err("找不到这个保险库账号"@))
            },
        },
        LoginView::Home { errand } => match event {
            LoginEventView::Created(Ok(name)) => StepView::Ask(
                LoginActionView::Phase(LoginPhase::Waiting),
                LoginView::Waiting { name, errand },
            ),
            LoginEventView::Created(Err(error)) => StepView::Done(
                Err("无法创建隔离登录目录："@ + error),
            ),
            _ => StepView::Done(Err("应答与请求不符"@)),
        },
        LoginView::Waiting { name, errand } => match login_reply(event) {
            Err(error) => login_settled(name, Err(error)),
            Ok(_) => StepView::Ask(LoginActionView::LogIn, LoginView::LoggedIn { name, errand }),
        },
        LoginView::LoggedIn { name, errand } => match login_reply(event) {
            Err(error) => login_settled(name, Err(error)),
            Ok(_) => match errand {
                ErrandView::Add { label } => login_verifying(name, ErrandView::Add { label }),
                ErrandView::Renew { id, codex_home } => StepView::Ask(
                    LoginActionView::Do(
                        ActionView::Read(PlaceView::InHome(HomeView::Login(name), HomeFile::Auth)),
                    ),
                    LoginView::Identified { name, id, codex_home },
                ),
            },
        },
        LoginView::Identified { name, id, codex_home } => match isolated_id_reply(
            login_file_reply(event),
        ) {
            Err(error) => login_settled(name, Err(error)),
            Ok(found) => if found == id {
                login_verifying(name, ErrandView::Renew { id, codex_home })
            } else {
                login_settled(
                    name,
                    Err("登录的不是所选账号，已取消覆盖；请用该账号重新登录"@),
                )
            },
        },
        LoginView::Verifying { name, errand } => match login_reply(event) {
            Err(error) => login_settled(name, Err(error)),
            Ok(_) => StepView::Ask(LoginActionView::Query, LoginView::Queried { name, errand }),
        },
        LoginView::Queried { name, errand } => match event {
            LoginEventView::Queried(Ok(_), account) => login_idle(
                name,
                errand,
                account,
                ensuring_idle(HomeView::Login(name)),
            ),
            LoginEventView::Queried(Err(error), _) => login_settled(name, Err(error)),
            _ => login_settled(name, Err("应答与请求不符"@)),
        },
        LoginView::Idle { name, errand, account, idle } => login_idle(
            name,
            errand,
            account,
            ensure_idle_next(idle, login_file_reply(event)),
        ),
        LoginView::Saving { name, errand, account } => match login_reply(event) {
            Err(error) => login_settled(name, Err(error)),
            Ok(_) => login_saving(name, errand, account),
        },
        LoginView::Import { name, import } => login_imported(
            name,
            import_next(import, login_file_reply(event)),
        ),
        LoginView::Renew { name, renew } => login_renewed(
            name,
            reauthorize_next(renew, login_file_reply(event)),
        ),
        LoginView::Clean { result, clean } => login_cleaned(
            result,
            clean_login_next(clean, login_file_reply(event)),
        ),
    }
}

impl Login {
    /// Goes on with what came of it.
    pub fn resume(self, event: LoginEvent) -> (r: Step<LoginAction, Login, ReauthorizationOutcome>)
        ensures
            r@ == login_next(self@, event@),
    {
        match self {
            Login::Queued { purpose } => match expect_login(event) {
                Err(error) => Step::Done(Err(error)),
                Ok(_) => Step::Ask(LoginAction::Acquire, Login::Acquired { purpose }),
            },
            Login::Acquired { purpose } => match expect_login(event) {
                Err(error) => Step::Done(Err(error)),
                Ok(_) => Step::Ask(LoginAction::Discover, Login::Discovered { purpose }),
            },
            Login::Discovered { purpose } => match expect_found(event) {
                Err(error) => Step::Done(Err(error)),
                Ok(codex_home) => match purpose {
                    Purpose::Add { label } => Step::Ask(
                        LoginAction::CreateHome,
                        Login::Home { errand: Errand::Add { label } },
                    ),
                    Purpose::Renew { id } => Step::Ask(
                        LoginAction::Do(Action::ReadIndex),
                        Login::Listed { id, codex_home },
                    ),
                },
            },
            Login::Listed { id, codex_home } => match expect_index(expect_login_did(event)) {
                Err(error) => Step::Done(Err(error)),
                Ok(index) => if is_listed(&index.accounts, id.as_str()) {
                    Step::Ask(
                        LoginAction::CreateHome,
                        Login::Home { errand: Errand::Renew { id, codex_home } },
                    )
                } else {
                    Step::Done(Err("找不到这个保险库账号".to_owned()))
                },
            },
            Login::Home { errand } => match event {
                LoginEvent::Created(Ok(name)) => Step::Ask(
                    LoginAction::Phase(LoginPhase::Waiting),
                    Login::Waiting { name, errand },
                ),
                LoginEvent::Created(Err(error)) => Step::Done(
                    Err(join2("无法创建隔离登录目录：", error.as_str())),
                ),
                _ => Step::Done(Err("应答与请求不符".to_owned())),
            },
            Login::Waiting { name, errand } => match expect_login(event) {
                Err(error) => settle_login(name, Err(error)),
                Ok(_) => Step::Ask(LoginAction::LogIn, Login::LoggedIn { name, errand }),
            },
            Login::LoggedIn { name, errand } => match expect_login(event) {
                Err(error) => settle_login(name, Err(error)),
                Ok(_) => match errand {
                    Errand::Add { label } => verify_login(name, Errand::Add { label }),
                    Errand::Renew { id, codex_home } => Step::Ask(
                        LoginAction::Do(
                            Action::Read(Place::InHome(Home::Login(name.clone()), HomeFile::Auth)),
                        ),
                        Login::Identified { name, id, codex_home },
                    ),
                },
            },
            Login::Identified { name, id, codex_home } => match isolated_account_id(
                expect_login_did(event),
            ) {
                Err(error) => settle_login(name, Err(error)),
                Ok(found) => if same(found.as_str(), id.as_str()) {
                    verify_login(name, Errand::Renew { id, codex_home })
                } else {
                    settle_login(
                        name,
                        Err("登录的不是所选账号，已取消覆盖；请用该账号重新登录".to_owned()),
                    )
                },
            },
            Login::Verifying { name, errand } => match expect_login(event) {
                Err(error) => settle_login(name, Err(error)),
                Ok(_) => Step::Ask(LoginAction::Query, Login::Queried { name, errand }),
            },
            Login::Queried { name, errand } => match event {
                LoginEvent::Queried(Ok(_), account) => login_after_idle(
                    name.clone(),
                    errand,
                    account,
                    ensure_idle(Home::Login(name)),
                ),
                LoginEvent::Queried(Err(error), _) => settle_login(name, Err(error)),
                _ => settle_login(name, Err("应答与请求不符".to_owned())),
            },
            Login::Idle { name, errand, account, idle } => login_after_idle(
                name,
                errand,
                account,
                EnsureIdle::resume(idle, expect_login_did(event)),
            ),
            Login::Saving { name, errand, account } => match expect_login(event) {
                Err(error) => settle_login(name, Err(error)),
                Ok(_) => save_login(name, errand, account),
            },
            Login::Import { name, import } => login_after_import(
                name,
                Import::resume(import, expect_login_did(event)),
            ),
            Login::Renew { name, renew } => login_after_renewal(
                name,
                Reauthorize::resume(renew, expect_login_did(event)),
            ),
            Login::Clean { result, clean } => login_after_cleanup(
                result,
                CleanLogin::resume(clean, expect_login_did(event)),
            ),
        }
    }
}

/// Whether a login has a home of its own.
pub open spec fn has_home(machine: LoginView) -> bool {
    !(machine is Queued || machine is Acquired || machine is Discovered || machine is Listed
        || machine is Home)
}

/// A login that has a home of its own ends only by way of clearing it, and its result tells of
/// that: it succeeds only if the clearing did.
pub proof fn law_login_home_is_cleared(machine: LoginView, event: LoginEventView)
    ensures
        has_home(machine) && login_next(machine, event) is Done ==> machine is Clean,
        login_next(machine, event) matches StepView::Done(Ok(_)) ==> machine is Clean
            && machine->result is Ok,
        login_next(machine, event) matches StepView::Ask(_, next) ==> (has_home(machine)
            ==> has_home(next)),
{
}

/// Nothing is saved before the login has come to the phase of saving, from which on it can no
/// longer be cancelled.
pub proof fn law_login_is_saved_in_its_phase(machine: LoginView, event: LoginEventView)
    ensures
        login_next(machine, event) matches StepView::Ask(_, next) && (next is Import || next
            is Renew) ==> (machine is Saving && login_reply(event) is Ok) || machine is Import
            || machine is Renew,
{
}

} // verus!
