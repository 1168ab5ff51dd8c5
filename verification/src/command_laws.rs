//! What holds of the course of a switch, of a query of a saved account, and of a login.

use vstd::prelude::*;

use crate::accounts::{AccountIndexView, AccountInfoView, INDEX_VERSION};
use crate::app_server::UsageSnapshotView;
use crate::codex_desktop::RestartOutcomeView;
use crate::commands::{
    interactive_next, law_no_error_is_dropped, logging_in, login_beginning, login_file_reply,
    login_home_text, login_next, phase_text, query_and_cleanup, query_saved_next, restart_report,
    saved_file_reply, shown_label, switch_next, switching, ErrandView, InteractiveView,
    LoginActionView, LoginEventView, LoginPhase, LoginView, ProcessActionView, ProcessEventView,
    PurposeView, QuerySavedView, ReauthorizationOutcomeView, SavedActionView, SavedEventView,
    SwitchActionView, SwitchEventView, SwitchOutcomeView, SwitchView,
};
use crate::courses::{asked, lemma_course_join, lemma_course_step, reached};
use crate::credentials::usable_identity;
use crate::effects::{ActionView, EventView, HomeFile, HomeView, PlaceView, StepView};
use crate::home_laws::saved_query_machine;
use crate::index_laws::{
    has_no_entry, is_all_blank, is_first_entry, law_account_is_found_by_its_id,
    law_trimming_cuts_white_space_alone,
};
use crate::login::{can_cancel, check_verdict, ProgressView};
use crate::login_laws::login_machine;
use crate::recovery::clean_login_next;
use crate::switch_laws::switch_machine;
use crate::text::{begins_with, decimal, trimmed};
use crate::text_laws::law_digits_stand_for_the_number;
use crate::vault::{finish_next, finishing_isolated};

verus! {

/// The machine of the official login.
pub open spec fn interactive_machine() -> spec_fn(
    InteractiveView,
    ProcessEventView,
) -> StepView<ProcessActionView, InteractiveView, ()> {
    |machine: InteractiveView, event: ProcessEventView| interactive_next(machine, event)
}

/// Whether a step of a switch carries what was asked of it.
spec fn carries_restart(
    step: StepView<SwitchActionView, SwitchView, SwitchOutcomeView>,
    restart: bool,
) -> bool {
    match step {
        StepView::Ask(action, machine) => {
            &&& action is Restart <==> machine is Restart
            &&& match machine {
                SwitchView::Save { restart: r, .. } => r == restart,
                SwitchView::Activate { restart: r, .. } => r == restart,
                SwitchView::Index { restart: r, .. } => r == restart,
                SwitchView::Restart { .. } => restart,
            }
        },
        StepView::Done(result) => result matches Ok(done) ==> !restart && is_without_restart(done),
    }
}

/// Whether a switch tells that no restart was asked for.
pub open spec fn is_without_restart(done: SwitchOutcomeView) -> bool {
    !done.restart_requested && !done.restart_succeeded && !done.codex_was_running
        && done.processes_closed == 0 && done.restart_warning is None
}

/// Whether a switch tells what a restart came to.
pub open spec fn tells_restart(done: SwitchOutcomeView, event: SwitchEventView) -> bool {
    &&& done.restart_requested
    &&& match event {
        SwitchEventView::Restarted(Ok(outcome)) => done.restart_succeeded && done.codex_was_running
            == outcome.was_running && done.processes_closed == outcome.processes_closed
            && done.restart_warning is None,
        SwitchEventView::Restarted(Err(warning)) => !done.restart_succeeded
            && !done.codex_was_running && done.processes_closed == 0 && done.restart_warning
            == Some(warning),
        SwitchEventView::Did(_) => !done.restart_succeeded && !done.codex_was_running
            && done.processes_closed == 0 && done.restart_warning is Some,
    }
}

/// What holds of the course of a switch from some step on.
proof fn lemma_switch_course(
    step: StepView<SwitchActionView, SwitchView, SwitchOutcomeView>,
    restart: bool,
    events: Seq<SwitchEventView>,
    done: SwitchOutcomeView,
)
    requires
        carries_restart(step, restart),
        reached(switch_machine(), step, events) == (StepView::<
            SwitchActionView,
            SwitchView,
            SwitchOutcomeView,
        >::Done(Ok(done))),
    ensures
        ({
            let course = asked(switch_machine(), step, events);
            &&& !restart ==> is_without_restart(done) && forall|k: int|
                0 <= k < course.len() ==> !(#[trigger] course[k] is Restart)
            &&& restart ==> 0 < course.len() <= events.len() && course.last() is Restart
                && tells_restart(done, events[course.len() - 1])
        }),
    decreases events.len(),
{
    let machine = switch_machine();
    let course = asked(machine, step, events);
    if let StepView::Ask(action, state) = step {
        let later = events.drop_first();
        assert(events =~= seq![events[0]] + later);
        lemma_course_step(machine, action, state, events[0], later);
        let next = switch_next(state, events[0]);
        let rest = asked(machine, next, later);
        assert(course == seq![action] + rest);
        if state is Restart {
            assert(rest =~= seq![]);
        } else {
            lemma_switch_course(next, restart, later, done);
            if restart {
                assert(course.last() == rest.last());
                assert(events[course.len() - 1] == later[rest.len() - 1]);
            } else {
                assert forall|k: int| 0 <= k < course.len() implies !(
                #[trigger] course[k] is Restart) by {
                    if k > 0 {
                        assert(course[k] == rest[k - 1]);
                    }
                }
            }
        }
    }
}

/// In every course of a switch that succeeds, Codex is restarted last, and only if that was asked
/// for; what the switch tells of it is what came of it, and that a restart failed is a warning.
pub proof fn law_switch_restarts_only_if_asked(
    id: Seq<char>,
    codex_home: Seq<char>,
    restart: bool,
    events: Seq<SwitchEventView>,
    done: SwitchOutcomeView,
)
    requires
        reached(switch_machine(), switching(id, codex_home, restart), events) == (StepView::<
            SwitchActionView,
            SwitchView,
            SwitchOutcomeView,
        >::Done(Ok(done))),
    ensures
        ({
            let course = asked(switch_machine(), switching(id, codex_home, restart), events);
            &&& !restart ==> is_without_restart(done) && forall|k: int|
                0 <= k < course.len() ==> !(#[trigger] course[k] is Restart)
            &&& restart ==> 0 < course.len() <= events.len() && course.last() is Restart
                && tells_restart(done, events[course.len() - 1])
        }),
{
    lemma_switch_course(switching(id, codex_home, restart), restart, events, done);
}

/// What a restart tells when it was asked for by itself.
pub proof fn law_restart_is_reported(result: Result<RestartOutcomeView, Seq<char>>)
    ensures
        restart_report(result).succeeded <==> result is Ok,
        result is Ok ==> restart_report(result).warning is None,
        result matches Err(error) ==> restart_report(result).warning == Some(error),
{
}

/// A query of a saved account gives a snapshot only where the home was taken back; an error of
/// either is told, and that of the query comes first.
pub proof fn law_query_error_is_not_dropped(
    result: Result<UsageSnapshotView, Seq<char>>,
    cleanup: Result<(), Seq<char>>,
)
    ensures
        query_and_cleanup(result, cleanup) is Ok <==> result is Ok && cleanup is Ok,
        cleanup is Ok ==> query_and_cleanup(result, cleanup) == result,
        cleanup matches Err(error) ==> query_and_cleanup(result, cleanup) == Err::<
            UsageSnapshotView,
            Seq<char>,
        >(
            match result {
                Ok(_) => error,
                Err(first) => first + "；同时清理隔离认证状态失败："@ + error,
            },
        ),
{
}

/// Whether a step of a query of a saved account is one after the query, which came to this.
spec fn is_after_query(
    step: StepView<SavedActionView, QuerySavedView, UsageSnapshotView>,
    result: Result<UsageSnapshotView, Seq<char>>,
) -> bool {
    match step {
        StepView::Ask(action, machine) => action is Do && (machine matches QuerySavedView::Finish {
            result: r,
            ..
        } && r == result),
        StepView::Done(Ok(told)) => result == Ok::<UsageSnapshotView, Seq<char>>(told),
        StepView::Done(Err(all)) => result matches Err(error) ==> begins_with(all, error),
    }
}

/// Joining the errors keeps the first of them.
proof fn lemma_error_comes_first(
    result: Result<UsageSnapshotView, Seq<char>>,
    cleanup: Result<(), Seq<char>>,
)
    ensures
        is_after_query(StepView::Done(query_and_cleanup(result, cleanup)), result),
{
    if let Err(first) = result {
        assert(first.subrange(0, first.len() as int) =~= first);
        if let Err(second) = cleanup {
            let all = first + "；同时清理隔离认证状态失败："@ + second;
            assert(all.subrange(0, first.len() as int) =~= first);
        }
    }
}

/// What comes of a query does not change after it.
proof fn lemma_after_query(
    step: StepView<SavedActionView, QuerySavedView, UsageSnapshotView>,
    result: Result<UsageSnapshotView, Seq<char>>,
    events: Seq<SavedEventView>,
)
    requires
        is_after_query(step, result),
    ensures
        is_after_query(reached(saved_query_machine(), step, events), result),
    decreases events.len(),
{
    if let StepView::Ask(action, state) = step {
        if events.len() > 0 {
            let next = query_saved_next(state, events[0]);
            if let QuerySavedView::Finish { finish, .. } = state {
                if let StepView::Done(cleanup) = finish_next(finish, saved_file_reply(events[0])) {
                    lemma_error_comes_first(result, cleanup);
                }
            }
            lemma_after_query(next, result, events.drop_first());
        }
    }
}

/// What a query of a saved account comes to is what the query itself came to, whatever comes of
/// taking the home back, if that succeeds; an error of the query is told first.
pub proof fn law_result_of_the_query_is_told(
    id: Seq<char>,
    result: Result<UsageSnapshotView, Seq<char>>,
    events: Seq<SavedEventView>,
    told: Result<UsageSnapshotView, Seq<char>>,
)
    requires
        reached(
            saved_query_machine(),
            query_saved_next(QuerySavedView::Query { id }, SavedEventView::Queried(result)),
            events,
        ) == (StepView::<SavedActionView, QuerySavedView, UsageSnapshotView>::Done(told)),
    ensures
        told matches Ok(snapshot) ==> result == Ok::<UsageSnapshotView, Seq<char>>(snapshot),
        result matches Err(error) ==> (told matches Err(all) && begins_with(all, error)),
{
    let step = query_saved_next(QuerySavedView::Query { id }, SavedEventView::Queried(result));
    if let StepView::Done(cleanup) = finishing_isolated(id) {
        lemma_error_comes_first(result, cleanup);
    }
    lemma_after_query(step, result, events);
}

/// The official login, where nothing fails but perhaps the login: the process is started, attached,
/// recorded and waited for, and the record is removed if the process has left. What came of waiting
/// is told.
pub proof fn law_course_of_the_official_login(
    result: Result<(), Seq<char>>,
    cleared: Result<(), Seq<char>>,
)
    ensures
        ({
            let done = ProcessEventView::Finished(Ok(()));
            let events = seq![
                done,
                done,
                done,
                ProcessEventView::Finished(result),
                ProcessEventView::Exited(true),
                ProcessEventView::Finished(cleared),
            ];
            &&& asked(interactive_machine(), logging_in(), events) == seq![
                ProcessActionView::Spawn,
                ProcessActionView::Attach,
                ProcessActionView::Record,
                ProcessActionView::Wait,
                ProcessActionView::HasExited,
                ProcessActionView::Clear,
            ]
            &&& reached(interactive_machine(), logging_in(), events) == StepView::<
                ProcessActionView,
                InteractiveView,
                (),
            >::Done(
                if cleared is Ok {
                    result
                } else {
                    cleared
                },
            )
        }),
{
    reveal_with_fuel(asked, 8);
    reveal_with_fuel(reached, 8);
    let done = ProcessEventView::Finished(Ok(()));
    let events = seq![
        done,
        done,
        done,
        ProcessEventView::Finished(result),
        ProcessEventView::Exited(true),
        ProcessEventView::Finished(cleared),
    ];
    assert(asked(interactive_machine(), logging_in(), events) =~= seq![
        ProcessActionView::Spawn,
        ProcessActionView::Attach,
        ProcessActionView::Record,
        ProcessActionView::Wait,
        ProcessActionView::HasExited,
        ProcessActionView::Clear,
    ]);
}

/// A process of the official login that may still run stays recorded; what came of waiting for it
/// is told.
pub proof fn law_running_login_stays_recorded(
    result: Result<(), Seq<char>>,
    event: ProcessEventView,
)
    requires
        event != ProcessEventView::Exited(true),
    ensures
        interactive_next(InteractiveView::Checked { result }, event) == StepView::<
            ProcessActionView,
            InteractiveView,
            (),
        >::Done(result),
{
}

/// A process of the official login that cannot be attached or recorded is killed, and the login
/// fails for that reason; one that cannot be started is told so.
pub proof fn law_unrecorded_login_is_killed(error: Seq<char>, any: ProcessEventView)
    ensures
        ({
            let failed = ProcessEventView::Finished(Err(error));
            let done = ProcessEventView::Finished(Ok(()));
            let told = StepView::<ProcessActionView, InteractiveView, ()>::Done(Err(error));
            &&& asked(interactive_machine(), logging_in(), seq![done, failed, any]) == seq![
                ProcessActionView::Spawn,
                ProcessActionView::Attach,
                ProcessActionView::Kill,
            ]
            &&& reached(interactive_machine(), logging_in(), seq![done, failed, any]) == told
            &&& asked(interactive_machine(), logging_in(), seq![done, done, failed, any]) == seq![
                ProcessActionView::Spawn,
                ProcessActionView::Attach,
                ProcessActionView::Record,
                ProcessActionView::Kill,
            ]
            &&& reached(interactive_machine(), logging_in(), seq![done, done, failed, any]) == told
            &&& reached(interactive_machine(), logging_in(), seq![failed]) == StepView::<
                ProcessActionView,
                InteractiveView,
                (),
            >::Done(Err("无法启动 Codex 官方登录："@ + error))
        }),
{
    reveal_with_fuel(asked, 6);
    reveal_with_fuel(reached, 6);
    let failed = ProcessEventView::Finished(Err(error));
    let done = ProcessEventView::Finished(Ok(()));
    assert(asked(interactive_machine(), logging_in(), seq![done, failed, any]) =~= seq![
        ProcessActionView::Spawn,
        ProcessActionView::Attach,
        ProcessActionView::Kill,
    ]);
    assert(asked(interactive_machine(), logging_in(), seq![done, done, failed, any]) =~= seq![
        ProcessActionView::Spawn,
        ProcessActionView::Attach,
        ProcessActionView::Record,
        ProcessActionView::Kill,
    ]);
}

/// A login that adds an account, up to the query of it: it waits for its turn, Codex is found, a
/// home is made for it, the official login is held there, and the account is queried.
pub proof fn law_course_of_a_login(
    label: Option<Seq<char>>,
    codex_home: Seq<char>,
    name: Seq<char>,
)
    ensures
        ({
            let done = LoginEventView::Finished(Ok(()));
            let events = seq![
                done,
                done,
                LoginEventView::Found(Ok(codex_home)),
                LoginEventView::Created(Ok(name)),
                done,
                done,
                done,
            ];
            &&& asked(login_machine(), login_beginning(PurposeView::Add { label }), events) == seq![
                LoginActionView::Phase(LoginPhase::Queued),
                LoginActionView::Acquire,
                LoginActionView::Discover,
                LoginActionView::CreateHome,
                LoginActionView::Phase(LoginPhase::Waiting),
                LoginActionView::LogIn,
                LoginActionView::Phase(LoginPhase::Verifying),
                LoginActionView::Query,
            ]
        }),
{
    reveal_with_fuel(asked, 9);
    let done = LoginEventView::Finished(Ok(()));
    let events = seq![
        done,
        done,
        LoginEventView::Found(Ok(codex_home)),
        LoginEventView::Created(Ok(name)),
        done,
        done,
        done,
    ];
    assert(asked(login_machine(), login_beginning(PurposeView::Add { label }), events) =~= seq![
        LoginActionView::Phase(LoginPhase::Queued),
        LoginActionView::Acquire,
        LoginActionView::Discover,
        LoginActionView::CreateHome,
        LoginActionView::Phase(LoginPhase::Waiting),
        LoginActionView::LogIn,
        LoginActionView::Phase(LoginPhase::Verifying),
        LoginActionView::Query,
    ]);
}

/// A login that authorizes an account anew, up to the query of it: no home is made for an account
/// that is not listed, and one that logs in as another account is not queried.
pub proof fn law_course_of_a_new_authorization(
    id: Seq<char>,
    codex_home: Seq<char>,
    name: Seq<char>,
    index: AccountIndexView,
    auth: Seq<u8>,
)
    requires
        index.version == INDEX_VERSION,
    ensures
        ({
            let done = LoginEventView::Finished(Ok(()));
            let start = login_beginning(PurposeView::Renew { id });
            let look = seq![
                done,
                done,
                LoginEventView::Found(Ok(codex_home)),
                LoginEventView::Did(EventView::Index(index)),
            ];
            let log_in = seq![
                LoginEventView::Created(Ok(name)),
                done,
                done,
                LoginEventView::Did(EventView::Bytes(auth)),
            ];
            let looked = seq![
                LoginActionView::Phase(LoginPhase::Queued),
                LoginActionView::Acquire,
                LoginActionView::Discover,
                LoginActionView::Do(ActionView::ReadIndex),
            ];
            let logged_in = seq![
                LoginActionView::CreateHome,
                LoginActionView::Phase(LoginPhase::Waiting),
                LoginActionView::LogIn,
                LoginActionView::Do(
                    ActionView::Read(PlaceView::InHome(HomeView::Login(name), HomeFile::Auth)),
                ),
            ];
            let verified = seq![
                LoginActionView::Phase(LoginPhase::Verifying),
                LoginActionView::Query,
            ];
            &&& has_no_entry(index.accounts, id) ==> asked(login_machine(), start, look) == looked
                && reached(login_machine(), start, look) == StepView::<
                LoginActionView,
                LoginView,
                ReauthorizationOutcomeView,
            >::Done(Err("找不到这个保险库账号"@))
            &&& !has_no_entry(index.accounts, id) && usable_identity(auth) == Ok::<
                Seq<char>,
                Seq<char>,
            >(id) ==> asked(login_machine(), start, look + log_in + seq![done]) == looked
                + logged_in + verified
        }),
{
    lemma_account_is_looked_up(id, codex_home, index);
    let done = LoginEventView::Finished(Ok(()));
    let start = login_beginning(PurposeView::Renew { id });
    let look = seq![
        done,
        done,
        LoginEventView::Found(Ok(codex_home)),
        LoginEventView::Did(EventView::Index(index)),
    ];
    let looked = seq![
        LoginActionView::Phase(LoginPhase::Queued),
        LoginActionView::Acquire,
        LoginActionView::Discover,
        LoginActionView::Do(ActionView::ReadIndex),
    ];
    if !has_no_entry(index.accounts, id) {
        if usable_identity(auth) == Ok::<Seq<char>, Seq<char>>(id) {
            lemma_authorization_in_home(id, codex_home, name, auth);
            let log_in = seq![
                LoginEventView::Created(Ok(name)),
                done,
                done,
                LoginEventView::Did(EventView::Bytes(auth)),
            ];
            lemma_course_join(login_machine(), start, look, log_in + seq![done]);
            assert(look + log_in + seq![done] =~= look + (log_in + seq![done]));
            let logged_in = seq![
                LoginActionView::CreateHome,
                LoginActionView::Phase(LoginPhase::Waiting),
                LoginActionView::LogIn,
                LoginActionView::Do(
                    ActionView::Read(PlaceView::InHome(HomeView::Login(name), HomeFile::Auth)),
                ),
            ];
            let verified = seq![
                LoginActionView::Phase(LoginPhase::Verifying),
                LoginActionView::Query,
            ];
            assert(looked.push(LoginActionView::CreateHome).drop_last() =~= looked);
            assert(looked + (logged_in + verified) =~= looked + logged_in + verified);
        }
    }
}

/// A new authorization up to the moment at which its account is looked up.
proof fn lemma_account_is_looked_up(
    id: Seq<char>,
    codex_home: Seq<char>,
    index: AccountIndexView,
)
    requires
        index.version == INDEX_VERSION,
    ensures
        ({
            let done = LoginEventView::Finished(Ok(()));
            let start = login_beginning(PurposeView::Renew { id });
            let look = seq![
                done,
                done,
                LoginEventView::Found(Ok(codex_home)),
                LoginEventView::Did(EventView::Index(index)),
            ];
            let looked = seq![
                LoginActionView::Phase(LoginPhase::Queued),
                LoginActionView::Acquire,
                LoginActionView::Discover,
                LoginActionView::Do(ActionView::ReadIndex),
            ];
            if has_no_entry(index.accounts, id) {
                &&& asked(login_machine(), start, look) == looked
                &&& reached(login_machine(), start, look) == StepView::<
                    LoginActionView,
                    LoginView,
                    ReauthorizationOutcomeView,
                >::Done(Err("找不到这个保险库账号"@))
            } else {
                &&& asked(login_machine(), start, look) == looked.push(LoginActionView::CreateHome)
                &&& reached(login_machine(), start, look) == StepView::<
                    LoginActionView,
                    LoginView,
                    ReauthorizationOutcomeView,
                >::Ask(
                    LoginActionView::CreateHome,
                    LoginView::Home { errand: ErrandView::Renew { id, codex_home } },
                )
            }
        }),
{
    law_account_is_found_by_its_id(index.accounts, id, 0);
    if !has_no_entry(index.accounts, id) {
        let at = choose|at: int| is_first_entry(index.accounts, id, at);
        law_account_is_found_by_its_id(index.accounts, id, at);
    }
    let machine = login_machine();
    let purpose = PurposeView::Renew { id };
    let done = LoginEventView::Finished(Ok(()));
    let found = LoginEventView::Found(Ok(codex_home));
    let read = LoginEventView::Did(EventView::Index(index));
    let none = Seq::<LoginEventView>::empty();
    let queued = LoginActionView::Phase(LoginPhase::Queued);
    let reading = LoginActionView::Do(ActionView::ReadIndex);
    let listing = LoginView::Listed { id, codex_home };
    let last = login_next(listing, read);
    let e3 = seq![read] + none;
    lemma_course_step(machine, reading, listing, read, none);
    let e2 = seq![found] + e3;
    lemma_course_step(
        machine,
        LoginActionView::Discover,
        LoginView::Discovered { purpose },
        found,
        e3,
    );
    let e1 = seq![done] + e2;
    lemma_course_step(
        machine,
        LoginActionView::Acquire,
        LoginView::Acquired { purpose },
        done,
        e2,
    );
    lemma_course_step(machine, queued, LoginView::Queued { purpose }, done, e1);
    assert(seq![done, done, found, read] =~= seq![done] + e1);
    let looked = seq![queued, LoginActionView::Acquire, LoginActionView::Discover, reading];
    let tail = asked(machine, last, none);
    assert(seq![queued] + (seq![LoginActionView::Acquire] + (seq![LoginActionView::Discover] + (
    seq![reading] + tail))) =~= looked + tail);
    if has_no_entry(index.accounts, id) {
        assert(looked + tail =~= looked);
    } else {
        assert(looked + tail =~= looked.push(LoginActionView::CreateHome));
    }
}

/// A new authorization from the moment at which its home is made.
proof fn lemma_authorization_in_home(
    id: Seq<char>,
    codex_home: Seq<char>,
    name: Seq<char>,
    auth: Seq<u8>,
)
    requires
        usable_identity(auth) == Ok::<Seq<char>, Seq<char>>(id),
    ensures
        ({
            let home = StepView::<LoginActionView, LoginView, ReauthorizationOutcomeView>::Ask(
                LoginActionView::CreateHome,
                LoginView::Home { errand: ErrandView::Renew { id, codex_home } },
            );
            let done = LoginEventView::Finished(Ok(()));
            let log_in = seq![
                LoginEventView::Created(Ok(name)),
                done,
                done,
                LoginEventView::Did(EventView::Bytes(auth)),
            ];
            asked(login_machine(), home, log_in + seq![done]) == seq![
                LoginActionView::CreateHome,
                LoginActionView::Phase(LoginPhase::Waiting),
                LoginActionView::LogIn,
                LoginActionView::Do(
                    ActionView::Read(PlaceView::InHome(HomeView::Login(name), HomeFile::Auth)),
                ),
            ] + seq![LoginActionView::Phase(LoginPhase::Verifying), LoginActionView::Query]
        }),
{
    reveal_with_fuel(asked, 7);
    let home = StepView::<LoginActionView, LoginView, ReauthorizationOutcomeView>::Ask(
        LoginActionView::CreateHome,
        LoginView::Home { errand: ErrandView::Renew { id, codex_home } },
    );
    let done = LoginEventView::Finished(Ok(()));
    let log_in = seq![
        LoginEventView::Created(Ok(name)),
        done,
        done,
        LoginEventView::Did(EventView::Bytes(auth)),
    ];
    assert(log_in + seq![done] =~= seq![log_in[0], log_in[1], log_in[2], log_in[3], done]);
    assert(asked(login_machine(), home, log_in + seq![done]) =~= seq![
        LoginActionView::CreateHome,
        LoginActionView::Phase(LoginPhase::Waiting),
        LoginActionView::LogIn,
        LoginActionView::Do(
            ActionView::Read(PlaceView::InHome(HomeView::Login(name), HomeFile::Auth)),
        ),
    ] + seq![LoginActionView::Phase(LoginPhase::Verifying), LoginActionView::Query]);
}

/// Whether a step of a login is one after its outcome is known, which stays what it is.
spec fn is_after_outcome(
    step: StepView<LoginActionView, LoginView, ReauthorizationOutcomeView>,
    result: Result<ReauthorizationOutcomeView, Seq<char>>,
) -> bool {
    match step {
        StepView::Ask(action, machine) => machine matches LoginView::Clean { result: r, .. } && r
            == result,
        StepView::Done(Ok(told)) => result == Ok::<ReauthorizationOutcomeView, Seq<char>>(told),
        StepView::Done(Err(all)) => result matches Err(error) ==> begins_with(all, error),
    }
}

/// The outcome of a login does not change while its home is cleared.
proof fn lemma_after_outcome(
    step: StepView<LoginActionView, LoginView, ReauthorizationOutcomeView>,
    result: Result<ReauthorizationOutcomeView, Seq<char>>,
    events: Seq<LoginEventView>,
)
    requires
        is_after_outcome(step, result),
    ensures
        is_after_outcome(reached(login_machine(), step, events), result),
    decreases events.len(),
{
    if let StepView::Ask(action, state) = step {
        if events.len() > 0 {
            if let LoginView::Clean { clean, .. } = state {
                let cleaned = clean_login_next(clean, login_file_reply(events[0]));
                if let StepView::Done(cleanup) = cleaned {
                    law_no_error_is_dropped(result, cleanup);
                }
            }
            lemma_after_outcome(login_next(state, events[0]), result, events.drop_first());
        }
    }
}

/// What fails in a login is told, first of all, after its home was cleared: an official login that
/// fails, a cancellation in the meantime, a query that fails, a phase that is not granted. None of
/// them comes to a success.
pub proof fn law_failure_of_a_login_is_told(
    state: LoginView,
    error: Seq<char>,
    account: Option<AccountInfoView>,
    events: Seq<LoginEventView>,
    told: Result<ReauthorizationOutcomeView, Seq<char>>,
)
    requires
        state is Waiting || state is LoggedIn || state is Verifying || state is Queried
            || state is Saving,
        ({
            let failed = if state is Queried {
                LoginEventView::Queried(Err(error), account)
            } else {
                LoginEventView::Finished(Err(error))
            };
            reached(login_machine(), login_next(state, failed), events) == (StepView::<
                LoginActionView,
                LoginView,
                ReauthorizationOutcomeView,
            >::Done(told))
        }),
    ensures
        told matches Err(all) && begins_with(all, error),
{
    let failed = if state is Queried {
        LoginEventView::Queried(Err(error), account)
    } else {
        LoginEventView::Finished(Err(error))
    };
    lemma_after_outcome(login_next(state, failed), Err(error), events);
}

/// What is shown of the account in use: its label without the white space around it, or that the
/// account is not known.
pub proof fn law_shown_label(label: Seq<char>)
    ensures
        shown_label(None) == "未识别当前账号"@,
        is_all_blank(label) ==> shown_label(Some(label)) == "未识别当前账号"@,
        !is_all_blank(label) ==> shown_label(Some(label)) == trimmed(label),
{
    law_trimming_cuts_white_space_alone(label);
}

/// A login for an account that turns out to be one of another account is called off, and that is
/// told; nothing of it is saved.
pub proof fn law_login_of_another_account_is_called_off(
    name: Seq<char>,
    id: Seq<char>,
    codex_home: Seq<char>,
    auth: Seq<u8>,
    other: Seq<char>,
    events: Seq<LoginEventView>,
    told: Result<ReauthorizationOutcomeView, Seq<char>>,
)
    requires
        usable_identity(auth) == Ok::<Seq<char>, Seq<char>>(other),
        other != id,
        reached(
            login_machine(),
            login_next(
                LoginView::Identified { name, id, codex_home },
                LoginEventView::Did(EventView::Bytes(auth)),
            ),
            events,
        ) == (StepView::<LoginActionView, LoginView, ReauthorizationOutcomeView>::Done(told)),
    ensures
        told matches Err(all) && begins_with(
            all,
            "登录的不是所选账号，已取消覆盖；请用该账号重新登录"@,
        ),
{
    let error = "登录的不是所选账号，已取消覆盖；请用该账号重新登录"@;
    let step = login_next(
        LoginView::Identified { name, id, codex_home },
        LoginEventView::Did(EventView::Bytes(auth)),
    );
    lemma_after_outcome(step, Err(error), events);
}

/// The homes of two logins that are made by different processes or with different marks have
/// different names.
pub proof fn law_login_homes_have_names_of_their_own(a: u32, m: u128, b: u32, n: u128)
    requires
        a != b || m != n,
    ensures
        login_home_text(a, m) != login_home_text(b, n),
{
    reveal_strlit("-");
    law_digits_stand_for_the_number(a as nat);
    law_digits_stand_for_the_number(b as nat);
    law_digits_stand_for_the_number(m as nat);
    law_digits_stand_for_the_number(n as nat);
    let (left, right) = (decimal(a as nat), decimal(b as nat));
    let one = login_home_text(a, m);
    let two = login_home_text(b, n);
    if one == two {
        assert(one[left.len() as int] == '-');
        assert(two[right.len() as int] == '-');
        if left.len() < right.len() {
            assert(two[left.len() as int] == right[left.len() as int]);
        }
        if right.len() < left.len() {
            assert(one[right.len() as int] == left[right.len() as int]);
        }
        assert(left =~= one.take(left.len() as int));
        assert(right =~= two.take(left.len() as int));
        assert(decimal(m as nat) =~= one.skip(left.len() as int + 1));
        assert(decimal(n as nat) =~= two.skip(left.len() as int + 1));
    }
}

/// The phases of a login by their names. The one in which it is saved is the one in which it is no
/// longer cancelled; in every other it is.
pub proof fn law_phases_have_their_names(phase: LoginPhase, id: Seq<char>)
    ensures
        phase_text(LoginPhase::Queued) == "queued"@,
        phase_text(LoginPhase::Waiting) == "waiting"@,
        phase_text(LoginPhase::Verifying) == "verifying"@,
        phase_text(LoginPhase::Saving) == "saving"@,
        can_cancel(Some(ProgressView { request_id: id, phase: phase_text(phase) }), id) <==> !(phase
            is Saving),
        check_verdict(Some(ProgressView { request_id: id, phase: phase_text(phase) })) is Ok,
{
    reveal_strlit("queued");
    reveal_strlit("waiting");
    reveal_strlit("verifying");
    reveal_strlit("saving");
    reveal_strlit("cancelling");
    assert("queued"@[0] == 'q' && "saving"@[0] == 's');
    assert("queued"@.len() == 6 && "waiting"@.len() == 7 && "verifying"@.len() == 9);
    assert("saving"@.len() == 6 && "cancelling"@.len() == 10);
}

} // verus!
