//! What a recovery tells.

use vstd::prelude::*;

use crate::accounts::SavedAccountView;
use crate::courses::asked;
use crate::credentials::usable_identity;
use crate::digest::{hex, sha256};
use crate::effects::{
    done_reply, failure_text, ActionView, EntryView, EventView, HomeFile, HomeView, PlaceView,
    StepView,
};
use crate::recovery::{
    checked_remove_next, concluded, empty_report, recover_current, recover_next, run_done,
    run_entries, run_next, run_recover, running_recovery, sweep_next, tally_cleaned, tally_failed,
    CheckedRemoveView, RecoverView, RecoveredView, ReportView, RunView, SweepView, TallyView,
    TransactionView,
};
use crate::startup_laws::run_machine;
use crate::text::decimal;
use crate::vault::ImportView;

verus! {

/// The end of a report: what was settled, how many files were cleared, and what went wrong, in this
/// order. It asks for attention where something went wrong, or where it did before.
pub proof fn law_report_tells_what_went_wrong(report: ReportView, tally: TallyView)
    ensures
        ({
            let told = concluded(report, tally);
            let count = if tally.cleaned > 0 {
                seq![
                    "已清理 "@ + decimal(tally.cleaned as nat) + " 份遗留临时认证文件。"@,
                ]
            } else {
                Seq::<Seq<char>>::empty()
            };
            &&& told.messages == report.messages + count + tally.errors
            &&& told.needs_attention <==> report.needs_attention || tally.errors.len() > 0
            &&& told.restart_suggested == report.restart_suggested
        }),
{
    let told = concluded(report, tally);
    if tally.cleaned > 0 {
        let line = "已清理 "@ + decimal(tally.cleaned as nat) + " 份遗留临时认证文件。"@;
        assert(told.messages =~= report.messages + seq![line] + tally.errors);
    } else {
        assert(told.messages =~= report.messages + Seq::<Seq<char>>::empty() + tally.errors);
    }
}

/// Whether an update is settled by taking its record away, with this note.
pub open spec fn settles_with(
    step: StepView<ActionView, RecoverView, RecoveredView>,
    report: ReportView,
    note: Seq<char>,
    attention: bool,
    restart: bool,
) -> bool {
    &&& step matches StepView::Ask(ActionView::CheckPath(place), RecoverView::Finish {
        report: told,
        remove,
    })
    &&& place == PlaceView::Journal
    &&& remove == CheckedRemoveView::Path(PlaceView::Journal)
    &&& told.messages == report.messages.push(note)
    &&& told.needs_attention == (report.needs_attention || attention)
    &&& told.restart_suggested == (report.restart_suggested || restart)
}

/// What becomes of a recorded update: where the credentials in use are those of before, it was not
/// made, and that is noted. Where they are those of the update, or others of its account, they are
/// imported. Where they are others that can be used, they stay, and that is noted. Otherwise those
/// of before are put back, if they can be used; if not, that asks for attention.
pub proof fn law_recorded_update_is_decided(
    transaction: TransactionView,
    current: Option<Seq<u8>>,
    report: ReportView,
)
    ensures
        ({
            let step = recover_current(transaction, current, report);
            let reached_target = current matches Some(auth) && (hex(sha256(auth))
                == transaction.target_hash || usable_identity(auth) == Ok::<Seq<char>, Seq<char>>(
                transaction.target_id,
            ));
            let usable = current matches Some(auth) && usable_identity(auth) is Ok;
            &&& current == transaction.before ==> settles_with(
                step,
                report,
                "上次认证更新未提交或已回滚，已保留原登录。"@,
                false,
                false,
            )
            &&& current != transaction.before && reached_target ==> step == StepView::<
                ActionView,
                RecoverView,
                RecoveredView,
            >::Ask(
                ActionView::Read(PlaceView::InHome(HomeView::Active, HomeFile::Auth)),
                RecoverView::Import {
                    report,
                    import: ImportView::Read { account: None, label: None },
                },
            )
            &&& current != transaction.before && !reached_target && usable ==> settles_with(
                step,
                report,
                "检测到其他有效登录，已保留外部登录变更并结束旧恢复记录。"@,
                false,
                false,
            )
            &&& current != transaction.before && !reached_target && !usable ==> match
                transaction.before {
                Some(before) => if usable_identity(before) is Ok {
                    step == StepView::<ActionView, RecoverView, RecoveredView>::Ask(
                        ActionView::Read(PlaceView::InHome(HomeView::Active, HomeFile::Auth)),
                        RecoverView::Confirmed { before, current, report },
                    )
                } else {
                    settles_with(
                        step,
                        report,
                        "上次操作没有可用的原登录，请从已保存账号切换恢复，或重新登录后导入。"@,
                        true,
                        false,
                    )
                },
                None => settles_with(
                    step,
                    report,
                    "上次操作没有可用的原登录，请从已保存账号切换恢复，或重新登录后导入。"@,
                    true,
                    false,
                ),
            }
        }),
{
}

/// An update that was made is noted once its credentials are imported; credentials that were put
/// back are noted once they are read as they were written. Both suggest a restart. Credentials that
/// changed in the meantime are not written over, and what is read back otherwise is told.
pub proof fn law_recovered_login_is_noted(
    before: Seq<u8>,
    current: Option<Seq<u8>>,
    found: Seq<u8>,
    report: ReportView,
    saved: SavedAccountView,
)
    ensures
        settles_with(
            recover_next(
                RecoverView::Import { report, import: ImportView::Entered(saved) },
                EventView::Done,
            ),
            report,
            "上次认证更新已生效，已确认并结束恢复。"@,
            false,
            true,
        ),
        Some(found) == current ==> recover_next(
            RecoverView::Confirmed { before, current, report },
            EventView::Bytes(found),
        ) == StepView::<ActionView, RecoverView, RecoveredView>::Ask(
            ActionView::ReplaceActive(before),
            RecoverView::Written { before, report },
        ),
        Some(found) != current ==> recover_next(
            RecoverView::Confirmed { before, current, report },
            EventView::Bytes(found),
        ) == StepView::<ActionView, RecoverView, RecoveredView>::Done(
            Ok(
                RecoveredView {
                    report,
                    error: Some("恢复期间登录发生变化，请重试恢复"@),
                },
            ),
        ),
        found == before ==> settles_with(
            recover_next(RecoverView::Verified { before, report }, EventView::Bytes(found)),
            report,
            "已从加密恢复记录还原上次有效登录。"@,
            false,
            true,
        ),
        found != before ==> recover_next(
            RecoverView::Verified { before, report },
            EventView::Bytes(found),
        ) == StepView::<ActionView, RecoverView, RecoveredView>::Done(
            Ok(
                RecoveredView {
                    report,
                    error: Some("恢复后认证校验失败，请保留备份并重试"@),
                },
            ),
        ),
{
}

/// The report that a recovery of an update has so far.
pub open spec fn report_in(
    step: StepView<ActionView, RecoverView, RecoveredView>,
) -> Option<ReportView> {
    match step {
        StepView::Ask(_, state) => Some(
            match state {
                RecoverView::Path { report, .. } => report,
                RecoverView::Present { report, .. } => report,
                RecoverView::Sealed { report, .. } => report,
                RecoverView::Opened { report, .. } => report,
                RecoverView::Decoded { report, .. } => report,
                RecoverView::AuthPath { report, .. } => report,
                RecoverView::Current { report, .. } => report,
                RecoverView::Import { report, .. } => report,
                RecoverView::Confirmed { report, .. } => report,
                RecoverView::Written { report, .. } => report,
                RecoverView::Verified { report, .. } => report,
                RecoverView::Finish { report, .. } => report,
            },
        ),
        StepView::Done(Ok(recovered)) => Some(recovered.report),
        StepView::Done(Err(_)) => None,
    }
}

/// Whether a report has all that another one has, in its place.
pub open spec fn has_report(all: ReportView, part: ReportView) -> bool {
    &&& part.messages.len() <= all.messages.len()
    &&& all.messages.take(part.messages.len() as int) == part.messages
    &&& part.needs_attention ==> all.needs_attention
    &&& part.restart_suggested ==> all.restart_suggested
}

/// Nothing that a recovery has noted is dropped, whatever comes next.
pub proof fn law_no_note_is_dropped(action: ActionView, state: RecoverView, event: EventView)
    ensures
        report_in(recover_next(state, event)) matches Some(after) && has_report(
            after,
            report_in(StepView::Ask(action, state))->Some_0,
        ),
{
    let before = report_in(StepView::Ask(action, state))->Some_0;
    let after = report_in(recover_next(state, event))->Some_0;
    assert(before.messages.take(before.messages.len() as int) =~= before.messages);
    assert(after.messages == before.messages || after.messages.drop_last() =~= before.messages) by {
        if after.messages != before.messages {
            let note = after.messages.last();
            assert(after.messages == before.messages.push(note));
        }
    }
    assert(after.messages.take(before.messages.len() as int) =~= before.messages);
}

/// The tally of a recovery so far.
pub open spec fn tally_in(state: RunView) -> TallyView {
    match state {
        RunView::DataPath(tally) => tally,
        RunView::RootPath { tally, .. } => tally,
        RunView::Listed { tally, .. } => tally,
        RunView::Sweep { tally, .. } => tally,
        RunView::Recover { tally, .. } => tally,
        RunView::Draft { tally, .. } => tally,
    }
}

/// Whether a step of a recovery has all of these errors, in its tally or in its report.
pub open spec fn has_errors(
    step: StepView<ActionView, RunView, ReportView>,
    errors: Seq<Seq<char>>,
) -> bool {
    match step {
        StepView::Ask(_, state) => {
            let all = tally_in(state).errors;
            errors.len() <= all.len() && all.take(errors.len() as int) == errors
        },
        StepView::Done(Ok(report)) => {
            &&& errors.len() > 0 ==> report.needs_attention
            &&& forall|i: int|
                0 <= i < errors.len() ==> report.messages.contains(#[trigger] errors[i])
        },
        StepView::Done(Err(_)) => false,
    }
}

/// The errors of a tally are in the report that it ends with.
proof fn lemma_run_done_has_errors(report: ReportView, tally: TallyView, errors: Seq<Seq<char>>)
    requires
        errors.len() <= tally.errors.len(),
        tally.errors.take(errors.len() as int) == errors,
    ensures
        has_errors(run_done(report, tally), errors),
{
    let told = concluded(report, tally);
    law_report_tells_what_went_wrong(report, tally);
    let offset = told.messages.len() - tally.errors.len();
    assert forall|i: int| 0 <= i < errors.len() implies told.messages.contains(
        #[trigger] errors[i],
    ) by {
        assert(tally.errors.take(errors.len() as int)[i] == tally.errors[i]);
        assert(told.messages[offset + i] == tally.errors[i]);
    }
}

/// A tally that goes on has the errors of before.
proof fn lemma_more_errors(all: Seq<Seq<char>>, errors: Seq<Seq<char>>, error: Seq<char>)
    requires
        errors.len() <= all.len(),
        all.take(errors.len() as int) == errors,
    ensures
        all.push(error).take(errors.len() as int) == errors,
{
    assert(all.push(error).take(errors.len() as int) =~= all.take(errors.len() as int));
}

/// Going on with the recorded update keeps the errors.
proof fn lemma_run_recover_has_errors(tally: TallyView, errors: Seq<Seq<char>>)
    requires
        errors.len() <= tally.errors.len(),
        tally.errors.take(errors.len() as int) == errors,
    ensures
        has_errors(run_recover(tally), errors),
{
    if let Err(error) = tally.home {
        lemma_more_errors(tally.errors, errors, error);
        lemma_run_done_has_errors(empty_report(), tally_failed(tally, error), errors);
    }
}

/// Going through the entries of a directory keeps the errors.
proof fn lemma_run_entries_has_errors(
    tally: TallyView,
    runtime: bool,
    entries: Seq<EntryView>,
    errors: Seq<Seq<char>>,
)
    requires
        errors.len() <= tally.errors.len(),
        tally.errors.take(errors.len() as int) == errors,
    ensures
        has_errors(run_entries(tally, runtime, entries), errors),
    decreases entries.len(),
{
    if entries.len() == 0 {
        lemma_run_recover_has_errors(tally, errors);
    } else {
        match entries[0] {
            EntryView::Unreadable(error) => {
                lemma_more_errors(tally.errors, errors, error);
                lemma_run_entries_has_errors(
                    tally_failed(tally, error),
                    runtime,
                    entries.drop_first(),
                    errors,
                );
            },
            EntryView::Named(_) => {},
        }
    }
}

/// No error of a recovery is dropped, whatever comes next: it stays in the tally, and it is in the
/// report at the end, which then asks for attention.
pub proof fn law_no_error_of_a_recovery_is_dropped(
    state: RunView,
    event: EventView,
    errors: Seq<Seq<char>>,
)
    requires
        !(state is DataPath),
        errors.len() <= tally_in(state).errors.len(),
        tally_in(state).errors.take(errors.len() as int) == errors,
    ensures
        has_errors(run_next(state, event), errors),
{
    let tally = tally_in(state);
    match state {
        RunView::DataPath(_) => {},
        RunView::RootPath { runtime, .. } => {
            if let Err(error) = done_reply(event) {
                lemma_more_errors(tally.errors, errors, error);
                lemma_run_recover_has_errors(tally_failed(tally, error), errors);
            }
        },
        RunView::Listed { runtime, .. } => {
            match event {
                EventView::Names(entries) => {
                    lemma_run_entries_has_errors(tally, runtime, entries, errors);
                },
                EventView::Missing { .. } => {
                    lemma_run_recover_has_errors(tally, errors);
                },
                other => {
                    let error = "无法检查临时认证目录："@ + failure_text(other);
                    lemma_more_errors(tally.errors, errors, error);
                    lemma_run_recover_has_errors(tally_failed(tally, error), errors);
                },
            }
        },
        RunView::Sweep { runtime, rest, sweep, .. } => {
            match sweep_next(sweep, event) {
                StepView::Done(Ok(count)) => {
                    lemma_run_entries_has_errors(
                        tally_cleaned(tally, count),
                        runtime,
                        rest,
                        errors,
                    );
                },
                StepView::Done(Err(error)) => {
                    lemma_more_errors(tally.errors, errors, error);
                    lemma_run_entries_has_errors(
                        tally_failed(tally, error),
                        runtime,
                        rest,
                        errors,
                    );
                },
                StepView::Ask(_, _) => {},
            }
        },
        RunView::Recover { recover, .. } => {
            match recover_next(recover, event) {
                StepView::Done(Ok(recovered)) => {
                    if let Some(error) = recovered.error {
                        lemma_more_errors(tally.errors, errors, error);
                    }
                },
                StepView::Done(Err(error)) => {
                    lemma_more_errors(tally.errors, errors, error);
                },
                StepView::Ask(_, _) => {},
            }
        },
        RunView::Draft { report, remove, .. } => {
            match checked_remove_next(remove, event) {
                StepView::Done(Ok(_)) => {
                    lemma_run_done_has_errors(report, tally, errors);
                },
                StepView::Done(Err(error)) => {
                    lemma_more_errors(tally.errors, errors, error);
                    lemma_run_done_has_errors(report, tally_failed(tally, error), errors);
                },
                StepView::Ask(_, _) => {},
            }
        },
    }
}

/// What goes wrong with one home is noted, and the next one is gone on with; what is cleared in one
/// is added to the count.
pub proof fn law_each_home_counts(
    tally: TallyView,
    runtime: bool,
    name: Seq<char>,
    rest: Seq<EntryView>,
    sweep: SweepView,
    event: EventView,
)
    ensures
        ({
            let state = RunView::Sweep {
                tally,
                runtime,
                rest: seq![EntryView::Named(name)] + rest,
                sweep,
            };
            let home = if runtime {
                HomeView::Runtime(name)
            } else {
                HomeView::Login(name)
            };
            let go = |now: TallyView|
                StepView::<ActionView, RunView, ReportView>::Ask(
                    ActionView::CheckPath(PlaceView::HomeDir(home)),
                    RunView::Sweep {
                        tally: now,
                        runtime,
                        rest,
                        sweep: SweepView::Path { home, own: tally.own },
                    },
                );
            &&& sweep_next(sweep, event) matches StepView::Done(Err(error)) ==> run_next(
                state,
                event,
            ) == go(TallyView { errors: tally.errors.push(error), ..tally })
            &&& sweep_next(sweep, event) matches StepView::Done(Ok(count)) ==> (tally.cleaned
                + count <= u64::MAX ==> run_next(state, event) == go(
                TallyView { cleaned: (tally.cleaned + count) as u64, ..tally },
            ))
        }),
{
    let more = seq![EntryView::Named(name)] + rest;
    assert(more.drop_first() =~= rest);
    assert(more[0] == EntryView::Named(name));
}

/// An error of recovering an update is in the tally, and what was noted is in the report.
pub proof fn law_end_of_an_update_is_told(
    tally: TallyView,
    recover: RecoverView,
    event: EventView,
    recovered: RecoveredView,
)
    requires
        recover_next(recover, event) == (StepView::<ActionView, RecoverView, RecoveredView>::Done(
            Ok(recovered),
        )),
    ensures
        run_next(RunView::Recover { tally, recover }, event) == StepView::<
            ActionView,
            RunView,
            ReportView,
        >::Ask(
            ActionView::CheckPath(PlaceView::InHome(HomeView::Active, HomeFile::SwitchDraft)),
            RunView::Draft {
                tally: match recovered.error {
                    Some(error) => TallyView { errors: tally.errors.push(error), ..tally },
                    None => tally,
                },
                report: recovered.report,
                remove: CheckedRemoveView::Path(
                    PlaceView::InHome(HomeView::Active, HomeFile::SwitchDraft),
                ),
            },
        ),
{
}

/// A recovery that may not touch the data directory tells so, and does nothing else.
pub proof fn law_unsafe_data_directory_is_told(tally: TallyView, error: Seq<char>)
    ensures
        run_next(RunView::DataPath(tally), EventView::Rejected(error)) == StepView::<
            ActionView,
            RunView,
            ReportView,
        >::Done(
            Ok(
                ReportView {
                    messages: seq![error],
                    needs_attention: true,
                    restart_suggested: false,
                },
            ),
        ),
{
    assert(Seq::<Seq<char>>::empty().push(error) =~= seq![error]);
}

/// A recovery goes through the login homes, then through the runtime homes, and only then settles
/// the recorded update; whatever is wrong with one of the directories does not keep it from the
/// rest.
pub proof fn law_order_of_a_recovery(
    home: Seq<char>,
    own: u32,
    path: Seq<char>,
    missing: Seq<char>,
    error: Seq<char>,
)
    ensures
        ({
            let none = EventView::Missing { path, error: missing };
            let failed = EventView::Rejected(error);
            let done = EventView::Done;
            let start = running_recovery(Ok(home), own);
            let machine = run_machine();
            &&& asked(machine, start, seq![done, done, none, done, none]) == seq![
                ActionView::CheckPath(PlaceView::DataDir),
                ActionView::CheckPath(PlaceView::LoginRoot),
                ActionView::List(PlaceView::LoginRoot),
                ActionView::CheckPath(PlaceView::RuntimeRoot),
                ActionView::List(PlaceView::RuntimeRoot),
                ActionView::CheckPath(PlaceView::Journal),
            ]
            &&& asked(machine, start, seq![done, failed, failed]) == seq![
                ActionView::CheckPath(PlaceView::DataDir),
                ActionView::CheckPath(PlaceView::LoginRoot),
                ActionView::CheckPath(PlaceView::RuntimeRoot),
                ActionView::CheckPath(PlaceView::Journal),
            ]
        }),
{
    reveal_with_fuel(asked, 7);
    let none = EventView::Missing { path, error: missing };
    let failed = EventView::Rejected(error);
    let done = EventView::Done;
    let start = running_recovery(Ok(home), own);
    let machine = run_machine();
    assert(asked(machine, start, seq![done, done, none, done, none]) =~= seq![
        ActionView::CheckPath(PlaceView::DataDir),
        ActionView::CheckPath(PlaceView::LoginRoot),
        ActionView::List(PlaceView::LoginRoot),
        ActionView::CheckPath(PlaceView::RuntimeRoot),
        ActionView::List(PlaceView::RuntimeRoot),
        ActionView::CheckPath(PlaceView::Journal),
    ]);
    assert(asked(machine, start, seq![done, failed, failed]) =~= seq![
        ActionView::CheckPath(PlaceView::DataDir),
        ActionView::CheckPath(PlaceView::LoginRoot),
        ActionView::CheckPath(PlaceView::RuntimeRoot),
        ActionView::CheckPath(PlaceView::Journal),
    ]);
}

} // verus!
