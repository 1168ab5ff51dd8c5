//! What a recovery does where nothing is in its way: it asks for no attention. And where there is
//! nothing to recover from it does nothing.

use vstd::prelude::*;

use crate::account_laws::fits_account;
use crate::child_process::{ChildRecordView, StopView};
use crate::cleanup_laws::{clean_kept, in_home, lemma_clean_kept, lemma_cleared_home, removal_kept};
use crate::credentials::is_account_id;
use crate::effects::{ActionView, EntryView, EventView, HomeFile, HomeView, PlaceView, StepView};
use crate::home_laws::{is_known_record, lemma_child_kept, lemma_finish_kept, runtime_place};
use crate::recovery::{
    checked_remove_next, child_running_next, clean_home_next, cleaning_home, concluded,
    empty_report, recover_next, root_home, root_place, run_entries, run_next, running_recovery,
    stop_stale_next, sweep_next, sweeping, tally_cleaned, tally_failed, CheckedRemoveView,
    ChildRunningView, CleanHomeView, RecoverView, RecoveredView, ReportView, RunView, StopStaleView,
    SweepView, TallyView,
};
use crate::startup_laws::{
    has_files, is_all_settled, is_renewal_saved, law_recovery_as_a_whole, run_machine,
};
use crate::vault::finish_next;
use crate::world::{
    active, answered, any_world, child_of, content, has_unreadable, is_idle, leads, lemma_leads,
    observable_world, opened, performed, smooth_world, switch_draft, World,
};

verus! {

/// What holds of a removal where there is nothing to remove.
spec fn quiet_removal(
    smooth: bool,
    place: PlaceView,
    step: StepView<ActionView, CheckedRemoveView, ()>,
) -> bool {
    match step {
        StepView::Ask(action, remove) => removal_kept(place, action, remove),
        StepView::Done(result) => smooth ==> result is Ok,
    }
}

/// What holds of ending the process of a home where none is recorded.
spec fn quiet_stop(
    smooth: bool,
    home: HomeView,
    step: StepView<ActionView, StopStaleView, ()>,
) -> bool {
    match step {
        StepView::Ask(action, StopStaleView::Path { home: h, .. }) => h == home && action
            is CheckPath,
        StepView::Ask(action, StopStaleView::Record { .. }) => action == ActionView::ReadChild(
            home,
        ),
        StepView::Ask(_, _) => false,
        StepView::Done(result) => smooth ==> result is Ok,
    }
}

/// What holds of looking for the process of a home where none is recorded.
spec fn quiet_child(
    smooth: bool,
    home: HomeView,
    step: StepView<ActionView, ChildRunningView, bool>,
) -> bool {
    match step {
        StepView::Ask(action, ChildRunningView::Path(h)) => h == home && action is CheckPath,
        StepView::Ask(action, ChildRunningView::Record) => action == ActionView::ReadChild(home),
        StepView::Ask(_, _) => false,
        StepView::Done(Ok(runs)) => !runs,
        StepView::Done(Err(_)) => !smooth,
    }
}

/// What holds of clearing a home that has no file.
spec fn quiet_clean(
    smooth: bool,
    home: HomeView,
    step: StepView<ActionView, CleanHomeView, u64>,
) -> bool {
    match step {
        StepView::Ask(action, CleanHomeView::Path { home: h }) => h == home && action is CheckPath,
        StepView::Ask(action, CleanHomeView::Child { home: h, child }) => h == home && quiet_child(
            smooth,
            home,
            StepView::Ask(action, child),
        ),
        StepView::Ask(action, CleanHomeView::AuthPath { home: h }) => h == home && action
            is CheckPath,
        StepView::Ask(action, CleanHomeView::DraftPath { home: h }) => h == home && action
            is CheckPath,
        StepView::Ask(action, CleanHomeView::SwitchPath { home: h }) => h == home && action
            is CheckPath,
        StepView::Ask(action, CleanHomeView::Auth { home: h }) => h == home && action
            == ActionView::Exists(in_home(home, HomeFile::Auth)),
        StepView::Ask(action, CleanHomeView::Draft { home: h, count }) => h == home && count == 0
            && action == ActionView::Exists(in_home(home, HomeFile::AuthDraft)),
        StepView::Ask(action, CleanHomeView::Switch { home: h, count }) => h == home && count == 0
            && action == ActionView::Exists(in_home(home, HomeFile::SwitchDraft)),
        StepView::Ask(action, CleanHomeView::Clear { count, remove }) => count == 0
            && quiet_removal(smooth, in_home(home, HomeFile::Child), StepView::Ask(action, remove)),
        StepView::Ask(_, _) => false,
        StepView::Done(Ok(count)) => count == 0,
        StepView::Done(Err(_)) => !smooth,
    }
}

/// What holds of recovering a home that has no file.
spec fn quiet_sweep(
    smooth: bool,
    home: HomeView,
    step: StepView<ActionView, SweepView, u64>,
) -> bool {
    match step {
        StepView::Ask(action, SweepView::Path { home: h, .. }) => h == home && action is CheckPath,
        StepView::Ask(action, SweepView::Kind { home: h, .. }) => h == home && action is IsDir,
        StepView::Ask(action, SweepView::Stop { home: h, stop }) => h == home && quiet_stop(
            smooth,
            home,
            StepView::Ask(action, stop),
        ),
        StepView::Ask(action, SweepView::Clean(clean)) => quiet_clean(
            smooth,
            home,
            StepView::Ask(action, clean),
        ),
        StepView::Done(Ok(count)) => count == 0,
        StepView::Done(Err(_)) => !smooth,
    }
}

/// What holds of recovering from an update where none is recorded.
spec fn quiet_recovery(
    smooth: bool,
    step: StepView<ActionView, RecoverView, RecoveredView>,
) -> bool {
    match step {
        StepView::Ask(action, RecoverView::Path { report, .. }) => report == empty_report()
            && action is CheckPath,
        StepView::Ask(action, RecoverView::Present { report, .. }) => report == empty_report()
            && action == ActionView::Exists(PlaceView::Journal),
        StepView::Ask(_, _) => false,
        StepView::Done(Ok(recovered)) => recovered.report == empty_report() && (smooth
            ==> recovered.error is None),
        StepView::Done(Err(_)) => !smooth,
    }
}

/// Whether nothing was found so far; with `smooth`, nor did anything fail.
spec fn is_blank_tally(smooth: bool, tally: TallyView) -> bool {
    tally.cleaned == 0 && tally.home is Ok && (smooth ==> tally.errors.len() == 0)
}

/// A home that has no file is being recovered.
spec fn quiet_sweep_under_way(
    smooth: bool,
    runtime: bool,
    step: StepView<ActionView, SweepView, u64>,
) -> bool {
    exists|name: Seq<char>| quiet_sweep(smooth, #[trigger] root_home(runtime, name), step)
}

/// What holds of every step of a recovery where there is nothing to recover from.
spec fn quiet_run(
    smooth: bool,
    start: World,
    step: StepView<ActionView, RunView, ReportView>,
    world: World,
) -> bool {
    &&& world == start
    &&& is_all_settled(start)
    &&& match step {
        StepView::Ask(action, RunView::DataPath(tally)) => is_blank_tally(smooth, tally) && action
            is CheckPath,
        StepView::Ask(action, RunView::RootPath { tally, .. }) => is_blank_tally(
            smooth,
            tally,
        ) && action is CheckPath,
        StepView::Ask(action, RunView::Listed { tally, runtime }) => is_blank_tally(
            smooth,
            tally,
        ) && action == ActionView::List(root_place(runtime)),
        StepView::Ask(action, RunView::Sweep { tally, runtime, rest, sweep }) => is_blank_tally(
            smooth,
            tally,
        ) && (smooth ==> !has_unreadable(rest)) && quiet_sweep_under_way(
            smooth,
            runtime,
            StepView::Ask(action, sweep),
        ),
        StepView::Ask(action, RunView::Recover { tally, recover }) => is_blank_tally(smooth, tally)
            && quiet_recovery(smooth, StepView::Ask(action, recover)),
        StepView::Ask(action, RunView::Draft { tally, report, remove }) => is_blank_tally(
            smooth,
            tally,
        ) && report == empty_report() && quiet_removal(
            smooth,
            switch_draft(),
            StepView::Ask(action, remove),
        ),
        StepView::Done(result) => smooth ==> result == Ok::<ReportView, Seq<char>>(empty_report()),
    }
}

/// A report of nothing.
proof fn lemma_quiet_end(tally: TallyView)
    requires
        is_blank_tally(true, tally),
    ensures
        concluded(empty_report(), tally) == empty_report(),
{
    assert(concluded(empty_report(), tally).messages =~= seq![]);
}

/// Goes on through the entries of a directory in which no home has a file.
proof fn lemma_quiet_entries(
    smooth: bool,
    start: World,
    tally: TallyView,
    runtime: bool,
    entries: Seq<EntryView>,
)
    requires
        is_all_settled(start),
        is_blank_tally(smooth, tally),
        smooth ==> !has_unreadable(entries),
    ensures
        quiet_run(smooth, start, run_entries(tally, runtime, entries), start),
    decreases entries.len(),
{
    if entries.len() > 0 {
        let rest = entries.drop_first();
        assert(smooth ==> !has_unreadable(rest)) by {
            if has_unreadable(rest) {
                let i = choose|i: int| 0 <= i < rest.len() && rest[i] is Unreadable;
                assert(entries[i + 1] is Unreadable);
            }
        }
        match entries[0] {
            EntryView::Named(name) => {
                let home = root_home(runtime, name);
                assert(quiet_sweep(smooth, home, sweeping(home, tally.own)));
                assert(quiet_sweep_under_way(smooth, runtime, sweeping(home, tally.own)));
            },
            EntryView::Unreadable(error) => {
                lemma_quiet_entries(smooth, start, tally_failed(tally, error), runtime, rest);
            },
        }
    }
}

/// Every answer keeps what holds of a home that has no file.
proof fn lemma_quiet_sweep(
    smooth: bool,
    home: HomeView,
    action: ActionView,
    machine: SweepView,
    world: World,
    event: EventView,
    after: World,
)
    requires
        !has_files(world, home),
        quiet_sweep(smooth, home, StepView::Ask(action, machine)),
        performed(world, action, event, after),
        smooth ==> answered(action, event),
    ensures
        after == world,
        quiet_sweep(smooth, home, sweep_next(machine, event)),
{
    assert(child_of(world, home) is None);
    match machine {
        SweepView::Clean(clean) => {
            match clean {
                CleanHomeView::Child { child, .. } => {
                    assert(quiet_child(smooth, home, child_running_next(child, event)));
                },
                CleanHomeView::Clear { remove, .. } => {
                    assert(quiet_removal(
                        smooth,
                        in_home(home, HomeFile::Child),
                        checked_remove_next(remove, event),
                    ));
                },
                _ => {},
            }
            assert(quiet_clean(smooth, home, clean_home_next(clean, event)));
        },
        SweepView::Stop { stop, .. } => {
            assert(quiet_stop(smooth, home, stop_stale_next(stop, event)));
            assert(quiet_clean(smooth, home, cleaning_home(home)));
        },
        _ => {},
    }
}

/// Every answer keeps what holds where there is nothing to recover from.
proof fn lemma_quiet_run(
    smooth: bool,
    start: World,
    action: ActionView,
    machine: RunView,
    world: World,
    event: EventView,
    after: World,
)
    requires
        quiet_run(smooth, start, StepView::Ask(action, machine), world),
        performed(world, action, event, after),
        smooth ==> answered(action, event),
    ensures
        quiet_run(smooth, start, run_next(machine, event), after),
{
    match machine {
        RunView::Listed { tally, runtime } => {
            if let EventView::Names(entries) = event {
                lemma_quiet_entries(smooth, start, tally, runtime, entries);
            }
        },
        RunView::Sweep { tally, runtime, rest, sweep } => {
            let name = choose|name: Seq<char>|
                quiet_sweep(
                    smooth,
                    #[trigger] root_home(runtime, name),
                    StepView::Ask(action, sweep),
                );
            let home = root_home(runtime, name);
            assert(!has_files(world, home));
            lemma_quiet_sweep(smooth, home, action, sweep, world, event, after);
            let step = sweep_next(sweep, event);
            assert(quiet_sweep_under_way(smooth, runtime, step));
            match step {
                StepView::Done(Ok(_)) => {
                    lemma_quiet_entries(smooth, start, tally_cleaned(tally, 0), runtime, rest);
                },
                StepView::Done(Err(error)) => {
                    lemma_quiet_entries(smooth, start, tally_failed(tally, error), runtime, rest);
                },
                StepView::Ask(_, _) => {},
            }
        },
        RunView::Recover { recover, .. } => {
            assert(quiet_recovery(smooth, recover_next(recover, event)));
        },
        RunView::Draft { tally, remove, .. } => {
            assert(quiet_removal(smooth, switch_draft(), checked_remove_next(remove, event)));
            if smooth {
                lemma_quiet_end(tally);
            }
        },
        _ => {},
    }
}

/// After a recovery whose report asked for no attention, a second one finds nothing. Whatever
/// happens and wherever it is interrupted, it changes nothing; if nothing fails, its report is
/// empty.
pub proof fn law_second_recovery_finds_nothing(
    start: World,
    home: Result<Seq<char>, Seq<char>>,
    own: u32,
    first: Seq<(EventView, World)>,
    report: ReportView,
    between: World,
    next: u32,
    smooth: bool,
    second: Seq<(EventView, World)>,
    end: StepView<ActionView, RunView, ReportView>,
    after: World,
)
    requires
        !report.needs_attention,
        leads(
            observable_world(),
            run_machine(),
            running_recovery(home, own),
            start,
            first,
            StepView::Done(Ok(report)),
            between,
        ),
        leads(
            if smooth {
                smooth_world()
            } else {
                any_world()
            },
            run_machine(),
            running_recovery(home, next),
            between,
            second,
            end,
            after,
        ),
    ensures
        after == between,
        smooth ==> (end matches StepView::Done(result) ==> result == Ok::<ReportView, Seq<char>>(
            empty_report(),
        )),
{
    law_recovery_as_a_whole(start, home, own, first, StepView::Done(Ok(report)), between);
    let rule = if smooth {
        smooth_world()
    } else {
        any_world()
    };
    let kept = |step: StepView<ActionView, RunView, ReportView>, world: World|
        quiet_run(smooth, between, step, world);
    assert forall|
        action: ActionView,
        machine: RunView,
        here: World,
        event: EventView,
        there: World,
    |
        kept(StepView::Ask(action, machine), here) && #[trigger] rule(
            here,
            action,
            event,
            there,
        ) implies kept(#[trigger] run_machine()(machine, event), there) by {
        lemma_quiet_run(smooth, between, action, machine, here, event, there);
    }
    lemma_leads(
        rule,
        run_machine(),
        kept,
        running_recovery(home, next),
        between,
        second,
        end,
        after,
    );
}

/// Whether nothing is in the way of recovering a home: no process works there, and what is there,
/// if it is a runtime home, are credentials of its own account.
pub open spec fn is_fine_home(world: World, home: HomeView) -> bool {
    &&& is_idle(world, home)
    &&& is_known_record(world, home)
    &&& home matches HomeView::Runtime(id) ==> (content(world, runtime_place(id)) is Some
        ==> is_account_id(id) && fits_account(content(world, runtime_place(id)), id))
}

/// Whether nothing is recorded, and nothing is in the way of recovering any home.
pub open spec fn is_fine(world: World) -> bool {
    &&& content(world, PlaceView::Journal) is None
    &&& forall|runtime: bool, name: Seq<char>|
        is_fine_home(world, #[trigger] root_home(runtime, name))
}

/// What holds of ending the process of a home in which none works.
spec fn fine_stop(
    world: World,
    home: HomeView,
    step: StepView<ActionView, StopStaleView, ()>,
) -> bool {
    match step {
        StepView::Ask(action, StopStaleView::Path { home: h, .. }) => h == home && action
            is CheckPath,
        StepView::Ask(action, StopStaleView::Record { .. }) => action == ActionView::ReadChild(
            home,
        ),
        StepView::Ask(action, StopStaleView::Legacy { pid }) => child_of(world, home) == Some(
            ChildRecordView::Legacy(pid),
        ) && action == ActionView::IsRunning(pid),
        StepView::Ask(action, StopStaleView::Stop(StopView::Process { record, .. })) => child_of(
            world,
            home,
        ) == Some(ChildRecordView::Verified(record)) && action == ActionView::Observe(
            record.process.pid,
        ),
        StepView::Ask(_, _) => false,
        StepView::Done(result) => result is Ok,
    }
}

/// What holds of recovering a home that nothing is in the way of.
spec fn fine_sweep(
    start: World,
    home: HomeView,
    step: StepView<ActionView, SweepView, u64>,
    world: World,
) -> bool {
    match step {
        StepView::Ask(action, SweepView::Path { home: h, .. }) => world == start && h == home
            && action is CheckPath,
        StepView::Ask(action, SweepView::Kind { home: h, .. }) => world == start && h == home
            && action is IsDir,
        StepView::Ask(action, SweepView::Stop { home: h, stop }) => world == start && h == home
            && fine_stop(start, home, StepView::Ask(action, stop)),
        StepView::Ask(action, SweepView::Clean(clean)) => clean_kept(
            start,
            home,
            StepView::Ask(action, clean),
            world,
        ),
        StepView::Done(Ok(_)) => is_fine(world),
        StepView::Done(Err(_)) => false,
    }
}

/// A home that nothing is in the way of is being recovered.
spec fn fine_sweep_of(
    runtime: bool,
    name: Seq<char>,
    step: StepView<ActionView, SweepView, u64>,
    middle: World,
    world: World,
) -> bool {
    is_fine(middle) && fine_sweep(middle, root_home(runtime, name), step, world)
}

/// A home that nothing is in the way of is being recovered.
spec fn fine_sweep_under_way(
    runtime: bool,
    step: StepView<ActionView, SweepView, u64>,
    world: World,
) -> bool {
    exists|name: Seq<char>, middle: World| #[trigger]
        fine_sweep_of(runtime, name, step, middle, world)
}

/// What holds of every step of a recovery that nothing is in the way of.
spec fn fine_run(step: StepView<ActionView, RunView, ReportView>, world: World) -> bool {
    match step {
        StepView::Ask(action, RunView::DataPath(tally)) => is_fine(world) && is_fine_tally(tally)
            && action is CheckPath,
        StepView::Ask(action, RunView::RootPath { tally, .. }) => is_fine(world) && is_fine_tally(
            tally,
        ) && action is CheckPath,
        StepView::Ask(action, RunView::Listed { tally, runtime }) => is_fine(world)
            && is_fine_tally(tally) && action == ActionView::List(root_place(runtime)),
        StepView::Ask(action, RunView::Sweep { tally, runtime, rest, sweep }) => is_fine_tally(
            tally,
        ) && !has_unreadable(rest) && fine_sweep_under_way(
            runtime,
            StepView::Ask(action, sweep),
            world,
        ),
        StepView::Ask(action, RunView::Recover { tally, recover }) => is_fine_tally(tally)
            && content(world, PlaceView::Journal) is None && quiet_recovery(
            true,
            StepView::Ask(action, recover),
        ),
        StepView::Ask(action, RunView::Draft { tally, report, remove }) => is_fine_tally(tally)
            && report == empty_report() && quiet_removal(
            true,
            switch_draft(),
            StepView::Ask(action, remove),
        ),
        StepView::Done(Ok(report)) => !report.needs_attention && !report.restart_suggested,
        StepView::Done(Err(_)) => false,
    }
}

/// Whether no error came up so far.
spec fn is_fine_tally(tally: TallyView) -> bool {
    tally.errors.len() == 0 && tally.home is Ok
}

/// Where a home is cleared and all else is as it was, nothing is in the way of the others.
proof fn lemma_fine_after(start: World, home: HomeView, count: u64, world: World)
    requires
        is_fine(start),
        clean_kept(start, home, StepView::Done(Ok(count)), world),
    ensures
        is_fine(world),
{
    lemma_cleared_home(start, home, count, world);
    assert(content(world, PlaceView::Journal) == content(start, PlaceView::Journal));
    assert forall|runtime: bool, name: Seq<char>|
        is_fine_home(world, #[trigger] root_home(runtime, name)) by {
        let other = root_home(runtime, name);
        let child = in_home(other, HomeFile::Child);
        let auth = in_home(other, HomeFile::Auth);
        assert(is_fine_home(start, other));
        if other == home {
            assert(content(world, child) is None);
            assert(content(world, auth) is None);
        } else {
            assert(content(world, child) == content(start, child));
            assert(content(world, auth) == content(start, auth));
            assert(child_of(world, other) == child_of(start, other));
        }
        if let HomeView::Runtime(id) = other {
            assert(auth == runtime_place(id));
        }
    }
}

/// While nothing fails, clearing a home that nothing is in the way of comes to no error.
pub proof fn lemma_fine_clean(
    start: World,
    home: HomeView,
    action: ActionView,
    machine: CleanHomeView,
    world: World,
    event: EventView,
    after: World,
)
    requires
        is_fine_home(start, home),
        clean_kept(start, home, StepView::Ask(action, machine), world),
        performed(world, action, event, after),
        answered(action, event),
    ensures
        !(clean_home_next(machine, event) matches StepView::Done(Err(_))),
{
    match machine {
        CleanHomeView::Child { child, .. } => {
            lemma_child_kept(start, home, action, child, world, event, after);
            assert(!(child_running_next(child, event) matches StepView::Done(Err(_))));
        },
        CleanHomeView::Auth { .. } => {
            if let HomeView::Runtime(id) = home {
                assert(runtime_place(id) == in_home(home, HomeFile::Auth));
            }
        },
        CleanHomeView::Finish { finish, .. } => {
            let id = home->Runtime_0;
            lemma_finish_kept(start, id, true, true, action, finish, world, event, after);
            assert(runtime_place(id) == in_home(home, HomeFile::Auth));
            assert(!(finish_next(finish, event) matches StepView::Done(Err(_))));
        },
        _ => {},
    }
}

/// Every answer keeps what holds of recovering a home that nothing is in the way of.
proof fn lemma_fine_sweep(
    start: World,
    home: HomeView,
    action: ActionView,
    machine: SweepView,
    world: World,
    event: EventView,
    after: World,
)
    requires
        home != HomeView::Active,
        is_fine(start),
        is_fine_home(start, home),
        fine_sweep(start, home, StepView::Ask(action, machine), world),
        performed(world, action, event, after),
        answered(action, event),
    ensures
        fine_sweep(start, home, sweep_next(machine, event), after),
{
    assert(clean_kept(start, home, cleaning_home(home), start));
    match machine {
        SweepView::Stop { stop, .. } => {
            if let StopStaleView::Stop(StopView::Process { record, .. }) = stop {
                assert(!start.running.contains(record.process));
            }
            assert(after == start);
            assert(fine_stop(start, home, stop_stale_next(stop, event)));
        },
        SweepView::Clean(clean) => {
            lemma_clean_kept(start, home, action, clean, world, event, after);
            lemma_fine_clean(start, home, action, clean, world, event, after);
            if let StepView::Done(Ok(count)) = clean_home_next(clean, event) {
                lemma_fine_after(start, home, count, after);
            }
        },
        _ => {},
    }
}

/// Goes on through the entries of a directory.
proof fn lemma_fine_entries(
    tally: TallyView,
    runtime: bool,
    entries: Seq<EntryView>,
    world: World,
)
    requires
        is_fine(world),
        is_fine_tally(tally),
        !has_unreadable(entries),
    ensures
        fine_run(run_entries(tally, runtime, entries), world),
{
    if entries.len() > 0 {
        let rest = entries.drop_first();
        assert(!has_unreadable(rest)) by {
            if has_unreadable(rest) {
                let i = choose|i: int| 0 <= i < rest.len() && rest[i] is Unreadable;
                assert(entries[i + 1] is Unreadable);
            }
        }
        assert(!(entries[0] is Unreadable));
        if let EntryView::Named(name) = entries[0] {
            let step = sweeping(root_home(runtime, name), tally.own);
            assert(fine_sweep_of(runtime, name, step, world, world));
            assert(fine_sweep_under_way(runtime, step, world));
        }
    }
}

/// Every answer keeps what holds of a recovery that nothing is in the way of.
proof fn lemma_fine_run(
    action: ActionView,
    machine: RunView,
    world: World,
    event: EventView,
    after: World,
)
    requires
        fine_run(StepView::Ask(action, machine), world),
        performed(world, action, event, after),
        answered(action, event),
    ensures
        fine_run(run_next(machine, event), after),
{
    match machine {
        RunView::Listed { tally, runtime } => {
            if let EventView::Names(entries) = event {
                lemma_fine_entries(tally, runtime, entries, after);
            }
        },
        RunView::Sweep { tally, runtime, rest, sweep } => {
            let (name, middle) = choose|name: Seq<char>, middle: World|
                fine_sweep_of(runtime, name, StepView::Ask(action, sweep), middle, world);
            let home = root_home(runtime, name);
            assert(is_fine_home(middle, home));
            lemma_fine_sweep(middle, home, action, sweep, world, event, after);
            let step = sweep_next(sweep, event);
            assert(fine_sweep_of(runtime, name, step, middle, after));
            assert(fine_sweep_under_way(runtime, step, after));
            if let StepView::Done(Ok(count)) = step {
                lemma_fine_entries(tally_cleaned(tally, count), runtime, rest, after);
            }
        },
        RunView::Recover { recover, .. } => {
            assert(quiet_recovery(true, recover_next(recover, event)));
        },
        RunView::Draft { tally, remove, .. } => {
            assert(quiet_removal(true, switch_draft(), checked_remove_next(remove, event)));
        },
        _ => {},
    }
}

/// A recovery that nothing is in the way of asks for no attention: nothing fails, the home of Codex
/// is known, nothing is recorded, no process works in a home, and what is in a runtime home are
/// credentials of its own account. Those are then in the vault.
pub proof fn law_recovery_without_obstacles(
    start: World,
    home: Seq<char>,
    own: u32,
    history: Seq<(EventView, World)>,
    result: Result<ReportView, Seq<char>>,
    after: World,
)
    requires
        is_fine(start),
        leads(
            smooth_world(),
            run_machine(),
            running_recovery(Ok(home), own),
            start,
            history,
            StepView::Done(result),
            after,
        ),
    ensures
        result matches Ok(report) && !report.needs_attention && !report.restart_suggested,
        is_all_settled(after),
        active(after) == active(start),
        forall|id: Seq<char>|
            content(start, #[trigger] runtime_place(id)) matches Some(plain) ==> opened(
                after,
                PlaceView::Vault(id),
            ) == Some(plain),
{
    let kept = |step: StepView<ActionView, RunView, ReportView>, world: World|
        fine_run(step, world);
    assert forall|
        action: ActionView,
        machine: RunView,
        here: World,
        event: EventView,
        there: World,
    |
        kept(StepView::Ask(action, machine), here) && #[trigger] smooth_world()(
            here,
            action,
            event,
            there,
        ) implies kept(#[trigger] run_machine()(machine, event), there) by {
        lemma_fine_run(action, machine, here, event, there);
    }
    lemma_leads(
        smooth_world(),
        run_machine(),
        kept,
        running_recovery(Ok(home), own),
        start,
        history,
        StepView::Done(result),
        after,
    );
    lemma_smooth_is_observable(
        running_recovery(Ok(home), own),
        start,
        history,
        StepView::Done(result),
        after,
    );
    law_recovery_as_a_whole(start, Ok(home), own, history, StepView::Done(result), after);
    assert forall|id: Seq<char>|
        content(start, #[trigger] runtime_place(id)) matches Some(plain) implies opened(
        after,
        PlaceView::Vault(id),
    ) == content(start, runtime_place(id)) by {
        assert(is_renewal_saved(start, after, id));
        assert(is_fine_home(start, root_home(true, id)));
    }
}

/// A course in which nothing fails is one in which looking and reading do not fail.
proof fn lemma_smooth_is_observable(
    step: StepView<ActionView, RunView, ReportView>,
    world: World,
    history: Seq<(EventView, World)>,
    end: StepView<ActionView, RunView, ReportView>,
    after: World,
)
    requires
        leads(smooth_world(), run_machine(), step, world, history, end, after),
    ensures
        leads(observable_world(), run_machine(), step, world, history, end, after),
    decreases history.len(),
{
    if history.len() > 0 {
        if let StepView::Ask(action, machine) = step {
            lemma_smooth_is_observable(
                run_machine()(machine, history[0].0),
                history[0].1,
                history.drop_first(),
                end,
                after,
            );
        }
    }
}

} // verus!
