//! What a recovery as a whole promises: of the homes, of the recorded update and of the login.

use vstd::prelude::*;

use crate::account_laws::fits_account;
use crate::child_process::{stop_next, stopping, ChildRecordView};
use crate::cleanup_laws::{
    clean_kept, differs_in_home, home_is_kept, home_is_settled, in_home, is_of_home,
    lemma_clean_kept, lemma_stop_kept, removal_kept, stop_kept,
};
use crate::effects::{
    done_reply, failure_text, names_of, present, ActionView, EntryView, EventView, HomeFile,
    HomeView, PlaceView, StepView,
};
use crate::home_laws::{runtime_is_kept, runtime_is_settled, runtime_place};
use crate::recovery::{
    can_be_used, clean_home_next, cleaning_home, empty_report, recover_next, recovering, root_home,
    root_place, run_after_root, run_entries, run_next, run_recovered, run_swept, running_recovery,
    stop_stale_next, stopping_stale, sweep_cleaned, sweep_next, sweeping, tally_cleaned,
    tally_failed, CleanHomeView, RecoverView, RecoveredView, ReportView, RunView, StopStaleView,
    SweepView, TallyView,
};
use crate::recovery_laws::{
    differs_in_recovery, lemma_recover_kept, login_is_recovered, recover_kept,
};
use crate::vault_laws::{entry_is_settled, is_entry_of};
use crate::world::{
    active, active_place, answered, child_of, content, has_unreadable, is_idle, is_lasting, is_look,
    is_tidy, is_under, leads, lemma_leads, lemma_submap_chain, lists_homes, observable_world,
    opened, performed, recorded, switch_draft, World,
};

verus! {

/// The machine of a recovery as a whole.
pub open spec fn run_machine() -> spec_fn(
    RunView,
    EventView,
) -> StepView<ActionView, RunView, ReportView> {
    |machine: RunView, event: EventView| run_next(machine, event)
}

/// Whether two worlds differ in the processes that run at most.
pub open spec fn differs_in_processes(start: World, world: World) -> bool {
    World { held: start.held, running: start.running, ..world } == start
}

/// What holds of every step of ending the process that was left in a home.
spec fn stale_kept(
    start: World,
    home: HomeView,
    own: u32,
    step: StepView<ActionView, StopStaleView, ()>,
    world: World,
) -> bool {
    &&& differs_in_processes(start, world)
    &&& match step {
        StepView::Ask(action, StopStaleView::Path { home: h, own: o }) => world == start && h
            == home && o == own && action is CheckPath,
        StepView::Ask(action, StopStaleView::Record { own: o }) => world == start && o == own
            && action == ActionView::ReadChild(home),
        StepView::Ask(action, StopStaleView::Legacy { pid }) => world == start && child_of(
            start,
            home,
        ) == Some(ChildRecordView::Legacy(pid)) && action == ActionView::IsRunning(pid),
        StepView::Ask(action, StopStaleView::Stop(stop)) => {
            &&& child_of(start, home) matches Some(ChildRecordView::Verified(record))
            &&& stop_kept(start, record, own, StepView::Ask(action, stop), world)
        },
        StepView::Done(Ok(_)) => is_idle(world, home),
        StepView::Done(Err(_)) => true,
    }
}

/// Every answer keeps what holds of ending the process that was left in a home.
proof fn lemma_stale_kept(
    start: World,
    home: HomeView,
    own: u32,
    action: ActionView,
    machine: StopStaleView,
    world: World,
    event: EventView,
    after: World,
)
    requires
        stale_kept(start, home, own, StepView::Ask(action, machine), world),
        performed(world, action, event, after),
    ensures
        stale_kept(start, home, own, stop_stale_next(machine, event), after),
{
    match machine {
        StopStaleView::Stop(stop) => {
            let record = child_of(start, home)->Some_0->Verified_0;
            lemma_stop_kept(start, record, own, action, stop, world, event, after);
            let step = stop_next(stop, event);
            assert(stop_kept(start, record, own, step, after));
            assert(differs_in_processes(start, after));
            assert(child_of(after, home) == child_of(start, home));
        },
        StopStaleView::Record { .. } => {
            if let EventView::Child(ChildRecordView::Verified(record)) = event {
                assert(stop_kept(start, record, own, stopping(record, own), start));
            }
        },
        _ => {},
    }
}

/// Whether a file is in a home: credentials in the clear, drafts of them, or the record of a
/// process.
pub open spec fn has_files(world: World, home: HomeView) -> bool {
    ||| content(world, in_home(home, HomeFile::Auth)) is Some
    ||| content(world, in_home(home, HomeFile::AuthDraft)) is Some
    ||| content(world, in_home(home, HomeFile::SwitchDraft)) is Some
    ||| content(world, in_home(home, HomeFile::Child)) is Some
}

/// A home is being cleared, after its process was ended.
spec fn sweep_cleaning(
    start: World,
    home: HomeView,
    step: StepView<ActionView, CleanHomeView, u64>,
    middle: World,
    world: World,
) -> bool {
    differs_in_processes(start, middle) && clean_kept(middle, home, step, world)
}

/// A home is being cleared.
spec fn sweep_under_way(
    start: World,
    home: HomeView,
    step: StepView<ActionView, CleanHomeView, u64>,
    world: World,
) -> bool {
    exists|middle: World| #[trigger] sweep_cleaning(start, home, step, middle, world)
}

/// What holds of every step of recovering one home.
spec fn sweep_kept(
    start: World,
    home: HomeView,
    own: u32,
    step: StepView<ActionView, SweepView, u64>,
    world: World,
) -> bool {
    &&& home != HomeView::Active
    &&& differs_in_home(start, world, home)
    &&& home_is_kept(start, world, home)
    &&& home_is_settled(start, world, home)
    &&& match step {
        StepView::Ask(action, SweepView::Path { home: h, own: o }) => world == start && h == home
            && o == own && action is CheckPath,
        StepView::Ask(action, SweepView::Kind { home: h, own: o }) => world == start && h == home
            && o == own && action == ActionView::IsDir(PlaceView::HomeDir(home)),
        StepView::Ask(action, SweepView::Stop { home: h, stop }) => h == home && stale_kept(
            start,
            home,
            own,
            StepView::Ask(action, stop),
            world,
        ),
        StepView::Ask(action, SweepView::Clean(clean)) => sweep_under_way(
            start,
            home,
            StepView::Ask(action, clean),
            world,
        ),
        StepView::Done(Ok(_)) => !has_files(world, home),
        StepView::Done(Err(_)) => true,
    }
}

/// Goes on from a clearing that is part of recovering a home.
proof fn lemma_sweep_clean(
    start: World,
    home: HomeView,
    own: u32,
    step: StepView<ActionView, CleanHomeView, u64>,
    middle: World,
    world: World,
)
    requires
        sweep_cleaning(start, home, step, middle, world),
    ensures
        sweep_kept(start, home, own, sweep_cleaned(step), world),
{
    assert(sweep_under_way(start, home, step, world));
    assert(middle.files == start.files);
    assert forall|place: PlaceView| content(middle, place) == content(start, place) by {}
    assert(differs_in_home(start, world, home)) by {
        assert forall|place: PlaceView| !is_of_home(place, home) implies content(world, place)
            == content(start, place) by {
            assert(content(world, place) == content(middle, place));
        }
        if is_tidy(start) {
            assert forall|place: PlaceView| #[trigger]
                middle.files.contains_key(place) && is_lasting(
                    place,
                ) implies middle.sealed.contains_key(middle.files[place]) by {
                assert(start.files.contains_key(place));
            }
            assert(is_tidy(middle));
        }
    }
    assert(home_is_kept(start, world, home));
}

/// Every answer keeps what holds of recovering one home.
proof fn lemma_sweep_kept(
    start: World,
    home: HomeView,
    own: u32,
    action: ActionView,
    machine: SweepView,
    world: World,
    event: EventView,
    after: World,
)
    requires
        sweep_kept(start, home, own, StepView::Ask(action, machine), world),
        performed(world, action, event, after),
        is_look(action) || action is Read ==> answered(action, event),
    ensures
        sweep_kept(start, home, own, sweep_next(machine, event), after),
{
    match machine {
        SweepView::Path { .. } => {},
        SweepView::Kind { .. } => {
            assert(stale_kept(start, home, own, stopping_stale(home, own), start));
            if !present(event) {
                assert(is_under(in_home(home, HomeFile::Auth), PlaceView::HomeDir(home)));
                assert(is_under(in_home(home, HomeFile::AuthDraft), PlaceView::HomeDir(home)));
                assert(is_under(in_home(home, HomeFile::SwitchDraft), PlaceView::HomeDir(home)));
                assert(is_under(in_home(home, HomeFile::Child), PlaceView::HomeDir(home)));
            }
        },
        SweepView::Stop { stop, .. } => {
            lemma_stale_kept(start, home, own, action, stop, world, event, after);
            let step = stop_stale_next(stop, event);
            assert(differs_in_processes(start, after));
            assert(after.files == start.files);
            assert forall|place: PlaceView| content(after, place) == content(start, place) by {}
            assert(differs_in_home(start, after, home)) by {
                if is_tidy(start) {
                    assert forall|place: PlaceView| #[trigger]
                        after.files.contains_key(place) && is_lasting(
                            place,
                        ) implies after.sealed.contains_key(after.files[place]) by {
                        assert(start.files.contains_key(place));
                    }
                    assert(is_tidy(after));
                }
            }
            if step matches StepView::Done(Ok(_)) {
                assert(clean_kept(after, home, cleaning_home(home), after));
                assert(sweep_cleaning(start, home, cleaning_home(home), after, after));
                lemma_sweep_clean(start, home, own, cleaning_home(home), after, after);
            }
        },
        SweepView::Clean(clean) => {
            let middle = choose|middle: World|
                sweep_cleaning(start, home, StepView::Ask(action, clean), middle, world);
            lemma_clean_kept(middle, home, action, clean, world, event, after);
            let step = clean_home_next(clean, event);
            assert(sweep_cleaning(start, home, step, middle, after));
            lemma_sweep_clean(start, home, own, step, middle, after);
        },
    }
}

/// Whether a place belongs to a login home or a runtime home.
pub open spec fn is_of_some_home(place: PlaceView) -> bool {
    match place {
        PlaceView::InHome(home, _) => home != HomeView::Active,
        PlaceView::Vault(_) => true,
        _ => false,
    }
}

/// Whether no file differs but those of the login and runtime homes and what the vault has for
/// accounts; what was sealed stays so.
pub open spec fn differs_in_homes(start: World, world: World) -> bool {
    &&& world.children == start.children
    &&& world.index == start.index
    &&& world.encoded == start.encoded
    &&& start.sealed.submap_of(world.sealed)
    &&& forall|place: PlaceView|
        #![trigger content(world, place)]
        #![trigger content(start, place)]
        !is_of_some_home(place) ==> content(world, place) == content(start, place)
    &&& is_tidy(start) ==> is_tidy(world)
}

/// Whether every home with a file is among the entries that are left.
spec fn is_pending(world: World, runtime: bool, entries: Seq<EntryView>) -> bool {
    forall|name: Seq<char>| #[trigger]
        has_files(world, root_home(runtime, name)) ==> names_of(entries).contains(name)
            || has_unreadable(entries)
}

/// Whether no home of a kind has a file.
pub open spec fn is_cleared(world: World, runtime: bool) -> bool {
    forall|name: Seq<char>| !has_files(world, #[trigger] root_home(runtime, name))
}

/// Whether the credentials in use are what a recovery may leave, if the path of the active home is
/// known.
pub open spec fn run_login(
    start: World,
    home: Result<Seq<char>, Seq<char>>,
    world: World,
) -> bool {
    active(world) == active(start) || (home matches Ok(path) && login_is_recovered(
        start,
        path,
        world,
    ))
}

/// Whether the credentials of a runtime home are what they were or gone; if they are usable and the
/// account's own, they are still there or in the vault, sealed.
spec fn is_renewal_held(start: World, world: World, id: Seq<char>) -> bool {
    let plain = content(start, runtime_place(id));
    &&& content(world, runtime_place(id)) == plain || content(world, runtime_place(id)) is None
    &&& fits_account(plain, id) ==> runtime_is_kept(start, world, id)
}

/// Whether that holds of every account.
spec fn are_renewals_held(start: World, world: World) -> bool {
    forall|id: Seq<char>| #[trigger] is_renewal_held(start, world, id)
}

/// Whether the vault has the login in use for an account, that being the account's, and an update
/// was recorded.
pub open spec fn is_superseded(start: World, world: World, id: Seq<char>) -> bool {
    &&& content(start, PlaceView::Journal) is Some
    &&& fits_account(active(start), id)
    &&& opened(world, PlaceView::Vault(id)) == active(start)
}

/// Whether usable credentials of an account, such as a query renewed, that were in its runtime home
/// are still there or in the vault, sealed, unless the login in use, that being the account's and
/// an update being recorded, took their place.
pub open spec fn is_renewal_kept(start: World, world: World, id: Seq<char>) -> bool {
    fits_account(content(start, runtime_place(id)), id) ==> runtime_is_kept(start, world, id)
        || is_superseded(start, world, id)
}

/// Whether usable credentials of an account that were in its runtime home are in the vault, sealed,
/// unless the login in use, that being the account's and an update being recorded, took their
/// place.
pub open spec fn is_renewal_saved(start: World, world: World, id: Seq<char>) -> bool {
    fits_account(content(start, runtime_place(id)), id) ==> opened(world, PlaceView::Vault(id))
        == content(start, runtime_place(id)) || is_superseded(start, world, id)
}

/// Whether no account has lost usable credentials of its runtime home.
pub open spec fn are_renewals_kept(start: World, world: World) -> bool {
    forall|id: Seq<char>| #[trigger] is_renewal_kept(start, world, id)
}

/// What holds of the homes before those of a kind are gone through.
spec fn run_homes(
    start: World,
    home: Result<Seq<char>, Seq<char>>,
    own: u32,
    tally: TallyView,
    runtime: bool,
    world: World,
) -> bool {
    &&& tally.home == home
    &&& tally.own == own
    &&& differs_in_homes(start, world)
    &&& are_renewals_held(start, world)
    &&& runtime && tally.errors.len() == 0 ==> is_cleared(world, false)
}

/// One home is being recovered.
spec fn run_sweeping(
    start: World,
    home: Result<Seq<char>, Seq<char>>,
    own: u32,
    tally: TallyView,
    runtime: bool,
    rest: Seq<EntryView>,
    step: StepView<ActionView, SweepView, u64>,
    name: Seq<char>,
    middle: World,
    world: World,
) -> bool {
    &&& run_homes(start, home, own, tally, runtime, middle)
    &&& sweep_kept(middle, root_home(runtime, name), own, step, world)
    &&& tally.errors.len() == 0 ==> forall|other: Seq<char>| #[trigger]
        has_files(middle, root_home(runtime, other)) ==> other == name || names_of(rest).contains(
            other,
        ) || has_unreadable(rest)
}

/// One home is being recovered.
spec fn run_sweep_under_way(
    start: World,
    home: Result<Seq<char>, Seq<char>>,
    own: u32,
    tally: TallyView,
    runtime: bool,
    rest: Seq<EntryView>,
    step: StepView<ActionView, SweepView, u64>,
    world: World,
) -> bool {
    exists|name: Seq<char>, middle: World| #[trigger]
        run_sweeping(start, home, own, tally, runtime, rest, step, name, middle, world)
}

/// The recorded update is being recovered from.
spec fn run_recovering(
    start: World,
    home: Result<Seq<char>, Seq<char>>,
    tally: TallyView,
    step: StepView<ActionView, RecoverView, RecoveredView>,
    middle: World,
    world: World,
) -> bool {
    &&& tally.home == home
    &&& home is Ok
    &&& differs_in_homes(start, middle)
    &&& are_renewals_held(start, middle)
    &&& tally.errors.len() == 0 ==> is_cleared(middle, false) && is_cleared(middle, true)
    &&& recover_kept(middle, home->Ok_0, step, world)
}

/// The recorded update is being recovered from.
spec fn run_recover_under_way(
    start: World,
    home: Result<Seq<char>, Seq<char>>,
    tally: TallyView,
    step: StepView<ActionView, RecoverView, RecoveredView>,
    world: World,
) -> bool {
    exists|middle: World| #[trigger]
        run_recovering(start, home, tally, step, middle, world)
}

/// Whether nothing is recorded and no home has a file.
spec fn are_homes_settled(world: World) -> bool {
    &&& content(world, PlaceView::Journal) is None
    &&& is_cleared(world, false)
    &&& is_cleared(world, true)
}

/// Whether all is settled: nothing is recorded, no home has a file, and there is no draft of the
/// login in use.
pub open spec fn is_all_settled(world: World) -> bool {
    &&& content(world, PlaceView::Journal) is None
    &&& content(world, switch_draft()) is None
    &&& is_cleared(world, false)
    &&& is_cleared(world, true)
}

/// What holds of every step of a recovery as a whole.
spec fn run_kept(
    start: World,
    home: Result<Seq<char>, Seq<char>>,
    own: u32,
    step: StepView<ActionView, RunView, ReportView>,
    world: World,
) -> bool {
    &&& record_is_sealed(start) ==> run_login(start, home, world)
    &&& can_be_used(active(start)) ==> active(world) == active(start)
    &&& are_renewals_kept(start, world)
    &&& match step {
        StepView::Ask(action, RunView::DataPath(tally)) => run_homes(
            start,
            home,
            own,
            tally,
            false,
            world,
        ) && world == start && action is CheckPath,
        StepView::Ask(action, RunView::RootPath { tally, runtime }) => run_homes(
            start,
            home,
            own,
            tally,
            runtime,
            world,
        ) && action is CheckPath,
        StepView::Ask(action, RunView::Listed { tally, runtime }) => run_homes(
            start,
            home,
            own,
            tally,
            runtime,
            world,
        ) && action == ActionView::List(root_place(runtime)),
        StepView::Ask(action, RunView::Sweep { tally, runtime, rest, sweep }) => {
            run_sweep_under_way(
                start,
                home,
                own,
                tally,
                runtime,
                rest,
                StepView::Ask(action, sweep),
                world,
            )
        },
        StepView::Ask(action, RunView::Recover { tally, recover }) => run_recover_under_way(
            start,
            home,
            tally,
            StepView::Ask(action, recover),
            world,
        ),
        StepView::Ask(action, RunView::Draft { tally, report, remove }) => {
            &&& home is Ok
            &&& tally.errors.len() == 0 ==> are_homes_settled(world)
            &&& removal_kept(in_home(HomeView::Active, HomeFile::SwitchDraft), action, remove)
        },
        StepView::Done(Ok(report)) => !report.needs_attention ==> home is Ok && is_all_settled(
            world,
        ),
        StepView::Done(Err(_)) => false,
    }
}

/// The names among entries are the first one, if it has one, and those of the rest.
proof fn lemma_names_of_first(entries: Seq<EntryView>, name: Seq<char>)
    requires
        entries.len() > 0,
    ensures
        names_of(entries).contains(name) ==> entries[0] == EntryView::Named(name) || names_of(
            entries.drop_first(),
        ).contains(name),
    decreases entries.len(),
{
    let rest = entries.drop_last();
    if names_of(entries).contains(name) {
        if entries.len() == 1 {
            assert(rest.len() == 0);
            assert(names_of(rest) =~= seq![]);
            assert(entries.last() == entries[0]);
        } else {
            lemma_names_of_first(rest, name);
            assert(rest.drop_first() =~= entries.drop_first().drop_last());
            assert(entries.drop_first().last() == entries.last());
            let tail = names_of(entries.drop_first());
            let inner = names_of(rest.drop_first());
            if let EntryView::Named(last) = entries.last() {
                assert(tail == inner.push(last));
                assert(tail[inner.len() as int] == last);
                if inner.contains(name) {
                    let i = choose|i: int| 0 <= i < inner.len() && inner[i] == name;
                    assert(tail[i] == name);
                }
                let whole = names_of(entries);
                let at = choose|i: int| 0 <= i < whole.len() && whole[i] == name;
                assert(whole == names_of(rest).push(last));
                if at < names_of(rest).len() {
                    assert(names_of(rest)[at] == name);
                }
            }
        }
    }
}

/// Whether the record of an update, if there is one, is sealed.
pub open spec fn record_is_sealed(world: World) -> bool {
    content(world, PlaceView::Journal) is Some ==> opened(world, PlaceView::Journal) is Some
}

/// Goes on to the recorded update.
proof fn lemma_run_recover(
    start: World,
    home: Result<Seq<char>, Seq<char>>,
    own: u32,
    tally: TallyView,
    step: StepView<ActionView, RecoverView, RecoveredView>,
    middle: World,
    world: World,
)
    requires
        run_recovering(start, home, tally, step, middle, world),
    ensures
        run_kept(start, home, own, run_recovered(tally, step), world),
{
    let journal = PlaceView::Journal;
    assert(run_recover_under_way(start, home, tally, step, world));
    assert(content(middle, journal) == content(start, journal));
    assert(content(middle, active_place()) == content(start, active_place()));
    if record_is_sealed(start) {
        assert(recorded(middle) == recorded(start));
        assert(run_login(start, home, world)) by {
            if active(world) != active(start) {
                let update = recorded(middle)->Some_0;
                assert(can_be_used(update.before));
            }
        }
    }
    lemma_renewals_past_recovery(start, middle, world);
    if step matches StepView::Done(Ok(recovered)) && tally.errors.len() == 0 {
        lemma_cleared(middle, world, false);
        lemma_cleared(middle, world, true);
    }
}

/// What is held is kept.
proof fn lemma_held_is_kept(start: World, world: World)
    requires
        are_renewals_held(start, world),
    ensures
        are_renewals_kept(start, world),
{
    assert forall|id: Seq<char>| #[trigger] is_renewal_kept(start, world, id) by {
        assert(is_renewal_held(start, world, id));
    }
}

/// Recovering from the recorded update loses no credentials of a runtime home.
proof fn lemma_renewals_past_recovery(start: World, middle: World, world: World)
    requires
        differs_in_homes(start, middle),
        are_renewals_held(start, middle),
        differs_in_recovery(middle, world),
        entry_is_settled(middle, world, active(middle)),
        content(middle, PlaceView::Journal) is None ==> world == middle,
    ensures
        are_renewals_kept(start, world),
{
    assert(content(middle, active_place()) == content(start, active_place()));
    assert(content(middle, PlaceView::Journal) == content(start, PlaceView::Journal));
    assert forall|id: Seq<char>| #[trigger] is_renewal_kept(start, world, id) by {
        let entry = PlaceView::Vault(id);
        assert(is_renewal_held(start, middle, id));
        assert(content(world, runtime_place(id)) == content(middle, runtime_place(id)));
        if content(world, entry) != content(middle, entry) {
            assert(is_entry_of(entry, active(middle)));
            assert(opened(world, entry) == active(middle));
        } else if opened(middle, entry) is Some {
            assert(middle.sealed.dom().contains(middle.files[entry]));
            assert(opened(world, entry) == opened(middle, entry));
        }
    }
}

/// Recovering one home loses no credentials of a runtime home.
proof fn lemma_renewals_past_sweep(start: World, middle: World, home: HomeView, world: World)
    requires
        are_renewals_held(start, middle),
        differs_in_home(middle, world, home),
        home_is_kept(middle, world, home),
        home_is_settled(middle, world, home),
    ensures
        are_renewals_held(start, world),
{
    assert forall|id: Seq<char>| #[trigger] is_renewal_held(start, world, id) by {
        let entry = PlaceView::Vault(id);
        let place = runtime_place(id);
        assert(is_renewal_held(start, middle, id));
        if home != HomeView::Runtime(id) {
            assert(!is_of_home(place, home));
            assert(!is_of_home(entry, home));
            assert(content(world, place) == content(middle, place));
            assert(content(world, entry) == content(middle, entry));
        } else {
            assert(runtime_is_settled(middle, world, id));
        }
        if opened(middle, entry) is Some {
            assert(middle.sealed.dom().contains(middle.files[entry]));
            assert(content(world, entry) == content(middle, entry) ==> opened(world, entry)
                == opened(middle, entry));
        }
    }
}

/// Homes that no file was put into stay cleared.
proof fn lemma_cleared(start: World, world: World, runtime: bool)
    requires
        is_cleared(start, runtime),
        forall|place: PlaceView|
            #![trigger content(world, place)]
            place is InHome && place != active_place() && place != switch_draft() ==> content(
                world,
                place,
            ) == content(start, place),
    ensures
        is_cleared(world, runtime),
{
    assert forall|name: Seq<char>| !has_files(world, #[trigger] root_home(runtime, name)) by {
        assert(!has_files(start, root_home(runtime, name)));
    }
}

/// Goes on when the homes of a kind are done.
proof fn lemma_run_past_root(
    start: World,
    home: Result<Seq<char>, Seq<char>>,
    own: u32,
    tally: TallyView,
    runtime: bool,
    world: World,
)
    requires
        run_homes(start, home, own, tally, runtime, world),
        tally.errors.len() == 0 ==> is_cleared(world, runtime),
    ensures
        run_kept(start, home, own, run_after_root(tally, runtime), world),
{
    assert(content(world, active_place()) == content(start, active_place()));
    lemma_held_is_kept(start, world);
    if runtime {
        if let Ok(path) = home {
            let step = recovering(path, empty_report());
            assert(recover_kept(world, path, step, world));
            assert(run_recovering(start, home, tally, step, world, world));
            lemma_run_recover(start, home, own, tally, step, world, world);
        }
    }
}

/// Goes through the entries that are left.
proof fn lemma_run_entries(
    start: World,
    home: Result<Seq<char>, Seq<char>>,
    own: u32,
    tally: TallyView,
    runtime: bool,
    entries: Seq<EntryView>,
    world: World,
)
    requires
        run_homes(start, home, own, tally, runtime, world),
        tally.errors.len() == 0 ==> is_pending(world, runtime, entries),
    ensures
        run_kept(start, home, own, run_entries(tally, runtime, entries), world),
    decreases entries.len(),
{
    assert(content(world, active_place()) == content(start, active_place()));
    lemma_held_is_kept(start, world);
    if entries.len() == 0 {
        if tally.errors.len() == 0 {
            assert(names_of(entries) =~= seq![]);
            assert forall|name: Seq<char>| !has_files(
                world,
                #[trigger] root_home(runtime, name),
            ) by {
                if has_files(world, root_home(runtime, name)) {
                    assert(!names_of(entries).contains(name));
                }
            }
        }
        lemma_run_past_root(start, home, own, tally, runtime, world);
    } else {
        let rest = entries.drop_first();
        match entries[0] {
            EntryView::Unreadable(error) => {
                lemma_run_entries(
                    start,
                    home,
                    own,
                    tally_failed(tally, error),
                    runtime,
                    rest,
                    world,
                );
            },
            EntryView::Named(name) => {
                let target = root_home(runtime, name);
                let step = sweeping(target, own);
                assert(sweep_kept(world, target, own, step, world));
                if tally.errors.len() == 0 {
                    assert forall|other: Seq<char>| #[trigger]
                        has_files(world, root_home(runtime, other)) implies other == name
                        || names_of(rest).contains(other) || has_unreadable(rest) by {
                        lemma_names_of_first(entries, other);
                        if has_unreadable(entries) {
                            let i = choose|i: int|
                                0 <= i < entries.len() && entries[i] is Unreadable;
                            assert(rest[i - 1] is Unreadable);
                        }
                    }
                }
                assert(run_sweeping(
                    start,
                    home,
                    own,
                    tally,
                    runtime,
                    rest,
                    step,
                    name,
                    world,
                    world,
                ));
                assert(run_sweep_under_way(start, home, own, tally, runtime, rest, step, world));
            },
        }
    }
}

/// Goes on with one home being recovered.
proof fn lemma_run_sweep(
    start: World,
    home: Result<Seq<char>, Seq<char>>,
    own: u32,
    tally: TallyView,
    runtime: bool,
    rest: Seq<EntryView>,
    step: StepView<ActionView, SweepView, u64>,
    name: Seq<char>,
    middle: World,
    world: World,
)
    requires
        run_sweeping(start, home, own, tally, runtime, rest, step, name, middle, world),
    ensures
        run_kept(start, home, own, run_swept(tally, runtime, rest, step), world),
{
    let target = root_home(runtime, name);
    assert(run_sweep_under_way(start, home, own, tally, runtime, rest, step, world));
    lemma_submap_chain(start.sealed, middle.sealed, world.sealed);
    assert forall|place: PlaceView| !is_of_some_home(place) implies content(world, place)
        == content(start, place) by {
        assert(!is_of_home(place, target));
        assert(content(world, place) == content(middle, place));
        assert(content(middle, place) == content(start, place));
    }
    assert(differs_in_homes(start, world));
    lemma_renewals_past_sweep(start, middle, target, world);
    lemma_held_is_kept(start, world);
    assert(content(world, active_place()) == content(start, active_place()));
    assert forall|other: Seq<char>| #[trigger]
        has_files(world, root_home(runtime, other)) && other != name implies has_files(
        middle,
        root_home(runtime, other),
    ) by {
        let home_of = root_home(runtime, other);
        assert(content(world, in_home(home_of, HomeFile::Auth)) == content(
            middle,
            in_home(home_of, HomeFile::Auth),
        ));
        assert(content(world, in_home(home_of, HomeFile::AuthDraft)) == content(
            middle,
            in_home(home_of, HomeFile::AuthDraft),
        ));
        assert(content(world, in_home(home_of, HomeFile::SwitchDraft)) == content(
            middle,
            in_home(home_of, HomeFile::SwitchDraft),
        ));
        assert(content(world, in_home(home_of, HomeFile::Child)) == content(
            middle,
            in_home(home_of, HomeFile::Child),
        ));
    }
    if runtime && tally.errors.len() == 0 {
        assert forall|other: Seq<char>| !has_files(world, #[trigger] root_home(false, other)) by {
            let home_of = root_home(false, other);
            assert(!has_files(middle, home_of));
            assert(content(world, in_home(home_of, HomeFile::Auth)) == content(
                middle,
                in_home(home_of, HomeFile::Auth),
            ));
            assert(content(world, in_home(home_of, HomeFile::AuthDraft)) == content(
                middle,
                in_home(home_of, HomeFile::AuthDraft),
            ));
            assert(content(world, in_home(home_of, HomeFile::SwitchDraft)) == content(
                middle,
                in_home(home_of, HomeFile::SwitchDraft),
            ));
            assert(content(world, in_home(home_of, HomeFile::Child)) == content(
                middle,
                in_home(home_of, HomeFile::Child),
            ));
        }
        assert(is_cleared(world, false));
    }
    match step {
        StepView::Done(Ok(count)) => {
            if tally.errors.len() == 0 {
                assert(is_pending(world, runtime, rest));
            }
            lemma_run_entries(
                start,
                home,
                own,
                tally_cleaned(tally, count),
                runtime,
                rest,
                world,
            );
        },
        StepView::Done(Err(error)) => {
            lemma_run_entries(start, home, own, tally_failed(tally, error), runtime, rest, world);
        },
        StepView::Ask(_, _) => {},
    }
}

/// Every answer keeps what holds of a recovery as a whole.
proof fn lemma_run_kept(
    start: World,
    home: Result<Seq<char>, Seq<char>>,
    own: u32,
    action: ActionView,
    machine: RunView,
    world: World,
    event: EventView,
    after: World,
)
    requires
        run_kept(start, home, own, StepView::Ask(action, machine), world),
        performed(world, action, event, after),
        is_look(action) || action is Read ==> answered(action, event),
    ensures
        run_kept(start, home, own, run_next(machine, event), after),
{
    match machine {
        RunView::DataPath(_) => {},
        RunView::RootPath { tally, runtime } => {
            if let Err(error) = done_reply(event) {
                lemma_run_past_root(
                    start,
                    home,
                    own,
                    tally_failed(tally, error),
                    runtime,
                    after,
                );
            }
        },
        RunView::Listed { tally, runtime } => {
            match event {
                EventView::Names(entries) => {
                    assert(lists_homes(world, runtime, entries));
                    assert(is_pending(after, runtime, entries)) by {
                        lemma_pending(after, runtime, entries);
                    }
                    lemma_run_entries(start, home, own, tally, runtime, entries, after);
                },
                EventView::Missing { .. } => {
                    assert(lists_homes(world, runtime, seq![]));
                    lemma_pending(after, runtime, seq![]);
                    assert(names_of(seq![]) =~= seq![]);
                    assert forall|name: Seq<char>|
                        !has_files(after, #[trigger] root_home(runtime, name)) by {
                        if has_files(after, root_home(runtime, name)) {
                            assert(!names_of(seq![]).contains(name));
                        }
                    }
                    lemma_run_past_root(start, home, own, tally, runtime, after);
                },
                _ => {
                    lemma_run_past_root(
                        start,
                        home,
                        own,
                        tally_failed(tally, "无法检查临时认证目录："@ + failure_text(event)),
                        runtime,
                        after,
                    );
                },
            }
        },
        RunView::Sweep { tally, runtime, rest, sweep } => {
            let (name, middle) = choose|name: Seq<char>, middle: World|
                run_sweeping(
                    start,
                    home,
                    own,
                    tally,
                    runtime,
                    rest,
                    StepView::Ask(action, sweep),
                    name,
                    middle,
                    world,
                );
            let target = root_home(runtime, name);
            lemma_sweep_kept(middle, target, own, action, sweep, world, event, after);
            let step = sweep_next(sweep, event);
            assert(run_sweeping(
                start,
                home,
                own,
                tally,
                runtime,
                rest,
                step,
                name,
                middle,
                after,
            ));
            lemma_run_sweep(
                start,
                home,
                own,
                tally,
                runtime,
                rest,
                step,
                name,
                middle,
                after,
            );
        },
        RunView::Recover { tally, recover } => {
            let middle = choose|middle: World|
                run_recovering(start, home, tally, StepView::Ask(action, recover), middle, world);
            lemma_recover_kept(middle, home->Ok_0, action, recover, world, event, after);
            let step = recover_next(recover, event);
            assert(run_recovering(start, home, tally, step, middle, after));
            lemma_run_recover(start, home, own, tally, step, middle, after);
        },
        RunView::Draft { tally, report, remove } => {
            assert(content(after, active_place()) == content(world, active_place()));
            assert(are_renewals_kept(start, after)) by {
                assert forall|id: Seq<char>| #[trigger] is_renewal_kept(start, after, id) by {
                    let entry = PlaceView::Vault(id);
                    assert(is_renewal_kept(start, world, id));
                    assert(content(after, runtime_place(id)) == content(world, runtime_place(id)));
                    assert(content(after, entry) == content(world, entry));
                    assert(opened(after, entry) == opened(world, entry));
                }
            }
            if tally.errors.len() == 0 {
                lemma_cleared_apart(world, after, false);
                lemma_cleared_apart(world, after, true);
            }
        },
    }
}

/// Every home with a file is among the entries of its directory.
proof fn lemma_pending(world: World, runtime: bool, entries: Seq<EntryView>)
    requires
        lists_homes(world, runtime, entries),
    ensures
        is_pending(world, runtime, entries),
{
    assert forall|name: Seq<char>| #[trigger]
        has_files(world, root_home(runtime, name)) implies names_of(entries).contains(name)
        || has_unreadable(entries) by {
        let home = root_home(runtime, name);
        assert(world.files.contains_key(PlaceView::InHome(home, HomeFile::Auth))
            || world.files.contains_key(PlaceView::InHome(home, HomeFile::AuthDraft))
            || world.files.contains_key(PlaceView::InHome(home, HomeFile::SwitchDraft))
            || world.files.contains_key(PlaceView::InHome(home, HomeFile::Child)));
    }
}

/// The homes stay cleared when a file of the active home is removed.
proof fn lemma_cleared_apart(start: World, world: World, runtime: bool)
    requires
        is_cleared(start, runtime),
        world.files == start.files || world.files == start.files.remove(
            in_home(HomeView::Active, HomeFile::SwitchDraft),
        ),
    ensures
        is_cleared(world, runtime),
{
    assert forall|name: Seq<char>| !has_files(world, #[trigger] root_home(runtime, name)) by {
        assert(!has_files(start, root_home(runtime, name)));
    }
}

/// A recovery as a whole, wherever it is interrupted, leaves the login in use as it is if it can be
/// used; one that cannot is replaced only by the login of before that a recorded update has, where
/// the record can be opened. Credentials that a query renewed are not lost. It always comes to a
/// report; if that asks for no attention, nothing is recorded any more, no login home and no
/// runtime home has a file, no draft of the login is left, and renewed credentials are in the
/// vault, unless an update is recorded and the login in use, that being the account's, took their
/// place.
pub proof fn law_recovery_as_a_whole(
    start: World,
    home: Result<Seq<char>, Seq<char>>,
    own: u32,
    history: Seq<(EventView, World)>,
    end: StepView<ActionView, RunView, ReportView>,
    after: World,
)
    requires
        leads(
            observable_world(),
            run_machine(),
            running_recovery(home, own),
            start,
            history,
            end,
            after,
        ),
    ensures
        record_is_sealed(start) ==> run_login(start, home, after),
        can_be_used(active(start)) ==> active(after) == active(start),
        forall|id: Seq<char>| #[trigger] is_renewal_kept(start, after, id),
        match end {
            StepView::Done(Ok(report)) => !report.needs_attention ==> {
                &&& home is Ok
                &&& is_all_settled(after)
                &&& forall|id: Seq<char>| #[trigger] is_renewal_saved(start, after, id)
            },
            StepView::Done(Err(_)) => false,
            StepView::Ask(_, _) => true,
        },
{
    let kept = |step: StepView<ActionView, RunView, ReportView>, world: World|
        run_kept(start, home, own, step, world);
    assert forall|
        action: ActionView,
        machine: RunView,
        here: World,
        event: EventView,
        there: World,
    |
        kept(StepView::Ask(action, machine), here) && #[trigger] observable_world()(
            here,
            action,
            event,
            there,
        ) implies kept(#[trigger] run_machine()(machine, event), there) by {
        lemma_run_kept(start, home, own, action, machine, here, event, there);
    }
    lemma_leads(
        observable_world(),
        run_machine(),
        kept,
        running_recovery(home, own),
        start,
        history,
        end,
        after,
    );
    if is_all_settled(after) {
        assert forall|id: Seq<char>| #[trigger] is_renewal_saved(start, after, id) by {
            assert(is_renewal_kept(start, after, id));
            assert(!has_files(after, root_home(true, id)));
            assert(runtime_place(id) == in_home(root_home(true, id), HomeFile::Auth));
        }
    }
}

} // verus!
