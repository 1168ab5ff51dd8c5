//! What holds of the homes that the hub makes for logins and queries.

use vstd::prelude::*;

use crate::account_laws::{fits_account, is_of_account};
use crate::app_server::UsageSnapshotView;
use crate::child_process::{ChildRecordView, RECORD_VERSION};
use crate::commands::{
    query_saved_next, querying_saved, saved_file_reply, saved_finished, QuerySavedView,
    SavedActionView, SavedEventView,
};
use crate::effects::{ActionView, EventView, HomeFile, HomeView, PlaceView, StepView};
use crate::recovery::{
    checking_child, child_running_next, ensure_idle_next, ensuring_idle, ChildRunningView,
    EnsureIdleView,
};
use crate::vault::{
    finish_next, finishing_isolated, prepare_next, preparing, FinishView, PrepareView,
};
use crate::vault_laws::{is_saved, lemma_load_kept, load_kept, saved_auth};
use crate::world::{
    active, active_place, answered, any_world, child_of, content, is_idle, is_look, is_not_written,
    is_number_running, is_tidy, is_under, is_written, leads, lemma_leads, lemma_submap_chain,
    opened, performed, readable_world, same_processes, seeing_world, smooth_world, World,
};

verus! {

/// The machine that takes credentials back into the vault.
pub open spec fn finish_machine() -> spec_fn(
    FinishView,
    EventView,
) -> StepView<ActionView, FinishView, ()> {
    |machine: FinishView, event: EventView| finish_next(machine, event)
}

/// The machine that prepares a runtime home.
pub open spec fn prepare_machine() -> spec_fn(
    PrepareView,
    EventView,
) -> StepView<ActionView, PrepareView, HomeView> {
    |machine: PrepareView, event: EventView| prepare_next(machine, event)
}

/// The machine that makes sure that no process works in a home.
pub open spec fn idle_machine() -> spec_fn(
    EnsureIdleView,
    EventView,
) -> StepView<ActionView, EnsureIdleView, ()> {
    |machine: EnsureIdleView, event: EventView| ensure_idle_next(machine, event)
}

/// The place of the credentials of an account's runtime home.
pub open spec fn runtime_place(id: Seq<char>) -> PlaceView {
    PlaceView::InHome(HomeView::Runtime(id), HomeFile::Auth)
}

/// The place of the draft of those credentials.
pub open spec fn runtime_draft(id: Seq<char>) -> PlaceView {
    PlaceView::InHome(HomeView::Runtime(id), HomeFile::AuthDraft)
}

/// Whether no file differs but the credentials of an account's runtime home and those that the
/// vault has for it; what was sealed stays so.
pub open spec fn differs_in_runtime(start: World, world: World, id: Seq<char>) -> bool {
    &&& same_processes(start, world)
    &&& world.index == start.index
    &&& world.encoded == start.encoded
    &&& start.sealed.submap_of(world.sealed)
    &&& forall|place: PlaceView|
        #![trigger content(world, place)]
        #![trigger content(start, place)]
        place != runtime_place(id) && place != PlaceView::Vault(id) ==> content(world, place)
            == content(start, place)
    &&& is_tidy(start) ==> is_tidy(world)
}

/// Whether the credentials of a runtime home are where they were, or in the vault, sealed.
pub open spec fn runtime_is_kept(start: World, world: World, id: Seq<char>) -> bool {
    let plain = content(start, runtime_place(id));
    content(world, runtime_place(id)) == plain || opened(world, PlaceView::Vault(id)) == plain
}

/// Whether the credentials of a runtime home are what they were or gone, and what the vault has for
/// the account is what it had, or they, if they are usable and its own.
pub open spec fn runtime_is_settled(start: World, world: World, id: Seq<char>) -> bool {
    let plain = content(start, runtime_place(id));
    let entry = PlaceView::Vault(id);
    &&& content(world, runtime_place(id)) == plain || content(world, runtime_place(id)) is None
    &&& content(world, entry) == content(start, entry) || (fits_account(plain, id) && opened(
        world,
        entry,
    ) == plain)
}

/// What holds of every step of taking credentials back.
pub open spec fn finish_kept(
    start: World,
    id: Seq<char>,
    readable: bool,
    seeing: bool,
    step: StepView<ActionView, FinishView, ()>,
    world: World,
) -> bool {
    let place = runtime_place(id);
    let entry = PlaceView::Vault(id);
    let plain = content(start, place);
    &&& differs_in_runtime(start, world, id)
    &&& runtime_is_settled(start, world, id)
    &&& readable && fits_account(plain, id) ==> runtime_is_kept(start, world, id)
    &&& match step {
        StepView::Ask(action, FinishView::Present { id: i }) => world == start && i == id && action
            == ActionView::Exists(place),
        StepView::Ask(action, FinishView::Read { id: i }) => world == start && i == id && action
            == ActionView::Read(place),
        StepView::Ask(action, FinishView::Sealed { id: i }) => world == start && i == id
            && fits_account(plain, id) && action == ActionView::Seal(plain->Some_0),
        StepView::Ask(action, FinishView::Written { id: i }) => {
            &&& i == id
            &&& world.files == start.files
            &&& fits_account(plain, id)
            &&& match action {
                ActionView::Write(to, sealed) => to == entry && world.sealed.contains_key(sealed)
                    && world.sealed[sealed] == plain->Some_0,
                _ => false,
            }
        },
        StepView::Ask(action, FinishView::Removed { error }) => {
            &&& action == ActionView::Remove(place)
            &&& content(world, place) == plain
            &&& match error {
                None => fits_account(plain, id) && opened(world, entry) == plain,
                Some(_) => world.files == start.files && (readable ==> !fits_account(plain, id)),
            }
        },
        StepView::Done(Ok(_)) => {
            &&& content(world, place) is None || !seeing
            &&& plain is None || !seeing || (fits_account(plain, id) && opened(world, entry)
                == plain)
        },
        StepView::Done(Err(_)) => true,
    }
}

/// Every answer keeps what holds of taking credentials back.
pub proof fn lemma_finish_kept(
    start: World,
    id: Seq<char>,
    readable: bool,
    seeing: bool,
    action: ActionView,
    machine: FinishView,
    world: World,
    event: EventView,
    after: World,
)
    requires
        finish_kept(start, id, readable, seeing, StepView::Ask(action, machine), world),
        performed(world, action, event, after),
        readable ==> (action is Read ==> answered(action, event)),
        seeing ==> (is_look(action) ==> answered(action, event)),
    ensures
        finish_kept(start, id, readable, seeing, finish_next(machine, event), after),
{
}

/// Credentials of a runtime home that are usable and the account's own, such as those that a query
/// renewed, are never lost: wherever taking them back is interrupted or fails, they are still in
/// the home or in the vault, sealed. What the vault has for the account is not replaced by
/// anything else.
pub proof fn law_renewed_credentials_are_kept(
    start: World,
    id: Seq<char>,
    history: Seq<(EventView, World)>,
    end: StepView<ActionView, FinishView, ()>,
    after: World,
)
    requires
        leads(
            readable_world(),
            finish_machine(),
            finishing_isolated(id),
            start,
            history,
            end,
            after,
        ),
    ensures
        differs_in_runtime(start, after, id),
        runtime_is_settled(start, after, id),
        fits_account(content(start, runtime_place(id)), id) ==> runtime_is_kept(start, after, id),
{
    let kept = |step: StepView<ActionView, FinishView, ()>, world: World|
        finish_kept(start, id, true, false, step, world);
    assert forall|
        action: ActionView,
        machine: FinishView,
        here: World,
        event: EventView,
        there: World,
    |
        kept(StepView::Ask(action, machine), here) && #[trigger] readable_world()(
            here,
            action,
            event,
            there,
        ) implies kept(#[trigger] finish_machine()(machine, event), there) by {
        lemma_finish_kept(start, id, true, false, action, machine, here, event, there);
    }
    lemma_leads(
        readable_world(),
        finish_machine(),
        kept,
        finishing_isolated(id),
        start,
        history,
        end,
        after,
    );
}

/// Taking credentials back leaves none in the clear if it succeeds, and what there was is in the
/// vault; no other file is touched.
pub proof fn law_finished_home_has_no_credentials(
    start: World,
    id: Seq<char>,
    history: Seq<(EventView, World)>,
    after: World,
)
    requires
        leads(
            seeing_world(),
            finish_machine(),
            finishing_isolated(id),
            start,
            history,
            StepView::Done(Ok(())),
            after,
        ),
    ensures
        differs_in_runtime(start, after, id),
        content(after, runtime_place(id)) is None,
        content(start, runtime_place(id)) matches Some(plain) ==> opened(
            after,
            PlaceView::Vault(id),
        ) == Some(plain),
{
    let kept = |step: StepView<ActionView, FinishView, ()>, world: World|
        finish_kept(start, id, false, true, step, world);
    assert forall|
        action: ActionView,
        machine: FinishView,
        here: World,
        event: EventView,
        there: World,
    |
        kept(StepView::Ask(action, machine), here) && #[trigger] seeing_world()(
            here,
            action,
            event,
            there,
        ) implies kept(#[trigger] finish_machine()(machine, event), there) by {
        lemma_finish_kept(start, id, false, true, action, machine, here, event, there);
    }
    lemma_leads(
        seeing_world(),
        finish_machine(),
        kept,
        finishing_isolated(id),
        start,
        history,
        StepView::Done(Ok(())),
        after,
    );
}

/// What holds while it is found out whether a process works in a home.
pub open spec fn child_kept(
    start: World,
    home: HomeView,
    step: StepView<ActionView, ChildRunningView, bool>,
    world: World,
) -> bool {
    &&& world == start
    &&& match step {
        StepView::Ask(action, ChildRunningView::Path(h)) => h == home && action is CheckPath,
        StepView::Ask(action, ChildRunningView::Record) => action == ActionView::ReadChild(home),
        StepView::Ask(action, ChildRunningView::Legacy) => match action {
            ActionView::IsRunning(pid) => child_of(start, home) == Some(
                ChildRecordView::Legacy(pid),
            ),
            _ => false,
        },
        StepView::Ask(action, ChildRunningView::Verified(process)) => {
            &&& action == ActionView::Observe(process.pid)
            &&& child_of(start, home) matches Some(ChildRecordView::Verified(record))
            &&& record.process == process
            &&& record.version == RECORD_VERSION
        },
        StepView::Done(Ok(running)) => running == !is_idle(start, home) && is_known_record(
            start,
            home,
        ),
        StepView::Done(Err(_)) => true,
    }
}

/// Every answer keeps what holds while it is found out whether a process works in a home.
pub proof fn lemma_child_kept(
    start: World,
    home: HomeView,
    action: ActionView,
    machine: ChildRunningView,
    world: World,
    event: EventView,
    after: World,
)
    requires
        child_kept(start, home, StepView::Ask(action, machine), world),
        performed(world, action, event, after),
    ensures
        child_kept(start, home, child_running_next(machine, event), after),
{
    match machine {
        ChildRunningView::Verified(process) => {
            if start.running.contains(process) {
                assert(is_number_running(start, process.pid));
            }
        },
        _ => {},
    }
}

/// Whether the record of the process of a home, if it is one that tells who the process is, is of
/// the version that the hub writes.
pub open spec fn is_known_record(world: World, home: HomeView) -> bool {
    child_of(world, home) matches Some(ChildRecordView::Verified(record)) ==> record.version
        == RECORD_VERSION
}

/// What holds of making sure that no process works in a home.
pub open spec fn idle_kept(
    start: World,
    home: HomeView,
    step: StepView<ActionView, EnsureIdleView, ()>,
    world: World,
) -> bool {
    &&& world == start
    &&& match step {
        StepView::Ask(action, EnsureIdleView::Path(h)) => h == home && action is CheckPath,
        StepView::Ask(action, EnsureIdleView::Child(child)) => child_kept(
            start,
            home,
            StepView::Ask(action, child),
            world,
        ),
        StepView::Done(Ok(_)) => is_idle(start, home) && is_known_record(start, home),
        StepView::Done(Err(_)) => true,
    }
}

/// While nothing fails, a home in which no process works is found to be idle.
pub proof fn lemma_idle_thrives(
    start: World,
    home: HomeView,
    action: ActionView,
    machine: EnsureIdleView,
    event: EventView,
    after: World,
)
    requires
        is_idle(start, home),
        is_known_record(start, home),
        idle_kept(start, home, StepView::Ask(action, machine), start),
        performed(start, action, event, after),
        answered(action, event),
    ensures
        !(ensure_idle_next(machine, event) matches StepView::Done(Err(_))),
{
    lemma_idle_kept(start, home, action, machine, start, event, after);
    if let EnsureIdleView::Child(child) = machine {
        lemma_child_kept(start, home, action, child, start, event, after);
    }
}

/// Every answer keeps what holds of making sure that no process works in a home.
pub proof fn lemma_idle_kept(
    start: World,
    home: HomeView,
    action: ActionView,
    machine: EnsureIdleView,
    world: World,
    event: EventView,
    after: World,
)
    requires
        idle_kept(start, home, StepView::Ask(action, machine), world),
        performed(world, action, event, after),
    ensures
        idle_kept(start, home, ensure_idle_next(machine, event), after),
{
    match machine {
        EnsureIdleView::Child(child) => {
            lemma_child_kept(start, home, action, child, world, event, after);
        },
        _ => {
            assert(child_kept(start, home, checking_child(home), start));
        },
    }
}

/// A home is taken for idle only if no process is recorded there, or the one that is recorded no
/// longer runs; another process that was given its number does not count, and a record of another
/// version is refused. If nothing fails, such a home is taken for idle. Finding that out changes
/// nothing.
pub proof fn law_idle_home_has_no_process(
    start: World,
    home: HomeView,
    smooth: bool,
    history: Seq<(EventView, World)>,
    result: Result<(), Seq<char>>,
    after: World,
)
    requires
        leads(
            if smooth {
                smooth_world()
            } else {
                any_world()
            },
            idle_machine(),
            ensuring_idle(home),
            start,
            history,
            StepView::Done(result),
            after,
        ),
    ensures
        after == start,
        result is Ok ==> is_idle(start, home) && is_known_record(start, home),
        smooth ==> (result is Ok <==> is_idle(start, home) && is_known_record(start, home)),
{
    let rule = if smooth {
        smooth_world()
    } else {
        any_world()
    };
    let free = is_idle(start, home) && is_known_record(start, home);
    let kept = |step: StepView<ActionView, EnsureIdleView, ()>, world: World|
        idle_kept(start, home, step, world) && (smooth && free ==> !(step matches StepView::Done(
            Err(_),
        )));
    assert forall|
        action: ActionView,
        machine: EnsureIdleView,
        here: World,
        event: EventView,
        there: World,
    |
        kept(StepView::Ask(action, machine), here) && #[trigger] rule(
            here,
            action,
            event,
            there,
        ) implies kept(#[trigger] idle_machine()(machine, event), there) by {
        lemma_idle_kept(start, home, action, machine, here, event, there);
        if smooth && free {
            lemma_idle_thrives(start, home, action, machine, event, there);
        }
    }
    lemma_leads(
        rule,
        idle_machine(),
        kept,
        ensuring_idle(home),
        start,
        history,
        StepView::Done(result),
        after,
    );
}

/// What holds of every step of preparing a home.
pub open spec fn prepare_kept(
    start: World,
    id: Seq<char>,
    step: StepView<ActionView, PrepareView, HomeView>,
    world: World,
) -> bool {
    let target = saved_auth(start, id);
    let place = runtime_place(id);
    match step {
        StepView::Ask(action, PrepareView::Load { id: i, load }) => i == id && load_kept(
            start,
            id,
            false,
            StepView::Ask(action, load),
            world,
        ),
        StepView::Ask(action, PrepareView::Idle { id: i, auth, idle }) => i == id && is_saved(
            start,
            id,
            auth,
        ) && idle_kept(start, HomeView::Runtime(id), StepView::Ask(action, idle), world),
        StepView::Ask(action, PrepareView::Created { id: i, auth }) => {
            &&& i == id
            &&& world == start
            &&& is_saved(start, id, auth)
            &&& is_idle(start, HomeView::Runtime(id))
            &&& action is CreateDir
        },
        StepView::Ask(action, PrepareView::Written { id: i }) => {
            &&& i == id
            &&& world == start
            &&& is_saved(start, id, target)
            &&& is_idle(start, HomeView::Runtime(id))
            &&& action == ActionView::Write(place, target)
        },
        StepView::Done(Ok(home)) => {
            &&& home == HomeView::Runtime(id)
            &&& is_saved(start, id, target)
            &&& is_idle(start, HomeView::Runtime(id))
            &&& is_written(start, place, Some(runtime_draft(id)), target, world)
        },
        StepView::Done(Err(_)) => is_not_written(start, Some(runtime_draft(id)), world),
    }
}

/// Every answer keeps what holds of preparing a home.
pub proof fn lemma_prepare_kept(
    start: World,
    id: Seq<char>,
    action: ActionView,
    machine: PrepareView,
    world: World,
    event: EventView,
    after: World,
)
    requires
        prepare_kept(start, id, StepView::Ask(action, machine), world),
        performed(world, action, event, after),
    ensures
        prepare_kept(start, id, prepare_next(machine, event), after),
{
    let home = HomeView::Runtime(id);
    match machine {
        PrepareView::Load { id: i, load } => {
            lemma_load_kept(start, id, false, action, load, world, event, after);
            assert(idle_kept(start, home, ensuring_idle(home), start));
        },
        PrepareView::Idle { id: i, auth, idle } => {
            lemma_idle_kept(start, home, action, idle, world, event, after);
        },
        _ => {},
    }
}

/// Preparing a home for a query puts the credentials that the vault has for the account there,
/// and nothing else, if no process works in it; otherwise it changes nothing, but that a draft may
/// be left.
pub proof fn law_prepared_home_has_saved_credentials(
    start: World,
    id: Seq<char>,
    history: Seq<(EventView, World)>,
    result: Result<HomeView, Seq<char>>,
    after: World,
)
    requires
        leads(
            any_world(),
            prepare_machine(),
            preparing(id),
            start,
            history,
            StepView::Done(result),
            after,
        ),
    ensures
        match result {
            Ok(home) => {
                &&& home == HomeView::Runtime(id)
                &&& is_idle(start, home)
                &&& is_saved(start, id, saved_auth(start, id))
                &&& is_written(
                    start,
                    runtime_place(id),
                    Some(runtime_draft(id)),
                    saved_auth(start, id),
                    after,
                )
            },
            Err(_) => is_not_written(start, Some(runtime_draft(id)), after),
        },
{
    let kept = |step: StepView<ActionView, PrepareView, HomeView>, world: World|
        prepare_kept(start, id, step, world);
    assert forall|
        action: ActionView,
        machine: PrepareView,
        here: World,
        event: EventView,
        there: World,
    |
        kept(StepView::Ask(action, machine), here) && #[trigger] any_world()(
            here,
            action,
            event,
            there,
        ) implies kept(#[trigger] prepare_machine()(machine, event), there) by {
        lemma_prepare_kept(start, id, action, machine, here, event, there);
    }
    lemma_leads(
        any_world(),
        prepare_machine(),
        kept,
        preparing(id),
        start,
        history,
        StepView::Done(result),
        after,
    );
}

/// A query that changes nothing leaves nothing: after a home was prepared and taken back, the
/// vault has the credentials that it had, and the home has none, nor a draft of them.
pub proof fn law_query_leaves_no_credentials(
    start: World,
    id: Seq<char>,
    prepares: Seq<(EventView, World)>,
    home: HomeView,
    between: World,
    finishes: Seq<(EventView, World)>,
    after: World,
)
    requires
        leads(
            any_world(),
            prepare_machine(),
            preparing(id),
            start,
            prepares,
            StepView::Done(Ok(home)),
            between,
        ),
        leads(
            seeing_world(),
            finish_machine(),
            finishing_isolated(id),
            between,
            finishes,
            StepView::Done(Ok(())),
            after,
        ),
    ensures
        content(after, runtime_place(id)) is None,
        content(after, runtime_draft(id)) is None,
        opened(after, PlaceView::Vault(id)) == opened(start, PlaceView::Vault(id)),
{
    law_prepared_home_has_saved_credentials(start, id, prepares, Ok(home), between);
    law_finished_home_has_no_credentials(between, id, finishes, after);
    assert(content(after, runtime_draft(id)) == content(between, runtime_draft(id)));
}

/// The machine of a query of a saved account.
pub open spec fn saved_query_machine() -> spec_fn(
    QuerySavedView,
    SavedEventView,
) -> StepView<SavedActionView, QuerySavedView, UsageSnapshotView> {
    |machine: QuerySavedView, event: SavedEventView| query_saved_next(machine, event)
}

/// Whether no file differs but those that belong to a saved account; what was sealed stays so.
pub open spec fn differs_in_query(start: World, world: World, id: Seq<char>) -> bool {
    &&& world.index == start.index
    &&& start.sealed.submap_of(world.sealed)
    &&& forall|place: PlaceView|
        #![trigger content(world, place)]
        #![trigger content(start, place)]
        !is_of_account(place, id) ==> content(world, place) == content(start, place)
}

/// How what a query of a saved account asks for changes the world, in which looking and reading are
/// answered and the query itself comes to this. The query changes the files of the home in which
/// it is made, and processes.
pub open spec fn saved_query_world(
    told: Result<UsageSnapshotView, Seq<char>>,
    left: Option<Seq<u8>>,
) -> spec_fn(World, SavedActionView, SavedEventView, World) -> bool {
    |before: World, action: SavedActionView, event: SavedEventView, after: World|
        match action {
            SavedActionView::Do(inner) => {
                &&& performed(before, inner, saved_file_reply(event), after)
                &&& is_look(inner) || inner is Read ==> answered(inner, saved_file_reply(event))
            },
            SavedActionView::Query(home) => {
                &&& event == SavedEventView::Queried(told)
                &&& after.index == before.index
                &&& after.sealed == before.sealed
                &&& content(after, PlaceView::InHome(home, HomeFile::Auth)) == left
                &&& forall|place: PlaceView|
                    #![trigger content(after, place)]
                    #![trigger content(before, place)]
                    !is_under(place, PlaceView::HomeDir(home)) ==> content(after, place) == content(
                        before,
                        place,
                    )
            },
        }
}

/// The home is being taken back.
spec fn taking_back(
    start: World,
    id: Seq<char>,
    left: Option<Seq<u8>>,
    step: StepView<ActionView, FinishView, ()>,
    middle: World,
    world: World,
) -> bool {
    &&& differs_in_query(start, middle, id)
    &&& content(middle, PlaceView::Vault(id)) == content(start, PlaceView::Vault(id))
    &&& content(middle, runtime_place(id)) == left
    &&& finish_kept(middle, id, true, true, step, world)
}

/// What holds of every step of a query of a saved account.
spec fn saved_query_kept(
    start: World,
    id: Seq<char>,
    told: Result<UsageSnapshotView, Seq<char>>,
    left: Option<Seq<u8>>,
    step: StepView<SavedActionView, QuerySavedView, UsageSnapshotView>,
    world: World,
) -> bool {
    &&& differs_in_query(start, world, id)
    &&& match step {
        StepView::Ask(action, QuerySavedView::Prepare { id: i, prepare }) => {
            &&& i == id
            &&& action matches SavedActionView::Do(inner)
            &&& prepare_kept(start, id, StepView::Ask(inner, prepare), world)
            &&& world == start
        },
        StepView::Ask(action, QuerySavedView::Query { id: i }) => {
            &&& i == id
            &&& action == SavedActionView::Query(HomeView::Runtime(id))
            &&& content(start, PlaceView::Vault(id)) is Some
            &&& content(world, PlaceView::Vault(id)) == content(start, PlaceView::Vault(id))
            &&& content(world, runtime_place(id)) == opened(start, PlaceView::Vault(id))
        },
        StepView::Ask(action, QuerySavedView::Finish { result, finish }) => {
            &&& result == told
            &&& action matches SavedActionView::Do(inner)
            &&& exists|middle: World| #[trigger]
                taking_back(start, id, left, StepView::Ask(inner, finish), middle, world)
        },
        StepView::Done(Ok(snapshot)) => {
            &&& told == Ok::<UsageSnapshotView, Seq<char>>(snapshot)
            &&& content(world, runtime_place(id)) is None
            &&& left matches Some(plain) ==> fits_account(left, id) && opened(
                world,
                PlaceView::Vault(id),
            ) == left
            &&& left is None ==> content(world, PlaceView::Vault(id)) == content(
                start,
                PlaceView::Vault(id),
            )
        },
        StepView::Done(Err(_)) => true,
    }
}

/// Goes on while the home is taken back.
proof fn lemma_taking_back(
    start: World,
    id: Seq<char>,
    told: Result<UsageSnapshotView, Seq<char>>,
    left: Option<Seq<u8>>,
    step: StepView<ActionView, FinishView, ()>,
    middle: World,
    world: World,
)
    requires
        taking_back(start, id, left, step, middle, world),
    ensures
        saved_query_kept(start, id, told, left, saved_finished(told, step), world),
{
    lemma_submap_chain(start.sealed, middle.sealed, world.sealed);
    assert forall|place: PlaceView| !is_of_account(place, id) implies content(world, place)
        == content(start, place) by {
        assert(content(world, place) == content(middle, place));
        assert(content(middle, place) == content(start, place));
    }
    assert(differs_in_query(start, world, id));
}

/// Every answer keeps what holds of a query of a saved account.
proof fn lemma_saved_query_kept(
    start: World,
    id: Seq<char>,
    told: Result<UsageSnapshotView, Seq<char>>,
    left: Option<Seq<u8>>,
    action: SavedActionView,
    machine: QuerySavedView,
    world: World,
    event: SavedEventView,
    after: World,
)
    requires
        saved_query_kept(start, id, told, left, StepView::Ask(action, machine), world),
        saved_query_world(told, left)(world, action, event, after),
    ensures
        saved_query_kept(start, id, told, left, query_saved_next(machine, event), after),
{
    match machine {
        QuerySavedView::Prepare { prepare, .. } => {
            let inner = action->Do_0;
            let answer = saved_file_reply(event);
            lemma_prepare_kept(start, id, inner, prepare, world, answer, after);
            let step = prepare_next(prepare, answer);
            assert(differs_in_query(start, after, id));
            if let StepView::Ask(next, state) = step {
                assert(after == start);
            }
        },
        QuerySavedView::Query { .. } => {
            assert forall|place: PlaceView| !is_of_account(place, id) implies content(after, place)
                == content(start, place) by {
                assert(!is_under(place, PlaceView::HomeDir(HomeView::Runtime(id))));
                assert(content(after, place) == content(world, place));
                assert(content(world, place) == content(start, place));
            }
            let entry = PlaceView::Vault(id);
            assert(content(after, entry) == content(world, entry));
            let step = finishing_isolated(id);
            assert(taking_back(start, id, left, step, after, after));
            lemma_taking_back(start, id, told, left, step, after, after);
        },
        QuerySavedView::Finish { finish, .. } => {
            let inner = action->Do_0;
            let answer = saved_file_reply(event);
            let middle = choose|middle: World| #[trigger]
                taking_back(start, id, left, StepView::Ask(inner, finish), middle, world);
            lemma_finish_kept(middle, id, true, true, inner, finish, world, answer, after);
            let step = finish_next(finish, answer);
            assert(taking_back(start, id, left, step, middle, after));
            lemma_taking_back(start, id, told, left, step, middle, after);
        },
    }
}

/// A query of a saved account, whatever happens: neither the index nor the login in use nor the
/// files of another account change. If it succeeds it gives what the query itself told, no
/// credentials are left in the clear, and those that the query left, such as renewed ones, are what
/// the vault has.
pub proof fn law_saved_account_is_queried_and_put_back(
    start: World,
    id: Seq<char>,
    told: Result<UsageSnapshotView, Seq<char>>,
    left: Option<Seq<u8>>,
    history: Seq<(SavedEventView, World)>,
    end: StepView<SavedActionView, QuerySavedView, UsageSnapshotView>,
    after: World,
)
    requires
        leads(
            saved_query_world(told, left),
            saved_query_machine(),
            querying_saved(id),
            start,
            history,
            end,
            after,
        ),
    ensures
        differs_in_query(start, after, id),
        active(after) == active(start),
        end matches StepView::Ask(SavedActionView::Query(home), _) ==> {
            &&& home == HomeView::Runtime(id)
            &&& content(after, PlaceView::InHome(home, HomeFile::Auth)) == opened(
                start,
                PlaceView::Vault(id),
            )
        },
        end matches StepView::Done(Ok(snapshot)) ==> {
            &&& told == Ok::<UsageSnapshotView, Seq<char>>(snapshot)
            &&& content(after, PlaceView::InHome(HomeView::Runtime(id), HomeFile::Auth)) is None
            &&& left is Some ==> opened(after, PlaceView::Vault(id)) == left
            &&& left is None ==> content(after, PlaceView::Vault(id)) == content(
                start,
                PlaceView::Vault(id),
            )
        },
{
    let kept = |
        step: StepView<SavedActionView, QuerySavedView, UsageSnapshotView>,
        world: World,
    |
        saved_query_kept(start, id, told, left, step, world);
    let rule = saved_query_world(told, left);
    assert forall|
        action: SavedActionView,
        machine: QuerySavedView,
        here: World,
        event: SavedEventView,
        there: World,
    |
        kept(StepView::Ask(action, machine), here) && #[trigger] rule(
            here,
            action,
            event,
            there,
        ) implies kept(#[trigger] saved_query_machine()(machine, event), there) by {
        lemma_saved_query_kept(start, id, told, left, action, machine, here, event, there);
    }
    lemma_leads(
        rule,
        saved_query_machine(),
        kept,
        querying_saved(id),
        start,
        history,
        end,
        after,
    );
    assert(content(after, active_place()) == content(start, active_place()));
}

} // verus!
