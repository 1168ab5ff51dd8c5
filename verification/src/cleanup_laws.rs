//! What clearing up after logins and queries promises, and ending the processes they left.

use vstd::prelude::*;

use crate::account_laws::fits_account;
use crate::child_process::{stop_next, stopping, RecordView, StopView};
use crate::effects::{
    names_of, present, ActionView, EntryView, EventView, HomeFile, HomeView, PlaceView, StepView,
};
use crate::home_laws::{
    child_kept, finish_kept, lemma_child_kept, lemma_finish_kept, runtime_is_kept,
    runtime_is_settled, runtime_place,
};
use crate::recovery::{
    checking_child, clean_home_next, clean_login_next, cleaning_home, cleaning_login, root_home,
    CheckedRemoveView, CleanHomeView, CleanLoginView,
};
use crate::vault::{
    clean_logins_next, clean_logins_rest, cleaning_logins, finishing_isolated, CleanLoginsView,
    RemovePlainView,
};
use crate::world::{
    answered, any_world, content, has_unreadable, is_idle, is_look, is_number_running, is_tidy,
    is_under, leads, lemma_leads, lists_homes, observable_world, performed, same_processes, World,
};

verus! {

/// The machine that ends a process.
pub open spec fn stop_machine() -> spec_fn(
    StopView,
    EventView,
) -> StepView<ActionView, StopView, ()> {
    |machine: StopView, event: EventView| stop_next(machine, event)
}

/// The machine that clears a home.
pub open spec fn clean_machine() -> spec_fn(
    CleanHomeView,
    EventView,
) -> StepView<ActionView, CleanHomeView, u64> {
    |machine: CleanHomeView, event: EventView| clean_home_next(machine, event)
}

/// A process is ended only right after the hold on it has shown that it is the one of the record,
/// by its number, the time it was created and the program it runs. Another process that was given
/// the number is never touched.
pub proof fn law_only_the_recorded_process_is_ended(machine: StopView, event: EventView)
    ensures
        stop_next(machine, event) matches StepView::Ask(ActionView::TerminateHeld, _) ==> machine
            is Held && event == EventView::Alive(machine->Held_process),
{
}

/// Whether a process may be ended for a hub with this number: it is not the hub itself, and the
/// hub that started it is this one or no longer runs.
pub open spec fn may_be_ended(world: World, record: RecordView, own: u32) -> bool {
    &&& record.process.pid != own
    &&& world.running.contains(record.owner) ==> record.owner.pid == own
}

/// What holds of every step of ending a process.
pub open spec fn stop_kept(
    start: World,
    record: RecordView,
    own: u32,
    step: StepView<ActionView, StopView, ()>,
    world: World,
) -> bool {
    let process = record.process;
    let gone = start.running.remove(process);
    let same = World { held: start.held, ..world } == start;
    match step {
        StepView::Ask(action, StopView::Process { record: r, own: o }) => same && r == record && o
            == own && action == ActionView::Observe(process.pid),
        StepView::Ask(action, StopView::Own { record: r }) => same && r == record && process.pid
            != own && action == ActionView::Identify(own),
        StepView::Ask(action, StopView::Owner { record: r }) => same && r == record && process.pid
            != own && action == ActionView::Observe(record.owner.pid),
        StepView::Ask(action, StopView::Held { process: p }) => same && p == process
            && may_be_ended(start, record, own) && action == ActionView::Hold(process.pid),
        StepView::Ask(action, StopView::Terminated { .. }) => same && may_be_ended(
            start,
            record,
            own,
        ) && world.held == Some(process) && action is TerminateHeld,
        StepView::Ask(action, StopView::Survived { .. }) => same && may_be_ended(
            start,
            record,
            own,
        ) && world.held == Some(process) && action is ObserveHeld,
        StepView::Ask(action, StopView::Waited { .. }) => same && may_be_ended(start, record, own)
            && world.held == Some(process) && action is WaitHeld,
        StepView::Done(Ok(_)) => {
            &&& World { held: start.held, running: start.running, ..world } == start
            &&& world.running == gone
            &&& start.running.contains(process) ==> may_be_ended(start, record, own)
        },
        StepView::Done(Err(_)) => same,
    }
}

/// Every answer keeps what holds of ending a process.
pub proof fn lemma_stop_kept(
    start: World,
    record: RecordView,
    own: u32,
    action: ActionView,
    machine: StopView,
    world: World,
    event: EventView,
    after: World,
)
    requires
        stop_kept(start, record, own, StepView::Ask(action, machine), world),
        performed(world, action, event, after),
    ensures
        stop_kept(start, record, own, stop_next(machine, event), after),
{
    let process = record.process;
    assert(World { held: world.held, ..start } == world);
    if !start.running.contains(process) {
        assert(start.running.remove(process) =~= start.running);
    }
    if start.running.contains(process) {
        assert(is_number_running(world, process.pid));
    }
    if start.running.contains(record.owner) {
        assert(is_number_running(world, record.owner.pid));
    }
}

/// Ending the process of a record ends no other. It is ended only if it is not the hub itself and
/// the hub that started it is this one or no longer runs; if all goes well it does not run any
/// more.
pub proof fn law_stop_ends_no_other_process(
    start: World,
    record: RecordView,
    own: u32,
    history: Seq<(EventView, World)>,
    end: StepView<ActionView, StopView, ()>,
    after: World,
)
    requires
        leads(any_world(), stop_machine(), stopping(record, own), start, history, end, after),
    ensures
        after.files == start.files,
        after.running == start.running || (after.running == start.running.remove(record.process)
            && may_be_ended(start, record, own)),
        end matches StepView::Done(Ok(_)) ==> !after.running.contains(record.process),
{
    let kept = |step: StepView<ActionView, StopView, ()>, world: World|
        stop_kept(start, record, own, step, world);
    assert forall|
        action: ActionView,
        machine: StopView,
        here: World,
        event: EventView,
        there: World,
    |
        kept(StepView::Ask(action, machine), here) && #[trigger] any_world()(
            here,
            action,
            event,
            there,
        ) implies kept(#[trigger] stop_machine()(machine, event), there) by {
        lemma_stop_kept(start, record, own, action, machine, here, event, there);
    }
    lemma_leads(
        any_world(),
        stop_machine(),
        kept,
        stopping(record, own),
        start,
        history,
        end,
        after,
    );
    if !start.running.contains(record.process) {
        assert(start.running.remove(record.process) =~= start.running);
    }
}

/// Whether a place belongs to a home: its files, and what the vault has for the account of a
/// runtime home.
pub open spec fn is_of_home(place: PlaceView, home: HomeView) -> bool {
    match (place, home) {
        (PlaceView::InHome(inner, _), _) => inner == home,
        (PlaceView::Vault(id), HomeView::Runtime(name)) => id == name,
        _ => false,
    }
}

/// Whether no file differs but those that belong to a home; what was sealed stays so.
pub open spec fn differs_in_home(start: World, world: World, home: HomeView) -> bool {
    &&& world.children == start.children
    &&& world.index == start.index
    &&& world.encoded == start.encoded
    &&& start.sealed.submap_of(world.sealed)
    &&& forall|place: PlaceView|
        #![trigger content(world, place)]
        #![trigger content(start, place)]
        !is_of_home(place, home) ==> content(world, place) == content(start, place)
    &&& is_tidy(start) ==> is_tidy(world)
}

/// Whether the credentials that a home had are not lost: those of a login home are of no further
/// use, and those of a runtime home that are usable and the account's own are still there or in
/// the vault.
pub open spec fn home_is_kept(start: World, world: World, home: HomeView) -> bool {
    home matches HomeView::Runtime(id) ==> (fits_account(content(start, runtime_place(id)), id)
        ==> runtime_is_kept(start, world, id))
}

/// Whether what the vault has for the account of a runtime home is what it had, or what was in the
/// home, if that is usable and its own.
pub open spec fn home_is_settled(start: World, world: World, home: HomeView) -> bool {
    home matches HomeView::Runtime(id) ==> runtime_is_settled(start, world, id)
}

/// How many of a home's files, out of one, are there.
pub open spec fn count_of(world: World, home: HomeView, file: HomeFile) -> int {
    if content(world, in_home(home, file)) is Some {
        1
    } else {
        0
    }
}

/// How many files with credentials in the clear are in a home: the credentials and their drafts.
pub open spec fn plain_count(world: World, home: HomeView) -> int {
    count_of(world, home, HomeFile::Auth) + count_of(world, home, HomeFile::AuthDraft) + count_of(
        world,
        home,
        HomeFile::SwitchDraft,
    )
}

/// Whether no file is in a home.
pub open spec fn is_empty_home(world: World, home: HomeView) -> bool {
    forall|file: HomeFile| content(world, #[trigger] in_home(home, file)) is None
}

/// The place of a file of a home.
pub open spec fn in_home(home: HomeView, file: HomeFile) -> PlaceView {
    PlaceView::InHome(home, file)
}

/// What holds of a removal that is part of clearing a home.
pub open spec fn removal_kept(
    place: PlaceView,
    action: ActionView,
    remove: CheckedRemoveView,
) -> bool {
    match remove {
        CheckedRemoveView::Path(p) => p == place && action is CheckPath,
        CheckedRemoveView::Removed => action == ActionView::Remove(place),
    }
}

/// What holds of every step of clearing a home.
pub open spec fn clean_kept(
    start: World,
    home: HomeView,
    step: StepView<ActionView, CleanHomeView, u64>,
    world: World,
) -> bool {
    let auth = in_home(home, HomeFile::Auth);
    let draft = in_home(home, HomeFile::AuthDraft);
    let switch = in_home(home, HomeFile::SwitchDraft);
    let no_auth = content(world, auth) is None;
    let no_draft = content(world, draft) is None;
    let no_switch = content(world, switch) is None;
    let same_drafts = content(world, draft) == content(start, draft) && content(world, switch)
        == content(start, switch);
    let same_switch = content(world, switch) == content(start, switch);
    let one = count_of(start, home, HomeFile::Auth);
    let two = one + count_of(start, home, HomeFile::AuthDraft);
    let all = plain_count(start, home);
    &&& home != HomeView::Active
    &&& same_processes(start, world)
    &&& differs_in_home(start, world, home)
    &&& home_is_kept(start, world, home)
    &&& home_is_settled(start, world, home)
    &&& world.files == start.files || is_idle(start, home)
    &&& match step {
        StepView::Ask(action, CleanHomeView::Path { home: h }) => h == home && world == start
            && action is CheckPath,
        StepView::Ask(action, CleanHomeView::Child { home: h, child }) => h == home && child_kept(
            start,
            home,
            StepView::Ask(action, child),
            world,
        ),
        StepView::Ask(action, CleanHomeView::AuthPath { home: h }) => h == home && world == start
            && is_idle(start, home) && action is CheckPath,
        StepView::Ask(action, CleanHomeView::DraftPath { home: h }) => h == home && world == start
            && is_idle(start, home) && action is CheckPath,
        StepView::Ask(action, CleanHomeView::SwitchPath { home: h }) => h == home && world == start
            && is_idle(start, home) && action is CheckPath,
        StepView::Ask(action, CleanHomeView::Auth { home: h }) => h == home && world == start
            && is_idle(start, home) && action == ActionView::Exists(auth),
        StepView::Ask(action, CleanHomeView::Finish { home: h, finish }) => {
            &&& h == home
            &&& is_idle(start, home)
            &&& same_drafts
            &&& one == 1
            &&& home matches HomeView::Runtime(id)
            &&& finish_kept(start, id, true, true, StepView::Ask(action, finish), world)
        },
        StepView::Ask(action, CleanHomeView::AuthRemove { home: h, remove }) => {
            &&& h == home
            &&& is_idle(start, home)
            &&& !(home is Runtime)
            &&& same_drafts
            &&& one == 1
            &&& removal_kept(auth, action, remove)
        },
        StepView::Ask(action, CleanHomeView::Draft { home: h, count }) => {
            &&& h == home
            &&& is_idle(start, home)
            &&& no_auth
            &&& same_drafts
            &&& count == one
            &&& action == ActionView::Exists(draft)
        },
        StepView::Ask(action, CleanHomeView::DraftRemove { home: h, count, remove }) => {
            &&& h == home
            &&& is_idle(start, home)
            &&& no_auth
            &&& same_drafts
            &&& count == one
            &&& two == one + 1
            &&& removal_kept(draft, action, remove)
        },
        StepView::Ask(action, CleanHomeView::Switch { home: h, count }) => {
            &&& h == home
            &&& is_idle(start, home)
            &&& no_auth && no_draft
            &&& same_switch
            &&& count == two
            &&& action == ActionView::Exists(switch)
        },
        StepView::Ask(action, CleanHomeView::SwitchRemove { home: h, count, remove }) => {
            &&& h == home
            &&& is_idle(start, home)
            &&& no_auth && no_draft
            &&& same_switch
            &&& count == two
            &&& all == two + 1
            &&& removal_kept(switch, action, remove)
        },
        StepView::Ask(action, CleanHomeView::Clear { count, remove }) => {
            &&& is_idle(start, home)
            &&& no_auth && no_draft && no_switch
            &&& count == all
            &&& removal_kept(in_home(home, HomeFile::Child), action, remove)
        },
        StepView::Done(Ok(count)) => {
            &&& is_idle(start, home)
            &&& count == all
            &&& no_auth && no_draft && no_switch
            &&& content(world, in_home(home, HomeFile::Child)) is None
        },
        StepView::Done(Err(_)) => true,
    }
}

/// Every answer keeps what holds of clearing a home.
pub proof fn lemma_clean_kept(
    start: World,
    home: HomeView,
    action: ActionView,
    machine: CleanHomeView,
    world: World,
    event: EventView,
    after: World,
)
    requires
        clean_kept(start, home, StepView::Ask(action, machine), world),
        performed(world, action, event, after),
        is_look(action) || action is Read ==> answered(action, event),
    ensures
        clean_kept(start, home, clean_home_next(machine, event), after),
{
    match machine {
        CleanHomeView::Path { .. } => {
            assert(child_kept(start, home, checking_child(home), start));
        },
        CleanHomeView::Child { child, .. } => {
            lemma_child_kept(start, home, action, child, world, event, after);
        },
        CleanHomeView::Auth { .. } => {
            if let HomeView::Runtime(id) = home {
                assert(runtime_place(id) == in_home(home, HomeFile::Auth));
                assert(finish_kept(start, id, true, true, finishing_isolated(id), start));
            }
        },
        CleanHomeView::Finish { finish, .. } => {
            let id = home->Runtime_0;
            lemma_finish_kept(start, id, true, true, action, finish, world, event, after);
            assert(runtime_place(id) == in_home(home, HomeFile::Auth));
            assert(differs_in_home(start, after, home));
        },
        _ => {},
    }
}

/// A home that was cleared has no file.
pub proof fn lemma_cleared_home(start: World, home: HomeView, count: u64, world: World)
    requires
        clean_kept(start, home, StepView::Done(Ok(count)), world),
    ensures
        is_empty_home(world, home),
{
    assert forall|file: HomeFile| content(world, #[trigger] in_home(home, file)) is None by {
        match file {
            HomeFile::Auth => {},
            HomeFile::AuthDraft => {},
            HomeFile::SwitchDraft => {},
            HomeFile::Child => {},
        }
    }
}

/// Clearing a home, wherever it is interrupted: nothing is touched while a process works there,
/// nothing but what belongs to the home is touched at all, and credentials that a query renewed
/// are not lost. If it succeeds, neither credentials nor drafts of them are left in the clear, and
/// it tells how many of them there were.
pub proof fn law_clearing_a_home_is_safe(
    start: World,
    home: HomeView,
    history: Seq<(EventView, World)>,
    end: StepView<ActionView, CleanHomeView, u64>,
    after: World,
)
    requires
        home != HomeView::Active,
        leads(
            observable_world(),
            clean_machine(),
            cleaning_home(home),
            start,
            history,
            end,
            after,
        ),
    ensures
        differs_in_home(start, after, home),
        home_is_kept(start, after, home),
        home_is_settled(start, after, home),
        after.files == start.files || is_idle(start, home),
        end matches StepView::Done(Ok(count)) ==> {
            &&& is_idle(start, home)
            &&& count == plain_count(start, home)
            &&& is_empty_home(after, home)
        },
{
    let kept = |step: StepView<ActionView, CleanHomeView, u64>, world: World|
        clean_kept(start, home, step, world);
    assert forall|
        action: ActionView,
        machine: CleanHomeView,
        here: World,
        event: EventView,
        there: World,
    |
        kept(StepView::Ask(action, machine), here) && #[trigger] observable_world()(
            here,
            action,
            event,
            there,
        ) implies kept(#[trigger] clean_machine()(machine, event), there) by {
        lemma_clean_kept(start, home, action, machine, here, event, there);
    }
    lemma_leads(
        observable_world(),
        clean_machine(),
        kept,
        cleaning_home(home),
        start,
        history,
        end,
        after,
    );
    if let StepView::Done(Ok(count)) = end {
        lemma_cleared_home(start, home, count, after);
    }
}

/// The machine that clears the home of a login.
pub open spec fn clean_login_machine() -> spec_fn(
    CleanLoginView,
    EventView,
) -> StepView<ActionView, CleanLoginView, ()> {
    |machine: CleanLoginView, event: EventView| clean_login_next(machine, event)
}

/// What holds of every step of clearing the home of a login.
pub open spec fn clean_login_kept(
    start: World,
    home: HomeView,
    step: StepView<ActionView, CleanLoginView, ()>,
    world: World,
) -> bool {
    &&& home != HomeView::Active
    &&& differs_in_home(start, world, home)
    &&& home_is_kept(start, world, home)
    &&& world.files == start.files || is_idle(start, home)
    &&& match step {
        StepView::Ask(action, CleanLoginView::Child { home: h, child, .. }) => h == home
            && child_kept(start, home, StepView::Ask(action, child), world),
        StepView::Ask(action, CleanLoginView::Pause { home: h, .. }) => h == home && world == start
            && action is Sleep,
        StepView::Ask(action, CleanLoginView::Clean(clean)) => clean_kept(
            start,
            home,
            StepView::Ask(action, clean),
            world,
        ),
        StepView::Done(Ok(_)) => is_idle(start, home) && is_empty_home(world, home),
        StepView::Done(Err(_)) => true,
    }
}

/// Every answer keeps what holds of clearing the home of a login.
pub proof fn lemma_clean_login_kept(
    start: World,
    home: HomeView,
    action: ActionView,
    machine: CleanLoginView,
    world: World,
    event: EventView,
    after: World,
)
    requires
        clean_login_kept(start, home, StepView::Ask(action, machine), world),
        performed(world, action, event, after),
        is_look(action) || action is Read ==> answered(action, event),
    ensures
        clean_login_kept(start, home, clean_login_next(machine, event), after),
{
    match machine {
        CleanLoginView::Child { child, .. } => {
            lemma_child_kept(start, home, action, child, world, event, after);
            assert(clean_kept(start, home, cleaning_home(home), start));
        },
        CleanLoginView::Pause { .. } => {
            assert(child_kept(start, home, checking_child(home), start));
        },
        CleanLoginView::Clean(clean) => {
            lemma_clean_kept(start, home, action, clean, world, event, after);
            if let StepView::Done(Ok(count)) = clean_home_next(clean, event) {
                lemma_cleared_home(start, home, count, after);
            }
        },
    }
}

/// Clearing the home of a login, wherever it is interrupted, touches nothing while its process
/// works there, and nothing but what belongs to the home at all. If it succeeds, no process worked
/// there and no file is left there.
pub proof fn law_login_home_is_left_empty(
    start: World,
    home: HomeView,
    history: Seq<(EventView, World)>,
    end: StepView<ActionView, CleanLoginView, ()>,
    after: World,
)
    requires
        home != HomeView::Active,
        leads(
            observable_world(),
            clean_login_machine(),
            cleaning_login(home),
            start,
            history,
            end,
            after,
        ),
    ensures
        differs_in_home(start, after, home),
        home_is_kept(start, after, home),
        after.files == start.files || is_idle(start, home),
        end matches StepView::Done(Ok(_)) ==> is_idle(start, home) && is_empty_home(after, home),
{
    let kept = |step: StepView<ActionView, CleanLoginView, ()>, world: World|
        clean_login_kept(start, home, step, world);
    assert forall|
        action: ActionView,
        machine: CleanLoginView,
        here: World,
        event: EventView,
        there: World,
    |
        kept(StepView::Ask(action, machine), here) && #[trigger] observable_world()(
            here,
            action,
            event,
            there,
        ) implies kept(#[trigger] clean_login_machine()(machine, event), there) by {
        lemma_clean_login_kept(start, home, action, machine, here, event, there);
    }
    assert(child_kept(start, home, checking_child(home), start));
    lemma_leads(
        observable_world(),
        clean_login_machine(),
        kept,
        cleaning_login(home),
        start,
        history,
        end,
        after,
    );
}

/// The machine that removes the credentials of login homes.
pub open spec fn clean_logins_machine() -> spec_fn(
    CleanLoginsView,
    EventView,
) -> StepView<ActionView, CleanLoginsView, ()> {
    |machine: CleanLoginsView, event: EventView| clean_logins_next(machine, event)
}

/// How that changes a world in which looking is answered, and without a directory of login homes
/// there are no login homes.
pub open spec fn logins_world() -> spec_fn(World, ActionView, EventView, World) -> bool {
    |before: World, action: ActionView, event: EventView, after: World|
        {
            &&& performed(before, action, event, after)
            &&& is_look(action) ==> answered(action, event)
            &&& action == ActionView::Exists(PlaceView::LoginRoot) && event == EventView::Present(
                false,
            ) ==> lists_homes(before, false, seq![])
        }
}

/// The credentials of a login home.
pub open spec fn login_auth(name: Seq<char>) -> PlaceView {
    PlaceView::InHome(HomeView::Login(name), HomeFile::Auth)
}

/// Whether a list of entries has every login home that has credentials, as far as it could be read.
spec fn has_all_logins(world: World, entries: Seq<EntryView>) -> bool {
    forall|name: Seq<char>|
        #![trigger login_auth(name)]
        world.files.contains_key(login_auth(name)) ==> names_of(entries).contains(name)
            || has_unreadable(entries)
}

/// Whether a list of entries has every login home that has credentials, but perhaps this one.
spec fn has_other_logins(world: World, this: Seq<char>, entries: Seq<EntryView>) -> bool {
    forall|name: Seq<char>|
        #![trigger login_auth(name)]
        world.files.contains_key(login_auth(name)) && name != this ==> names_of(entries).contains(
            name,
        ) || has_unreadable(entries)
}

/// Whether no file differs but credentials of login homes that are gone.
pub open spec fn differs_in_logins(start: World, world: World) -> bool {
    &&& world == World { files: world.files, ..start }
    &&& forall|place: PlaceView|
        #![trigger content(world, place)]
        #![trigger content(start, place)]
        content(world, place) == content(start, place) || (content(world, place) is None && exists|
            name: Seq<char>,
        |
            place == login_auth(name))
}

/// What holds of every step of removing the credentials of login homes.
spec fn clean_logins_kept(
    start: World,
    step: StepView<ActionView, CleanLoginsView, ()>,
    world: World,
) -> bool {
    &&& differs_in_logins(start, world)
    &&& match step {
        StepView::Ask(action, CleanLoginsView::Present) => action == ActionView::Exists(
            PlaceView::LoginRoot,
        ),
        StepView::Ask(action, CleanLoginsView::Listed) => action == ActionView::List(
            PlaceView::LoginRoot,
        ),
        StepView::Ask(action, CleanLoginsView::Kind { name, rest }) => action == ActionView::IsDir(
            PlaceView::HomeDir(HomeView::Login(name)),
        ) && has_other_logins(world, name, rest),
        StepView::Ask(action, CleanLoginsView::Removing { step, rest }) => match step {
            RemovePlainView::Present(home) => {
                &&& home matches HomeView::Login(name)
                &&& action == ActionView::Exists(login_auth(name))
                &&& has_other_logins(world, name, rest)
            },
            RemovePlainView::Removed => {
                &&& action matches ActionView::Remove(place)
                &&& place matches PlaceView::InHome(HomeView::Login(name), HomeFile::Auth)
                &&& has_other_logins(world, name, rest)
            },
        },
        StepView::Done(Ok(_)) => forall|name: Seq<char>|
            content(world, #[trigger] login_auth(name)) is None,
        StepView::Done(Err(_)) => true,
    }
}

/// What a list has without its first entry.
proof fn lemma_rest_of_entries(entries: Seq<EntryView>, name: Seq<char>)
    requires
        entries.len() > 0,
    ensures
        entries[0] matches EntryView::Named(first) ==> (names_of(entries).contains(name) ==> name
            == first || names_of(entries.drop_first()).contains(name)),
        entries[0] is Named && has_unreadable(entries) ==> has_unreadable(entries.drop_first()),
    decreases entries.len(),
{
    let rest = entries.drop_first();
    if entries[0] is Named && has_unreadable(entries) {
        let i = choose|i: int| 0 <= i < entries.len() && #[trigger] entries[i] is Unreadable;
        assert(rest[i - 1] is Unreadable);
    }
    if names_of(entries).contains(name) && entries[0] is Named {
        let shorter = entries.drop_last();
        if entries.len() == 1 {
            assert(shorter =~= seq![]);
            assert(names_of(entries) =~= seq![entries[0]->Named_0]);
        } else {
            assert(rest.drop_last() =~= shorter.drop_first());
            assert(rest.last() == entries.last());
            assert(shorter[0] == entries[0]);
            lemma_rest_of_entries(shorter, name);
            match entries.last() {
                EntryView::Named(last) => {
                    let all = names_of(entries);
                    let i = choose|i: int| 0 <= i < all.len() && all[i] == name;
                    if i < names_of(shorter).len() {
                        assert(names_of(shorter)[i] == name);
                        if name != entries[0]->Named_0 {
                            let inner = names_of(rest.drop_last());
                            let j = choose|j: int| 0 <= j < inner.len() && inner[j] == name;
                            assert(names_of(rest)[j] == name);
                        }
                    } else {
                        assert(names_of(rest).last() == name);
                    }
                },
                EntryView::Unreadable(_) => {},
            }
        }
    }
}

/// Goes on with the entries that are left.
proof fn lemma_logins_rest(start: World, entries: Seq<EntryView>, world: World)
    requires
        differs_in_logins(start, world),
        has_all_logins(world, entries),
    ensures
        clean_logins_kept(start, clean_logins_rest(entries), world),
{
    if entries.len() == 0 {
        assert forall|name: Seq<char>| content(world, #[trigger] login_auth(name)) is None by {
            assert(names_of(entries) =~= seq![]);
        }
    } else if let EntryView::Named(first) = entries[0] {
        assert forall|name: Seq<char>|
            #![trigger login_auth(name)]
            world.files.contains_key(login_auth(name)) && name != first implies names_of(
            entries.drop_first(),
        ).contains(name) || has_unreadable(entries.drop_first()) by {
            lemma_rest_of_entries(entries, name);
        }
    }
}

/// Every answer keeps what holds of removing the credentials of login homes.
proof fn lemma_clean_logins_kept(
    start: World,
    action: ActionView,
    machine: CleanLoginsView,
    world: World,
    event: EventView,
    after: World,
)
    requires
        clean_logins_kept(start, StepView::Ask(action, machine), world),
        logins_world()(world, action, event, after),
    ensures
        clean_logins_kept(start, clean_logins_next(machine, event), after),
{
    match machine {
        CleanLoginsView::Present => {
            if !present(event) {
                assert forall|name: Seq<char>| content(after, #[trigger] login_auth(name)) is None
                    by {
                    assert(login_auth(name) == PlaceView::InHome(
                        root_home(false, name),
                        HomeFile::Auth,
                    ));
                    assert(names_of(seq![]) =~= seq![]);
                }
            }
        },
        CleanLoginsView::Listed => {
            if let EventView::Names(entries) = event {
                assert forall|name: Seq<char>|
                    #![trigger login_auth(name)]
                    after.files.contains_key(login_auth(name)) implies names_of(entries).contains(
                    name,
                ) || has_unreadable(entries) by {
                    assert(login_auth(name) == PlaceView::InHome(
                        root_home(false, name),
                        HomeFile::Auth,
                    ));
                }
                lemma_logins_rest(start, entries, after);
            }
        },
        CleanLoginsView::Kind { name, rest } => {
            if event == EventView::Present(false) {
                assert(is_under(login_auth(name), PlaceView::HomeDir(HomeView::Login(name))));
                lemma_logins_rest(start, rest, after);
            }
        },
        CleanLoginsView::Removing { step, rest } => {
            match step {
                RemovePlainView::Present(home) => {
                    if !present(event) {
                        lemma_logins_rest(start, rest, after);
                    }
                },
                RemovePlainView::Removed => {
                    let place = action->Remove_0;
                    let name = place->InHome_0->Login_0;
                    assert(place == login_auth(name));
                    assert forall|other: PlaceView|
                        #![trigger content(after, other)]
                        content(after, other) == content(start, other) || (content(after, other)
                            is None && exists|n: Seq<char>| other == login_auth(n)) by {
                        assert(content(world, other) == content(start, other) || content(
                            world,
                            other,
                        ) is None);
                        if other == place {
                            assert(other == login_auth(name));
                        }
                    }
                    assert(differs_in_logins(start, after));
                    if event is Done {
                        assert(has_all_logins(after, rest));
                        lemma_logins_rest(start, rest, after);
                    }
                },
            }
        },
    }
}

/// Removing the credentials that login homes were left with touches nothing else, and if it
/// succeeds no login home has any.
pub proof fn law_login_homes_are_left_without_credentials(
    start: World,
    history: Seq<(EventView, World)>,
    end: StepView<ActionView, CleanLoginsView, ()>,
    after: World,
)
    requires
        leads(
            logins_world(),
            clean_logins_machine(),
            cleaning_logins(),
            start,
            history,
            end,
            after,
        ),
    ensures
        differs_in_logins(start, after),
        end matches StepView::Done(Ok(_)) ==> forall|name: Seq<char>|
            content(after, #[trigger] login_auth(name)) is None,
{
    let kept = |step: StepView<ActionView, CleanLoginsView, ()>, world: World|
        clean_logins_kept(start, step, world);
    assert forall|
        action: ActionView,
        machine: CleanLoginsView,
        here: World,
        event: EventView,
        there: World,
    |
        kept(StepView::Ask(action, machine), here) && #[trigger] logins_world()(
            here,
            action,
            event,
            there,
        ) implies kept(#[trigger] clean_logins_machine()(machine, event), there) by {
        lemma_clean_logins_kept(start, action, machine, here, event, there);
    }
    lemma_leads(
        logins_world(),
        clean_logins_machine(),
        kept,
        cleaning_logins(),
        start,
        history,
        end,
        after,
    );
}

} // verus!
