//! What succeeds where nothing stands in the way.

use vstd::prelude::*;

use crate::account_laws::{
    fits_account, is_login_of, lemma_reauthorize_kept, reauthorize_importing, reauthorize_kept,
    reauthorize_machine,
};
use crate::accounts::{
    entered, lemma_place_of, listed, merged, place_of, AccountIndexView, AccountInfoView,
    SavedAccountView, INDEX_VERSION,
};
use crate::app_server::UsageSnapshotView;
use crate::cleanup_laws::{
    clean_login_kept, clean_login_machine, clean_logins_machine, is_empty_home,
    lemma_clean_login_kept,
};
use crate::commands::{
    file_reply, login_beginning, login_file_reply, login_imported, login_next, login_renewed,
    login_settled, querying_saved, saved_file_reply, switch_activated, switch_activating, switching,
    ErrandView, LoginActionView, LoginEventView, LoginView, PurposeView, QuerySavedView,
    ReauthorizationOutcomeView, SavedActionView, SavedEventView, SwitchActionView, SwitchEventView,
    SwitchOutcomeView, SwitchView,
};
use crate::credentials::{is_account_id, usable_identity};
use crate::effects::{ActionView, EntryView, EventView, HomeFile, HomeView, PlaceView, StepView};
use crate::home_laws::{
    child_kept, finish_kept, finish_machine, idle_kept, is_known_record, lemma_child_kept,
    lemma_finish_kept, lemma_idle_kept, lemma_idle_thrives, lemma_prepare_kept, prepare_kept,
    prepare_machine, runtime_place, saved_query_machine, saved_query_world,
};
use crate::login_laws::{differs_in_login_home, login_machine, login_performed, suits};
use crate::recovery::{
    checking_child, clean_login_next, cleaning_login, ensuring_idle, CleanLoginView,
};
use crate::rerun_laws::{is_fine_home, lemma_fine_clean};
use crate::switch_laws::{switch_machine, switch_performed};
use crate::vault::{
    activate_next, activating, belongs_to, clean_logins_rest, cleaning_logins, finish_next,
    finishing_isolated, import_next, importing, is_in_use, loading_saved, preparing,
    reauthorize_next, reauthorizing, replace_next, replacing, save_current_next, ActivateView,
    CleanLoginsView, FinishView, ImportView, PrepareView, ReauthorizeView, RemovePlainView,
};
use crate::vault_laws::{
    activate_thrives, differs_in_entry, import_kept, index_of, is_imported, is_other_login,
    is_saved, lemma_import_kept, lemma_load_kept, lemma_replace_kept, lemma_save_kept, load_kept,
    replace_thrives, save_kept, saved_auth,
};
use crate::world::{
    active, answered, content, has_unreadable, is_idle, leads, lemma_leads, lemma_submap_chain,
    opened, performed, smooth_world, World,
};

verus! {

/// What holds of every step of preparing a home while nothing fails.
pub open spec fn prepare_thrives(
    start: World,
    id: Seq<char>,
    step: StepView<ActionView, PrepareView, HomeView>,
    world: World,
) -> bool {
    &&& prepare_kept(start, id, step, world)
    &&& match step {
        StepView::Ask(action, PrepareView::Load { load, .. }) => load_kept(
            start,
            id,
            true,
            StepView::Ask(action, load),
            world,
        ),
        StepView::Ask(_, _) => true,
        StepView::Done(result) => result is Ok,
    }
}

/// In a world in which nothing fails, the runtime home of an account that the vault has is
/// prepared, if no process works there.
pub proof fn law_preparation_succeeds(
    start: World,
    id: Seq<char>,
    auth: Seq<u8>,
    history: Seq<(EventView, World)>,
    result: Result<HomeView, Seq<char>>,
    after: World,
)
    requires
        is_account_id(id),
        is_saved(start, id, auth),
        is_idle(start, HomeView::Runtime(id)),
        is_known_record(start, HomeView::Runtime(id)),
        leads(
            smooth_world(),
            prepare_machine(),
            preparing(id),
            start,
            history,
            StepView::Done(result),
            after,
        ),
    ensures
        result == Ok::<HomeView, Seq<char>>(HomeView::Runtime(id)),
        content(after, PlaceView::InHome(HomeView::Runtime(id), HomeFile::Auth)) == Some(auth),
{
    let kept = |step: StepView<ActionView, PrepareView, HomeView>, world: World|
        prepare_thrives(start, id, step, world);
    assert forall|
        action: ActionView,
        machine: PrepareView,
        here: World,
        event: EventView,
        there: World,
    |
        kept(StepView::Ask(action, machine), here) && #[trigger] smooth_world()(
            here,
            action,
            event,
            there,
        ) implies kept(#[trigger] prepare_machine()(machine, event), there) by {
        lemma_prepare_kept(start, id, action, machine, here, event, there);
        match machine {
            PrepareView::Load { load, .. } => {
                lemma_load_kept(start, id, true, action, load, here, event, there);
            },
            PrepareView::Idle { idle, .. } => {
                lemma_idle_thrives(
                    start,
                    HomeView::Runtime(id),
                    action,
                    idle,
                    event,
                    there,
                );
            },
            _ => {},
        }
    }
    lemma_leads(
        smooth_world(),
        prepare_machine(),
        kept,
        preparing(id),
        start,
        history,
        StepView::Done(result),
        after,
    );
}

/// In a world in which nothing fails, credentials that are usable and those of the account are
/// taken back from its runtime home; that there are none is no error.
pub proof fn law_taking_back_succeeds(
    start: World,
    id: Seq<char>,
    history: Seq<(EventView, World)>,
    result: Result<(), Seq<char>>,
    after: World,
)
    requires
        is_account_id(id),
        content(start, PlaceView::InHome(HomeView::Runtime(id), HomeFile::Auth)) matches Some(plain)
            ==> usable_identity(plain) == Ok::<Seq<char>, Seq<char>>(id),
        leads(
            smooth_world(),
            finish_machine(),
            finishing_isolated(id),
            start,
            history,
            StepView::Done(result),
            after,
        ),
    ensures
        result is Ok,
        content(after, PlaceView::InHome(HomeView::Runtime(id), HomeFile::Auth)) is None,
        content(start, PlaceView::InHome(HomeView::Runtime(id), HomeFile::Auth)) matches Some(plain)
            ==> opened(after, PlaceView::Vault(id)) == Some(plain),
{
    let kept = |step: StepView<ActionView, FinishView, ()>, world: World|
        finish_kept(start, id, true, true, step, world) && match step {
            StepView::Ask(_, FinishView::Read { .. }) => content(start, runtime_place(id)) is Some,
            StepView::Ask(_, FinishView::Removed { error }) => error is None && content(
                start,
                runtime_place(id),
            ) is Some,
            StepView::Ask(_, _) => true,
            StepView::Done(result) => result is Ok,
        };
    assert forall|
        action: ActionView,
        machine: FinishView,
        here: World,
        event: EventView,
        there: World,
    |
        kept(StepView::Ask(action, machine), here) && #[trigger] smooth_world()(
            here,
            action,
            event,
            there,
        ) implies kept(#[trigger] finish_machine()(machine, event), there) by {
        lemma_finish_kept(start, id, true, true, action, machine, here, event, there);
    }
    lemma_leads(
        smooth_world(),
        finish_machine(),
        kept,
        finishing_isolated(id),
        start,
        history,
        StepView::Done(result),
        after,
    );
}

/// What holds of every step of a new authorization while nothing fails.
pub open spec fn renew_thrives(
    start: World,
    codex_home: Seq<char>,
    home: HomeView,
    id: Seq<char>,
    account: Option<AccountInfoView>,
    step: StepView<ActionView, ReauthorizeView, (SavedAccountView, bool)>,
    world: World,
) -> bool {
    let login = content(start, PlaceView::InHome(home, HomeFile::Auth));
    &&& reauthorize_kept(start, codex_home, home, id, account, true, step, world)
    &&& home != HomeView::Active
    &&& fits_account(login, id)
    &&& index_of(start).version == INDEX_VERSION
    &&& merged(index_of(start), id, account, None, 0) is Ok
    &&& content(start, PlaceView::Journal) is None
    &&& match step {
        StepView::Ask(action, ReauthorizeView::Replace { replace, .. }) => replace_thrives(
            start,
            codex_home,
            login->Some_0,
            id,
            StepView::Ask(action, replace),
            world,
        ),
        StepView::Ask(_, _) => true,
        StepView::Done(result) => result is Ok,
    }
}

/// Every answer keeps what holds of a new authorization while nothing fails.
pub proof fn lemma_renew_thrives(
    start: World,
    codex_home: Seq<char>,
    home: HomeView,
    id: Seq<char>,
    account: Option<AccountInfoView>,
    action: ActionView,
    machine: ReauthorizeView,
    world: World,
    event: EventView,
    after: World,
)
    requires
        renew_thrives(
            start,
            codex_home,
            home,
            id,
            account,
            StepView::Ask(action, machine),
            world,
        ),
        performed(world, action, event, after),
        answered(action, event),
    ensures
        renew_thrives(
            start,
            codex_home,
            home,
            id,
            account,
            reauthorize_next(machine, event),
            after,
        ),
{
    let login = content(start, PlaceView::InHome(home, HomeFile::Auth))->Some_0;
    lemma_reauthorize_kept(
        start,
        codex_home,
        home,
        id,
        account,
        true,
        action,
        machine,
        world,
        event,
        after,
    );
    match machine {
        ReauthorizeView::Compared { .. } => {
            if is_in_use(event, id) {
                assert(belongs_to(active(start), id));
                assert(replace_thrives(
                    start,
                    codex_home,
                    login,
                    id,
                    replacing(codex_home, login, id, true),
                    start,
                ));
            }
        },
        ReauthorizeView::Replace { replace, .. } => {
            lemma_replace_kept(
                start,
                codex_home,
                false,
                true,
                login,
                id,
                action,
                replace,
                world,
                event,
                after,
            );
            assert(replace_thrives(
                start,
                codex_home,
                login,
                id,
                replace_next(replace, event),
                after,
            ));
        },
        ReauthorizeView::Import { is_current, import } => {
            let middle = choose|middle: World|
                reauthorize_importing(
                    start,
                    codex_home,
                    home,
                    id,
                    account,
                    is_current,
                    StepView::Ask(action, import),
                    middle,
                    world,
                );
            assert(index_of(middle) == index_of(start));
            assert(content(middle, PlaceView::InHome(home, HomeFile::Auth)) == content(
                start,
                PlaceView::InHome(home, HomeFile::Auth),
            ));
            assert(!(import_next(import, event) matches StepView::Done(Err(_))));
        },
        _ => {},
    }
}

/// In a world in which nothing fails, a saved account is authorized anew by credentials that are
/// its own, if no update is recorded and its label is not too long. Where it is the one in use, the
/// credentials in use are replaced, and only then.
pub proof fn law_new_authorization_succeeds(
    start: World,
    codex_home: Seq<char>,
    home: HomeView,
    id: Seq<char>,
    account: Option<AccountInfoView>,
    auth: Seq<u8>,
    history: Seq<(EventView, World)>,
    result: Result<(SavedAccountView, bool), Seq<char>>,
    after: World,
)
    requires
        home != HomeView::Active,
        content(start, PlaceView::InHome(home, HomeFile::Auth)) == Some(auth),
        usable_identity(auth) == Ok::<Seq<char>, Seq<char>>(id),
        index_of(start).version == INDEX_VERSION,
        merged(index_of(start), id, account, None, 0) is Ok,
        content(start, PlaceView::Journal) is None,
        leads(
            smooth_world(),
            reauthorize_machine(),
            reauthorizing(codex_home, home, id, account),
            start,
            history,
            StepView::Done(result),
            after,
        ),
    ensures
        result matches Ok((saved, updated)) && saved.id == id && (updated <==> is_login_of(
            start,
            id,
        )),
        is_saved(after, id, auth),
        active(after) == if is_login_of(start, id) {
            Some(auth)
        } else {
            active(start)
        },
{
    let kept = |step: StepView<ActionView, ReauthorizeView, (SavedAccountView, bool)>, world: World|
        renew_thrives(start, codex_home, home, id, account, step, world)
            && renewal_is_told(start, id, step);
    assert forall|
        action: ActionView,
        machine: ReauthorizeView,
        here: World,
        event: EventView,
        there: World,
    |
        kept(StepView::Ask(action, machine), here) && #[trigger] smooth_world()(
            here,
            action,
            event,
            there,
        ) implies kept(#[trigger] reauthorize_machine()(machine, event), there) by {
        lemma_renew_thrives(
            start,
            codex_home,
            home,
            id,
            account,
            action,
            machine,
            here,
            event,
            there,
        );
    }
    lemma_leads(
        smooth_world(),
        reauthorize_machine(),
        kept,
        reauthorizing(codex_home, home, id, account),
        start,
        history,
        StepView::Done(result),
        after,
    );
}

/// Whether a new authorization takes the credentials in use to be those of the account only where
/// they are.
spec fn renewal_is_told(
    start: World,
    id: Seq<char>,
    step: StepView<ActionView, ReauthorizeView, (SavedAccountView, bool)>,
) -> bool {
    match step {
        StepView::Ask(_, ReauthorizeView::Replace { .. }) => is_login_of(start, id),
        StepView::Ask(_, ReauthorizeView::Import { is_current, .. }) => is_current ==> is_login_of(
            start,
            id,
        ),
        StepView::Done(Ok((_, updated))) => updated ==> is_login_of(start, id),
        _ => true,
    }
}

/// How a switch goes in a world in which nothing fails.
pub open spec fn smooth_switch() -> spec_fn(
    World,
    SwitchActionView,
    SwitchEventView,
    World,
) -> bool {
    |before: World, action: SwitchActionView, event: SwitchEventView, after: World|
        switch_performed(before, action, event, after) && match action {
            SwitchActionView::Do(inner) => answered(inner, file_reply(event)),
            SwitchActionView::Restart => event is Restarted,
        }
}

/// Whether nothing stands in the way of activating an account, as it was not at the start.
spec fn is_ready_to_activate(start: World, id: Seq<char>, between: World) -> bool {
    &&& is_saved(between, id, saved_auth(start, id))
    &&& content(between, PlaceView::Journal) is None
}

/// The account is being activated.
spec fn activating_well(
    start: World,
    codex_home: Seq<char>,
    id: Seq<char>,
    step: StepView<ActionView, ActivateView, ()>,
    between: World,
    world: World,
) -> bool {
    &&& is_ready_to_activate(start, id, between)
    &&& activate_thrives(between, codex_home, id, step, world)
    &&& world.index == between.index
}

/// What holds of every step of a switch while nothing fails.
spec fn switch_thrives(
    start: World,
    codex_home: Seq<char>,
    id: Seq<char>,
    step: StepView<SwitchActionView, SwitchView, SwitchOutcomeView>,
    world: World,
) -> bool {
    let done = active(world) == Some(saved_auth(start, id));
    let known = index_of(world).version == INDEX_VERSION && listed(index_of(world).accounts, id);
    match step {
        StepView::Ask(action, SwitchView::Save { id: i, codex_home: c, save, .. }) => {
            &&& i == id
            &&& c == codex_home
            &&& action matches SwitchActionView::Do(inner)
            &&& save_kept(start, id, StepView::Ask(inner, save), world)
        },
        StepView::Ask(action, SwitchView::Activate { id: i, activate, .. }) => {
            &&& i == id
            &&& action matches SwitchActionView::Do(inner)
            &&& exists|between: World| #[trigger]
                activating_well(
                    start,
                    codex_home,
                    id,
                    StepView::Ask(inner, activate),
                    between,
                    world,
                )
        },
        StepView::Ask(action, SwitchView::Index { id: i, .. }) => i == id && action
            == SwitchActionView::Do(ActionView::ReadIndex) && done && known,
        StepView::Ask(action, SwitchView::Restart { .. }) => done && action is Restart,
        StepView::Done(result) => result is Ok && done,
    }
}

/// Goes on with the activation.
proof fn lemma_activating_well(
    start: World,
    codex_home: Seq<char>,
    id: Seq<char>,
    restart: bool,
    step: StepView<ActionView, ActivateView, ()>,
    between: World,
    world: World,
)
    requires
        activating_well(start, codex_home, id, step, between, world),
    ensures
        switch_thrives(start, codex_home, id, switch_activated(id, restart, step), world),
{
    assert(saved_auth(between, id) == saved_auth(start, id));
    assert(index_of(world) == index_of(between));
}

/// Goes on when the account in use is saved.
proof fn lemma_saved_well(
    start: World,
    codex_home: Seq<char>,
    id: Seq<char>,
    auth: Seq<u8>,
    restart: bool,
    world: World,
)
    requires
        is_account_id(id),
        is_saved(start, id, auth),
        content(start, PlaceView::Journal) is None,
        save_kept(start, id, StepView::Done(Ok(())), world),
    ensures
        switch_thrives(
            start,
            codex_home,
            id,
            switch_activating(id, codex_home, restart),
            world,
        ),
{
    let entry = PlaceView::Vault(id);
    assert(is_ready_to_activate(start, id, world)) by {
        if is_other_login(start, id) {
            let saved = choose|saved: SavedAccountView| #[trigger]
                is_imported(start, world, active(start), None, None, saved) && differs_in_entry(
                    start,
                    world,
                    active(start),
                );
            assert(content(world, entry) == content(start, entry));
            assert(start.sealed.dom().contains(start.files[entry]));
            assert(content(world, PlaceView::Journal) == content(start, PlaceView::Journal));
            let before = index_of(start).accounts;
            let now = index_of(world).accounts;
            lemma_others_stay_listed(index_of(start), saved, id);
        }
    }
    let step = activating(id, codex_home);
    assert(load_kept(world, id, true, loading_saved(id), world)) by {
        assert(is_saved(world, id, auth));
    }
    assert(activating_well(start, codex_home, id, step, world, world));
}

/// Entering an account leaves every account listed that was.
proof fn lemma_others_stay_listed(
    index: AccountIndexView,
    saved: SavedAccountView,
    id: Seq<char>,
)
    requires
        listed(index.accounts, id),
    ensures
        listed(entered(index, saved).accounts, id),
        entered(index, saved).version == index.version,
{
    let now = entered(index, saved).accounts;
    lemma_place_of(index.accounts, id);
    lemma_place_of(index.accounts, saved.id);
    lemma_place_of(now, id);
    let at = place_of(index.accounts, id)->Some_0;
    assert(now[at].id == id);
}

/// In a world in which nothing fails, a switch to an account that the vault has succeeds, if no
/// update is recorded and the login in use can be saved; the login of the account is then in use,
/// whatever comes of the restart.
pub proof fn law_switch_succeeds(
    start: World,
    codex_home: Seq<char>,
    id: Seq<char>,
    auth: Seq<u8>,
    restart: bool,
    history: Seq<(SwitchEventView, World)>,
    result: Result<SwitchOutcomeView, Seq<char>>,
    after: World,
)
    requires
        is_account_id(id),
        is_saved(start, id, auth),
        content(start, PlaceView::Journal) is None,
        active(start) matches Some(login) ==> (usable_identity(login) matches Ok(other) ==> merged(
            index_of(start),
            other,
            None,
            None,
            0,
        ) is Ok),
        leads(
            smooth_switch(),
            switch_machine(),
            switching(id, codex_home, restart),
            start,
            history,
            StepView::Done(result),
            after,
        ),
    ensures
        result is Ok,
        active(after) == Some(auth),
{
    let kept = |step: StepView<SwitchActionView, SwitchView, SwitchOutcomeView>, world: World|
        switch_thrives(start, codex_home, id, step, world);
    assert forall|
        action: SwitchActionView,
        machine: SwitchView,
        here: World,
        event: SwitchEventView,
        there: World,
    |
        kept(StepView::Ask(action, machine), here) && #[trigger] smooth_switch()(
            here,
            action,
            event,
            there,
        ) implies kept(#[trigger] switch_machine()(machine, event), there) by {
        let answer = file_reply(event);
        match machine {
            SwitchView::Save { restart: r, save, .. } => {
                let inner = action->Do_0;
                lemma_save_kept(start, id, inner, save, here, answer, there);
                let step = save_current_next(save, answer);
                assert(!(step matches StepView::Done(Err(_))));
                if step is Done {
                    lemma_saved_well(start, codex_home, id, auth, r, there);
                }
            },
            SwitchView::Activate { restart: r, activate, .. } => {
                let inner = action->Do_0;
                let between = choose|between: World| #[trigger]
                    activating_well(
                        start,
                        codex_home,
                        id,
                        StepView::Ask(inner, activate),
                        between,
                        here,
                    );
                lemma_activate_thrives(
                    between,
                    codex_home,
                    id,
                    inner,
                    activate,
                    here,
                    answer,
                    there,
                );
                let step = activate_next(activate, answer);
                assert(activating_well(start, codex_home, id, step, between, there));
                lemma_activating_well(start, codex_home, id, r, step, between, there);
            },
            SwitchView::Index { .. } => {
                lemma_place_of(index_of(here).accounts, id);
            },
            SwitchView::Restart { .. } => {},
        }
    }
    lemma_leads(
        smooth_switch(),
        switch_machine(),
        kept,
        switching(id, codex_home, restart),
        start,
        history,
        StepView::Done(result),
        after,
    );
}

/// Every answer keeps what holds of an activation while nothing fails; the index stays.
proof fn lemma_activate_thrives(
    start: World,
    codex_home: Seq<char>,
    id: Seq<char>,
    action: ActionView,
    machine: ActivateView,
    world: World,
    event: EventView,
    after: World,
)
    requires
        activate_thrives(start, codex_home, id, StepView::Ask(action, machine), world),
        content(start, PlaceView::Journal) is None,
        performed(world, action, event, after),
        answered(action, event),
    ensures
        activate_thrives(start, codex_home, id, activate_next(machine, event), after),
        after.index == start.index,
{
    let target = saved_auth(start, id);
    match machine {
        ActivateView::Load(load, _, _) => {
            lemma_load_kept(start, id, true, action, load, world, event, after);
            assert(is_saved(start, id, target) ==> replace_thrives(
                start,
                codex_home,
                target,
                id,
                replacing(codex_home, target, id, false),
                start,
            ));
        },
        ActivateView::Replace(replace) => {
            lemma_replace_kept(
                start,
                codex_home,
                false,
                true,
                target,
                id,
                action,
                replace,
                world,
                event,
                after,
            );
        },
    }
}

/// What holds of every step of clearing the home of a login while nothing fails.
pub open spec fn clean_login_thrives(
    start: World,
    home: HomeView,
    step: StepView<ActionView, CleanLoginView, ()>,
    world: World,
) -> bool {
    &&& clean_login_kept(start, home, step, world)
    &&& is_fine_home(start, home)
    &&& match step {
        StepView::Ask(_, CleanLoginView::Pause { .. }) => false,
        StepView::Ask(_, _) => true,
        StepView::Done(result) => result is Ok,
    }
}

/// Every answer keeps what holds of clearing the home of a login while nothing fails.
pub proof fn lemma_clean_login_thrives(
    start: World,
    home: HomeView,
    action: ActionView,
    machine: CleanLoginView,
    world: World,
    event: EventView,
    after: World,
)
    requires
        clean_login_thrives(start, home, StepView::Ask(action, machine), world),
        performed(world, action, event, after),
        answered(action, event),
    ensures
        clean_login_thrives(start, home, clean_login_next(machine, event), after),
{
    lemma_clean_login_kept(start, home, action, machine, world, event, after);
    match machine {
        CleanLoginView::Child { child, .. } => {
            lemma_child_kept(start, home, action, child, world, event, after);
        },
        CleanLoginView::Clean(clean) => {
            lemma_fine_clean(start, home, action, clean, world, event, after);
        },
        CleanLoginView::Pause { .. } => {},
    }
}

/// In a world in which nothing fails, the home of a login in which no process works is cleared.
pub proof fn law_clearing_a_login_home_succeeds(
    start: World,
    name: Seq<char>,
    history: Seq<(EventView, World)>,
    result: Result<(), Seq<char>>,
    after: World,
)
    requires
        is_idle(start, HomeView::Login(name)),
        is_known_record(start, HomeView::Login(name)),
        leads(
            smooth_world(),
            clean_login_machine(),
            cleaning_login(HomeView::Login(name)),
            start,
            history,
            StepView::Done(result),
            after,
        ),
    ensures
        result is Ok,
        is_empty_home(after, HomeView::Login(name)),
{
    let home = HomeView::Login(name);
    let kept = |step: StepView<ActionView, CleanLoginView, ()>, world: World|
        clean_login_thrives(start, home, step, world);
    assert forall|
        action: ActionView,
        machine: CleanLoginView,
        here: World,
        event: EventView,
        there: World,
    |
        kept(StepView::Ask(action, machine), here) && #[trigger] smooth_world()(
            here,
            action,
            event,
            there,
        ) implies kept(#[trigger] clean_login_machine()(machine, event), there) by {
        lemma_clean_login_thrives(start, home, action, machine, here, event, there);
    }
    assert(child_kept(start, home, checking_child(home), start));
    lemma_leads(
        smooth_world(),
        clean_login_machine(),
        kept,
        cleaning_login(home),
        start,
        history,
        StepView::Done(result),
        after,
    );
}

/// Whether the home of a login has these credentials, and no process is recorded there.
pub open spec fn is_logged_in(world: World, name: Seq<char>, auth: Seq<u8>) -> bool {
    &&& content(world, PlaceView::InHome(HomeView::Login(name), HomeFile::Auth)) == Some(auth)
    &&& content(world, PlaceView::InHome(HomeView::Login(name), HomeFile::Child)) is None
}

/// How a login goes in a world in which nothing fails: the official login leaves credentials in the
/// home, the query tells this of the account, and neither leaves a process behind.
pub open spec fn smooth_login(
    name: Seq<char>,
    auth: Seq<u8>,
    told: Option<AccountInfoView>,
) -> spec_fn(World, LoginActionView, LoginEventView, World) -> bool {
    |before: World, action: LoginActionView, event: LoginEventView, after: World|
        {
            &&& login_performed(name, before, action, event, after)
            &&& match action {
                LoginActionView::Phase(_) => event == LoginEventView::Finished(Ok(())),
                LoginActionView::Acquire => event == LoginEventView::Finished(Ok(())),
                LoginActionView::Discover => event matches LoginEventView::Found(Ok(_)),
                LoginActionView::CreateHome => event == LoginEventView::Created(Ok(name)),
                LoginActionView::LogIn => event == LoginEventView::Finished(Ok(())) && is_logged_in(
                    after,
                    name,
                    auth,
                ),
                LoginActionView::Query => event == LoginEventView::Queried(Ok(()), told)
                    && is_logged_in(after, name, auth),
                LoginActionView::Do(inner) => answered(inner, login_file_reply(event)),
            }
        }
}

/// Whether nothing stands in the way of saving what a login came to.
pub open spec fn can_be_saved(
    start: World,
    purpose: PurposeView,
    id: Seq<char>,
    told: Option<AccountInfoView>,
) -> bool {
    &&& index_of(start).version == INDEX_VERSION
    &&& match purpose {
        PurposeView::Add { label } => merged(index_of(start), id, told, label, 0) is Ok,
        PurposeView::Renew { id: chosen } => {
            &&& chosen == id
            &&& listed(index_of(start).accounts, id)
            &&& merged(index_of(start), id, told, None, 0) is Ok
            &&& content(start, PlaceView::Journal) is None
        },
    }
}

/// A new account is being imported.
spec fn importing_well(
    start: World,
    name: Seq<char>,
    auth: Seq<u8>,
    told: Option<AccountInfoView>,
    label: Option<Seq<char>>,
    step: StepView<ActionView, ImportView, SavedAccountView>,
    middle: World,
    world: World,
) -> bool {
    &&& differs_in_login_home(start, middle, name)
    &&& is_logged_in(middle, name, auth)
    &&& import_kept(middle, HomeView::Login(name), told, label, step, world)
    &&& step matches StepView::Done(result) ==> result is Ok
}

/// A saved account is being authorized anew.
spec fn renewing_well(
    start: World,
    name: Seq<char>,
    auth: Seq<u8>,
    told: Option<AccountInfoView>,
    id: Seq<char>,
    codex_home: Seq<char>,
    step: StepView<ActionView, ReauthorizeView, (SavedAccountView, bool)>,
    middle: World,
    world: World,
) -> bool {
    &&& differs_in_login_home(start, middle, name)
    &&& is_logged_in(middle, name, auth)
    &&& renew_thrives(middle, codex_home, HomeView::Login(name), id, told, step, world)
}

/// The home of the login is being cleared.
spec fn clearing_well(
    name: Seq<char>,
    step: StepView<ActionView, CleanLoginView, ()>,
    middle: World,
    world: World,
) -> bool {
    clean_login_thrives(middle, HomeView::Login(name), step, world)
}

/// What holds of every step of a login while nothing fails.
spec fn login_thrives(
    start: World,
    purpose: PurposeView,
    name: Seq<char>,
    auth: Seq<u8>,
    id: Seq<char>,
    told: Option<AccountInfoView>,
    step: StepView<LoginActionView, LoginView, ReauthorizationOutcomeView>,
    world: World,
) -> bool {
    let home = HomeView::Login(name);
    let apart = differs_in_login_home(start, world, name);
    let ready = apart && is_logged_in(world, name, auth);
    match step {
        StepView::Ask(action, machine) => match machine {
            LoginView::Queued { purpose: p } => apart && p == purpose && action is Phase,
            LoginView::Acquired { purpose: p } => apart && p == purpose && action is Acquire,
            LoginView::Discovered { purpose: p } => apart && p == purpose && action is Discover,
            LoginView::Listed { id: i, .. } => apart && purpose == (PurposeView::Renew { id: i })
                && action == LoginActionView::Do(ActionView::ReadIndex),
            LoginView::Home { errand } => apart && suits(purpose, errand) && action is CreateHome,
            LoginView::Waiting { name: n, errand } => apart && n == name && suits(purpose, errand)
                && action is Phase,
            LoginView::LoggedIn { name: n, errand } => apart && n == name && suits(purpose, errand)
                && action is LogIn,
            LoginView::Identified { name: n, id: i, .. } => ready && n == name && purpose
                == (PurposeView::Renew { id: i }) && action == LoginActionView::Do(
                ActionView::Read(PlaceView::InHome(home, HomeFile::Auth)),
            ),
            LoginView::Verifying { name: n, errand } => ready && n == name && suits(
                purpose,
                errand,
            ) && action is Phase,
            LoginView::Queried { name: n, errand } => ready && n == name && suits(purpose, errand)
                && action is Query,
            LoginView::Idle { name: n, errand, account, idle } => {
                &&& ready
                &&& n == name
                &&& suits(purpose, errand)
                &&& account == told
                &&& action matches LoginActionView::Do(inner)
                &&& idle_kept(world, home, StepView::Ask(inner, idle), world)
            },
            LoginView::Saving { name: n, errand, account } => ready && n == name && suits(
                purpose,
                errand,
            ) && account == told && action is Phase,
            LoginView::Import { name: n, import } => {
                &&& n == name
                &&& purpose matches PurposeView::Add { label }
                &&& action matches LoginActionView::Do(inner)
                &&& exists|middle: World| #[trigger]
                    importing_well(
                        start,
                        name,
                        auth,
                        told,
                        label,
                        StepView::Ask(inner, import),
                        middle,
                        world,
                    )
            },
            LoginView::Renew { name: n, renew } => {
                &&& n == name
                &&& purpose is Renew
                &&& action matches LoginActionView::Do(inner)
                &&& exists|codex_home: Seq<char>, middle: World| #[trigger]
                    renewing_well(
                        start,
                        name,
                        auth,
                        told,
                        id,
                        codex_home,
                        StepView::Ask(inner, renew),
                        middle,
                        world,
                    )
            },
            LoginView::Clean { result, clean } => {
                &&& result is Ok
                &&& action matches LoginActionView::Do(inner)
                &&& exists|middle: World| #[trigger]
                    clearing_well(name, StepView::Ask(inner, clean), middle, world)
            },
        },
        StepView::Done(result) => result is Ok,
    }
}

/// Goes on to clear the home, in which no process is recorded.
proof fn lemma_settled_well(
    start: World,
    purpose: PurposeView,
    name: Seq<char>,
    auth: Seq<u8>,
    id: Seq<char>,
    told: Option<AccountInfoView>,
    done: ReauthorizationOutcomeView,
    world: World,
)
    requires
        content(world, PlaceView::InHome(HomeView::Login(name), HomeFile::Child)) is None,
    ensures
        login_thrives(
            start,
            purpose,
            name,
            auth,
            id,
            told,
            login_settled(name, Ok(done)),
            world,
        ),
{
    let home = HomeView::Login(name);
    let step = cleaning_login(home);
    assert(child_kept(world, home, checking_child(home), world));
    assert(is_fine_home(world, home));
    assert(clearing_well(name, step, world, world));
}

/// Goes on with an import.
proof fn lemma_imported_well(
    start: World,
    purpose: PurposeView,
    name: Seq<char>,
    auth: Seq<u8>,
    id: Seq<char>,
    told: Option<AccountInfoView>,
    step: StepView<ActionView, ImportView, SavedAccountView>,
    middle: World,
    world: World,
)
    requires
        purpose is Add,
        importing_well(start, name, auth, told, purpose->Add_label, step, middle, world),
    ensures
        login_thrives(
            start,
            purpose,
            name,
            auth,
            id,
            told,
            login_imported(name, step),
            world,
        ),
{
    if let StepView::Done(Ok(saved)) = step {
        let child = PlaceView::InHome(HomeView::Login(name), HomeFile::Child);
        assert(content(world, child) == content(middle, child));
        let done = ReauthorizationOutcomeView { account: saved, current_auth_updated: false };
        lemma_settled_well(start, purpose, name, auth, id, told, done, world);
    }
}

/// Goes on with a new authorization.
proof fn lemma_renewed_well(
    start: World,
    purpose: PurposeView,
    name: Seq<char>,
    auth: Seq<u8>,
    id: Seq<char>,
    told: Option<AccountInfoView>,
    codex_home: Seq<char>,
    step: StepView<ActionView, ReauthorizeView, (SavedAccountView, bool)>,
    middle: World,
    world: World,
)
    requires
        purpose is Renew,
        renewing_well(start, name, auth, told, id, codex_home, step, middle, world),
    ensures
        login_thrives(
            start,
            purpose,
            name,
            auth,
            id,
            told,
            login_renewed(name, step),
            world,
        ),
{
    if let StepView::Done(Ok((saved, updated))) = step {
        let child = PlaceView::InHome(HomeView::Login(name), HomeFile::Child);
        assert(content(world, child) == content(middle, child));
        let done = ReauthorizationOutcomeView { account: saved, current_auth_updated: updated };
        lemma_settled_well(start, purpose, name, auth, id, told, done, world);
    }
}

/// Every answer keeps what holds of a login while nothing fails.
proof fn lemma_login_thrives(
    start: World,
    purpose: PurposeView,
    name: Seq<char>,
    auth: Seq<u8>,
    id: Seq<char>,
    told: Option<AccountInfoView>,
    action: LoginActionView,
    machine: LoginView,
    world: World,
    event: LoginEventView,
    after: World,
)
    requires
        usable_identity(auth) == Ok::<Seq<char>, Seq<char>>(id),
        can_be_saved(start, purpose, id, told),
        login_thrives(
            start,
            purpose,
            name,
            auth,
            id,
            told,
            StepView::Ask(action, machine),
            world,
        ),
        smooth_login(name, auth, told)(world, action, event, after),
    ensures
        login_thrives(start, purpose, name, auth, id, told, login_next(machine, event), after),
{
    let home = HomeView::Login(name);
    let answer = login_file_reply(event);
    match machine {
        LoginView::LoggedIn { .. } | LoginView::Queried { .. } => {
            lemma_submap_chain(start.sealed, world.sealed, after.sealed);
            assert(differs_in_login_home(start, after, name));
            assert(idle_kept(after, home, ensuring_idle(home), after));
        },
        LoginView::Idle { idle, .. } => {
            let inner = action->Do_0;
            assert(is_idle(world, home) && is_known_record(world, home));
            lemma_idle_kept(world, home, inner, idle, world, answer, after);
            lemma_idle_thrives(world, home, inner, idle, answer, after);
        },
        LoginView::Saving { errand, .. } => {
            match errand {
                ErrandView::Add { label } => {
                    let step = importing(home, told, label);
                    assert(importing_well(
                        start,
                        name,
                        auth,
                        told,
                        label,
                        step,
                        after,
                        after,
                    ));
                    lemma_imported_well(start, purpose, name, auth, id, told, step, after, after);
                },
                ErrandView::Renew { id: i, codex_home } => {
                    let step = reauthorizing(codex_home, home, id, told);
                    assert(content(after, PlaceView::Journal) == content(
                        start,
                        PlaceView::Journal,
                    ));
                    assert(renewing_well(
                        start,
                        name,
                        auth,
                        told,
                        id,
                        codex_home,
                        step,
                        after,
                        after,
                    ));
                    lemma_renewed_well(
                        start,
                        purpose,
                        name,
                        auth,
                        id,
                        told,
                        codex_home,
                        step,
                        after,
                        after,
                    );
                },
            }
        },
        LoginView::Import { import, .. } => {
            let inner = action->Do_0;
            let label = purpose->Add_label;
            let middle = choose|middle: World| #[trigger]
                importing_well(
                    start,
                    name,
                    auth,
                    told,
                    label,
                    StepView::Ask(inner, import),
                    middle,
                    world,
                );
            lemma_import_kept(middle, home, told, label, inner, import, world, answer, after);
            let step = import_next(import, answer);
            assert(index_of(middle) == index_of(start));
            assert(!(step matches StepView::Done(Err(_))));
            assert(importing_well(start, name, auth, told, label, step, middle, after));
            lemma_imported_well(start, purpose, name, auth, id, told, step, middle, after);
        },
        LoginView::Renew { renew, .. } => {
            let inner = action->Do_0;
            let (codex_home, middle) = choose|codex_home: Seq<char>, middle: World| #[trigger]
                renewing_well(
                    start,
                    name,
                    auth,
                    told,
                    id,
                    codex_home,
                    StepView::Ask(inner, renew),
                    middle,
                    world,
                );
            lemma_renew_thrives(
                middle,
                codex_home,
                home,
                id,
                told,
                inner,
                renew,
                world,
                answer,
                after,
            );
            let step = reauthorize_next(renew, answer);
            assert(renewing_well(start, name, auth, told, id, codex_home, step, middle, after));
            lemma_renewed_well(
                start,
                purpose,
                name,
                auth,
                id,
                told,
                codex_home,
                step,
                middle,
                after,
            );
        },
        LoginView::Clean { clean, .. } => {
            let inner = action->Do_0;
            let middle = choose|middle: World| #[trigger]
                clearing_well(name, StepView::Ask(inner, clean), middle, world);
            lemma_clean_login_thrives(middle, home, inner, clean, world, answer, after);
            let step = clean_login_next(clean, answer);
            assert(clearing_well(name, step, middle, after));
        },
        _ => {},
    }
}

/// In a world in which nothing fails, a login succeeds, be it one that adds an account or one that
/// authorizes a saved account anew by credentials that are its own.
pub proof fn law_login_succeeds(
    start: World,
    purpose: PurposeView,
    name: Seq<char>,
    auth: Seq<u8>,
    id: Seq<char>,
    told: Option<AccountInfoView>,
    history: Seq<(LoginEventView, World)>,
    result: Result<ReauthorizationOutcomeView, Seq<char>>,
    after: World,
)
    requires
        usable_identity(auth) == Ok::<Seq<char>, Seq<char>>(id),
        can_be_saved(start, purpose, id, told),
        leads(
            smooth_login(name, auth, told),
            login_machine(),
            login_beginning(purpose),
            start,
            history,
            StepView::Done(result),
            after,
        ),
    ensures
        result is Ok,
{
    let kept = |
        step: StepView<LoginActionView, LoginView, ReauthorizationOutcomeView>,
        world: World,
    |
        login_thrives(start, purpose, name, auth, id, told, step, world);
    let rule = smooth_login(name, auth, told);
    assert forall|
        action: LoginActionView,
        machine: LoginView,
        here: World,
        event: LoginEventView,
        there: World,
    |
        kept(StepView::Ask(action, machine), here) && #[trigger] rule(
            here,
            action,
            event,
            there,
        ) implies kept(#[trigger] login_machine()(machine, event), there) by {
        lemma_login_thrives(
            start,
            purpose,
            name,
            auth,
            id,
            told,
            action,
            machine,
            here,
            event,
            there,
        );
    }
    lemma_leads(
        rule,
        login_machine(),
        kept,
        login_beginning(purpose),
        start,
        history,
        StepView::Done(result),
        after,
    );
}

/// What holds of every step of removing the credentials of login homes while nothing fails.
spec fn clean_logins_thrives(
    step: StepView<ActionView, CleanLoginsView, ()>,
    world: World,
) -> bool {
    match step {
        StepView::Ask(action, CleanLoginsView::Present) => action is Exists,
        StepView::Ask(action, CleanLoginsView::Listed) => action == ActionView::List(
            PlaceView::LoginRoot,
        ),
        StepView::Ask(action, CleanLoginsView::Kind { rest, .. }) => action is IsDir
            && !has_unreadable(rest),
        StepView::Ask(action, CleanLoginsView::Removing { step, rest }) => !has_unreadable(rest)
            && match step {
            RemovePlainView::Present(home) => action == ActionView::Exists(
                PlaceView::InHome(home, HomeFile::Auth),
            ),
            RemovePlainView::Removed => action matches ActionView::Remove(place) && content(
                world,
                place,
            ) is Some,
        },
        StepView::Done(result) => result is Ok,
    }
}

/// Going through entries that could all be read comes to no error.
proof fn lemma_readable_rest(entries: Seq<EntryView>, world: World)
    requires
        !has_unreadable(entries),
    ensures
        clean_logins_thrives(clean_logins_rest(entries), world),
{
    if entries.len() > 0 {
        let rest = entries.drop_first();
        assert(!(entries[0] is Unreadable));
        if has_unreadable(rest) {
            let i = choose|i: int| 0 <= i < rest.len() && #[trigger] rest[i] is Unreadable;
            assert(entries[i + 1] is Unreadable);
        }
    }
}

/// In a world in which nothing fails, the credentials that login homes were left with are removed.
pub proof fn law_removing_login_credentials_succeeds(
    start: World,
    history: Seq<(EventView, World)>,
    result: Result<(), Seq<char>>,
    after: World,
)
    requires
        leads(
            listed_world(),
            clean_logins_machine(),
            cleaning_logins(),
            start,
            history,
            StepView::Done(result),
            after,
        ),
    ensures
        result is Ok,
{
    let kept = |step: StepView<ActionView, CleanLoginsView, ()>, world: World|
        clean_logins_thrives(step, world);
    assert forall|
        action: ActionView,
        machine: CleanLoginsView,
        here: World,
        event: EventView,
        there: World,
    |
        kept(StepView::Ask(action, machine), here) && #[trigger] listed_world()(
            here,
            action,
            event,
            there,
        ) implies kept(#[trigger] clean_logins_machine()(machine, event), there) by {
        match machine {
            CleanLoginsView::Listed => {
                if let EventView::Names(entries) = event {
                    lemma_readable_rest(entries, there);
                }
            },
            CleanLoginsView::Kind { rest, .. } => {
                lemma_readable_rest(rest, there);
            },
            CleanLoginsView::Removing { rest, .. } => {
                lemma_readable_rest(rest, there);
            },
            _ => {},
        }
    }
    lemma_leads(
        listed_world(),
        clean_logins_machine(),
        kept,
        cleaning_logins(),
        start,
        history,
        StepView::Done(result),
        after,
    );
}

/// How actions change a world in which nothing fails, and what is there can be listed.
pub open spec fn listed_world() -> spec_fn(World, ActionView, EventView, World) -> bool {
    |before: World, action: ActionView, event: EventView, after: World|
        performed(before, action, event, after) && answered(action, event) && (action is List
            ==> event is Names)
}

/// What holds of every step of a query of a saved account while nothing fails.
spec fn saved_query_thrives(
    start: World,
    id: Seq<char>,
    told: UsageSnapshotView,
    step: StepView<SavedActionView, QuerySavedView, UsageSnapshotView>,
    world: World,
) -> bool {
    match step {
        StepView::Ask(action, QuerySavedView::Prepare { id: i, prepare }) => {
            &&& i == id
            &&& action matches SavedActionView::Do(inner)
            &&& prepare_thrives(start, id, StepView::Ask(inner, prepare), world)
        },
        StepView::Ask(action, QuerySavedView::Query { id: i }) => i == id && action
            == SavedActionView::Query(HomeView::Runtime(id)),
        StepView::Ask(action, QuerySavedView::Finish { result, finish }) => {
            &&& result == Ok::<UsageSnapshotView, Seq<char>>(told)
            &&& action matches SavedActionView::Do(inner)
            &&& exists|middle: World| #[trigger]
                finishing_well(id, StepView::Ask(inner, finish), middle, world)
        },
        StepView::Done(result) => result == Ok::<UsageSnapshotView, Seq<char>>(told),
    }
}

/// The home is being taken back.
spec fn finishing_well(
    id: Seq<char>,
    step: StepView<ActionView, FinishView, ()>,
    middle: World,
    world: World,
) -> bool {
    let plain = content(middle, runtime_place(id));
    &&& finish_kept(middle, id, true, true, step, world)
    &&& plain is Some ==> fits_account(plain, id)
    &&& match step {
        StepView::Ask(_, FinishView::Read { .. }) => plain is Some,
        StepView::Ask(_, FinishView::Removed { error }) => error is None && plain is Some,
        StepView::Ask(_, _) => true,
        StepView::Done(result) => result is Ok,
    }
}

/// In a world in which nothing fails, a query of a saved account gives what the query itself told,
/// if no process works in its runtime home.
pub proof fn law_query_of_a_saved_account_succeeds(
    start: World,
    id: Seq<char>,
    auth: Seq<u8>,
    told: UsageSnapshotView,
    left: Option<Seq<u8>>,
    history: Seq<(SavedEventView, World)>,
    result: Result<UsageSnapshotView, Seq<char>>,
    after: World,
)
    requires
        is_account_id(id),
        is_saved(start, id, auth),
        is_idle(start, HomeView::Runtime(id)),
        is_known_record(start, HomeView::Runtime(id)),
        left matches Some(plain) ==> usable_identity(plain) == Ok::<Seq<char>, Seq<char>>(id),
        leads(
            smooth_saved_query(told, left),
            saved_query_machine(),
            querying_saved(id),
            start,
            history,
            StepView::Done(result),
            after,
        ),
    ensures
        result == Ok::<UsageSnapshotView, Seq<char>>(told),
{
    let kept = |
        step: StepView<SavedActionView, QuerySavedView, UsageSnapshotView>,
        world: World,
    |
        saved_query_thrives(start, id, told, step, world);
    let rule = smooth_saved_query(told, left);
    assert forall|
        action: SavedActionView,
        machine: QuerySavedView,
        here: World,
        event: SavedEventView,
        there: World,
    |
        kept(StepView::Ask(action, machine), here) && #[trigger] rule(
            here,
            action,
            event,
            there,
        ) implies kept(#[trigger] saved_query_machine()(machine, event), there) by {
        let answer = saved_file_reply(event);
        match machine {
            QuerySavedView::Prepare { prepare, .. } => {
                let inner = action->Do_0;
                lemma_prepare_kept(start, id, inner, prepare, here, answer, there);
                match prepare {
                    PrepareView::Load { load, .. } => {
                        lemma_load_kept(start, id, true, inner, load, here, answer, there);
                    },
                    PrepareView::Idle { idle, .. } => {
                        lemma_idle_thrives(
                            start,
                            HomeView::Runtime(id),
                            inner,
                            idle,
                            answer,
                            there,
                        );
                    },
                    _ => {},
                }
            },
            QuerySavedView::Query { .. } => {
                assert(finishing_well(id, finishing_isolated(id), there, there));
            },
            QuerySavedView::Finish { finish, .. } => {
                let inner = action->Do_0;
                let middle = choose|middle: World| #[trigger]
                    finishing_well(id, StepView::Ask(inner, finish), middle, here);
                lemma_finish_kept(middle, id, true, true, inner, finish, here, answer, there);
                assert(finishing_well(id, finish_next(finish, answer), middle, there));
            },
        }
    }
    lemma_leads(
        rule,
        saved_query_machine(),
        kept,
        querying_saved(id),
        start,
        history,
        StepView::Done(result),
        after,
    );
}

/// How a query of a saved account goes in a world in which nothing fails.
pub open spec fn smooth_saved_query(
    told: UsageSnapshotView,
    left: Option<Seq<u8>>,
) -> spec_fn(World, SavedActionView, SavedEventView, World) -> bool {
    |before: World, action: SavedActionView, event: SavedEventView, after: World|
        saved_query_world(Ok(told), left)(before, action, event, after) && (
        action matches SavedActionView::Do(inner) ==> answered(inner, saved_file_reply(event)))
}

} // verus!
