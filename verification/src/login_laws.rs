//! What holds of a login as a whole.

use vstd::prelude::*;

use crate::account_laws::{lemma_reauthorize_kept, reauthorize_kept};
use crate::accounts::{entered, merged, AccountInfoView, SavedAccountView};
use crate::cleanup_laws::{clean_login_kept, is_empty_home, lemma_clean_login_kept};
use crate::commands::{
    login_beginning, login_file_reply, login_imported, login_next, login_renewed, login_reply,
    login_settled, ErrandView, LoginActionView, LoginEventView, LoginPhase, LoginView, PurposeView,
    ReauthorizationOutcomeView,
};
use crate::effects::{ActionView, EventView, HomeFile, HomeView, PlaceView, StepView};
use crate::home_laws::child_kept;
use crate::index_laws::{
    asks_for_no_label, has_no_entry, is_all_blank, is_first_entry, law_account_is_found_by_its_id,
    law_entering_replaces_or_adds_one_entry, law_known_account_keeps_its_label,
    law_new_account_is_labelled_by_its_address, law_new_entry_is_found,
};
use crate::recovery::{
    checking_child, clean_home_next, clean_login_next, cleaning_login, ensure_idle_next,
    CheckedRemoveView, CleanHomeView, CleanLoginView,
};
use crate::text::trimmed;
use crate::vault::{
    import_next, importing, isolated_id_reply, reauthorize_next, reauthorizing, ImportView,
    ReauthorizeView,
};
use crate::vault_laws::{import_kept, index_of, is_saved, lemma_import_kept};
use crate::world::{
    active, active_place, answered, content, is_look, leads, lemma_leads, lemma_submap_chain,
    opened, performed, World,
};

verus! {

/// The machine of a login.
pub open spec fn login_machine() -> spec_fn(
    LoginView,
    LoginEventView,
) -> StepView<LoginActionView, LoginView, ReauthorizationOutcomeView> {
    |machine: LoginView, event: LoginEventView| login_next(machine, event)
}

/// Whether a place is one of a file in a login home.
pub open spec fn is_in_login_home(place: PlaceView, name: Seq<char>) -> bool {
    match place {
        PlaceView::InHome(home, _) => home == HomeView::Login(name),
        _ => false,
    }
}

/// Whether no file differs but those of a login home; the index is the same, and what was sealed
/// stays so.
pub open spec fn differs_in_login_home(start: World, world: World, name: Seq<char>) -> bool {
    &&& world.index == start.index
    &&& start.sealed.submap_of(world.sealed)
    &&& forall|place: PlaceView|
        #![trigger content(world, place)]
        #![trigger content(start, place)]
        !is_in_login_home(place, name) ==> content(world, place) == content(start, place)
}

/// How what a login asks for changes the world, in which it is given the home of this name. The
/// official login, and a query, change the files of that home alone, and processes.
pub open spec fn login_performed(
    name: Seq<char>,
    before: World,
    action: LoginActionView,
    event: LoginEventView,
    after: World,
) -> bool {
    match action {
        LoginActionView::LogIn | LoginActionView::Query => differs_in_login_home(
            before,
            after,
            name,
        ),
        LoginActionView::CreateHome => after == before && (event matches LoginEventView::Created(
            Ok(given),
        ) ==> given == name),
        LoginActionView::Do(action) => performed(before, action, login_file_reply(event), after),
        _ => after == before,
    }
}

/// How it changes a world in which anything may fail but looking whether a file is there and
/// reading it.
pub open spec fn login_world(name: Seq<char>) -> spec_fn(
    World,
    LoginActionView,
    LoginEventView,
    World,
) -> bool {
    |before: World, action: LoginActionView, event: LoginEventView, after: World|
        login_performed(name, before, action, event, after) && login_observed(action, event)
}

/// Whether looking and reading are answered.
pub open spec fn login_observed(action: LoginActionView, event: LoginEventView) -> bool {
    action matches LoginActionView::Do(inner) ==> (is_look(inner) || inner is Read ==> answered(
        inner,
        login_file_reply(event),
    ))
}

/// How it changes a world in which the login does not come to the phase of saving, such as when it
/// is cancelled before.
pub open spec fn unsaved_login_world(name: Seq<char>) -> spec_fn(
    World,
    LoginActionView,
    LoginEventView,
    World,
) -> bool {
    |before: World, action: LoginActionView, event: LoginEventView, after: World|
        login_performed(name, before, action, event, after) && (action == LoginActionView::Phase(
            LoginPhase::Saving,
        ) ==> login_reply(event) is Err)
}

/// Whether an action changes no file but those of a login home.
pub open spec fn is_confined(action: ActionView, name: Seq<char>) -> bool {
    match action {
        ActionView::CheckPath(_) => true,
        ActionView::Exists(_) => true,
        ActionView::Read(_) => true,
        ActionView::ReadIndex => true,
        ActionView::ReadChild(_) => true,
        ActionView::IsRunning(_) => true,
        ActionView::Observe(_) => true,
        ActionView::Sleep(_) => true,
        ActionView::Remove(place) => is_in_login_home(place, name),
        _ => false,
    }
}

/// Whether a removal is one of a file in a login home.
spec fn is_removal_confined(name: Seq<char>, remove: CheckedRemoveView) -> bool {
    match remove {
        CheckedRemoveView::Path(place) => is_in_login_home(place, name),
        CheckedRemoveView::Removed => true,
    }
}

/// What holds of clearing a login home: it asks for nothing that changes other files.
spec fn is_clean_confined(name: Seq<char>, clean: CleanHomeView) -> bool {
    let home = HomeView::Login(name);
    match clean {
        CleanHomeView::Path { home: h } => h == home,
        CleanHomeView::Child { home: h, .. } => h == home,
        CleanHomeView::AuthPath { home: h } => h == home,
        CleanHomeView::DraftPath { home: h } => h == home,
        CleanHomeView::SwitchPath { home: h } => h == home,
        CleanHomeView::Auth { home: h } => h == home,
        CleanHomeView::Finish { .. } => false,
        CleanHomeView::AuthRemove { home: h, remove } => h == home && is_removal_confined(
            name,
            remove,
        ),
        CleanHomeView::Draft { home: h, .. } => h == home,
        CleanHomeView::DraftRemove { home: h, remove, .. } => h == home && is_removal_confined(
            name,
            remove,
        ),
        CleanHomeView::Switch { home: h, .. } => h == home,
        CleanHomeView::SwitchRemove { home: h, remove, .. } => h == home && is_removal_confined(
            name,
            remove,
        ),
        CleanHomeView::Clear { remove, .. } => is_removal_confined(name, remove),
    }
}

/// What holds of clearing the home of a login.
spec fn is_login_clean_confined(name: Seq<char>, clean: CleanLoginView) -> bool {
    match clean {
        CleanLoginView::Child { home, .. } => home == HomeView::Login(name),
        CleanLoginView::Pause { home, .. } => home == HomeView::Login(name),
        CleanLoginView::Clean(clean) => is_clean_confined(name, clean),
    }
}

/// What holds of every step of a login that does not come to the phase of saving.
spec fn unsaved_kept(
    start: World,
    name: Seq<char>,
    step: StepView<LoginActionView, LoginView, ReauthorizationOutcomeView>,
    world: World,
) -> bool {
    &&& differs_in_login_home(start, world, name)
    &&& match step {
        StepView::Ask(action, machine) => {
            &&& action matches LoginActionView::Do(inner) ==> is_confined(inner, name)
            &&& match machine {
                LoginView::Home { .. } => action is CreateHome,
                LoginView::Waiting { name: n, .. } => n == name,
                LoginView::LoggedIn { name: n, .. } => n == name,
                LoginView::Identified { name: n, .. } => n == name,
                LoginView::Verifying { name: n, .. } => n == name,
                LoginView::Queried { name: n, .. } => n == name,
                LoginView::Idle { name: n, .. } => n == name,
                LoginView::Saving { name: n, .. } => n == name && action == LoginActionView::Phase(
                    LoginPhase::Saving,
                ),
                LoginView::Import { .. } => false,
                LoginView::Renew { .. } => false,
                LoginView::Clean { result, clean } => result is Err && is_login_clean_confined(
                    name,
                    clean,
                ),
                _ => true,
            }
        },
        StepView::Done(result) => result is Err,
    }
}

/// Every answer keeps what holds of a login that does not come to the phase of saving.
proof fn lemma_unsaved_kept(
    start: World,
    name: Seq<char>,
    action: LoginActionView,
    machine: LoginView,
    world: World,
    event: LoginEventView,
    after: World,
)
    requires
        unsaved_kept(start, name, StepView::Ask(action, machine), world),
        unsaved_login_world(name)(world, action, event, after),
    ensures
        unsaved_kept(start, name, login_next(machine, event), after),
{
    assert(differs_in_login_home(world, after, name));
    lemma_submap_chain(start.sealed, world.sealed, after.sealed);
    assert(differs_in_login_home(start, after, name));
    if let LoginView::Clean { result, clean } = machine {
        let answer = login_file_reply(event);
        let step = clean_login_next(clean, answer);
        if let StepView::Ask(next, rest) = step {
            assert(is_confined(next, name) && is_login_clean_confined(name, rest)) by {
                if let CleanLoginView::Clean(inner) = clean {
                    let cleaned = clean_home_next(inner, answer);
                    if let StepView::Ask(deeper, left) = cleaned {
                        assert(is_confined(deeper, name) && is_clean_confined(name, left));
                    }
                }
            }
        }
    }
}

/// A login that does not come to the phase of saving, such as one that is cancelled before, changes
/// no file but those of its own home: neither the vault nor the index, nor the login in use, nor
/// the backups. It does not succeed.
pub proof fn law_unsaved_login_changes_nothing(
    start: World,
    name: Seq<char>,
    purpose: PurposeView,
    history: Seq<(LoginEventView, World)>,
    end: StepView<LoginActionView, LoginView, ReauthorizationOutcomeView>,
    after: World,
)
    requires
        leads(
            unsaved_login_world(name),
            login_machine(),
            login_beginning(purpose),
            start,
            history,
            end,
            after,
        ),
    ensures
        differs_in_login_home(start, after, name),
        active(after) == active(start),
        forall|id: Seq<char>| #[trigger]
            content(after, PlaceView::Vault(id)) == content(start, PlaceView::Vault(id)),
        end matches StepView::Done(result) ==> result is Err,
{
    let kept = |
        step: StepView<LoginActionView, LoginView, ReauthorizationOutcomeView>,
        world: World,
    |
        unsaved_kept(start, name, step, world);
    assert forall|
        action: LoginActionView,
        machine: LoginView,
        here: World,
        event: LoginEventView,
        there: World,
    |
        kept(StepView::Ask(action, machine), here) && #[trigger] unsaved_login_world(name)(
            here,
            action,
            event,
            there,
        ) implies kept(#[trigger] login_machine()(machine, event), there) by {
        lemma_unsaved_kept(start, name, action, machine, here, event, there);
    }
    lemma_leads(
        unsaved_login_world(name),
        login_machine(),
        kept,
        login_beginning(purpose),
        start,
        history,
        end,
        after,
    );
    assert(content(after, active_place()) == content(start, active_place()));
}

/// Whether an errand is that of a purpose.
pub open spec fn suits(purpose: PurposeView, errand: ErrandView) -> bool {
    match (purpose, errand) {
        (PurposeView::Add { label: a }, ErrandView::Add { label: b }) => a == b,
        (PurposeView::Renew { id: a }, ErrandView::Renew { id: b, .. }) => a == b,
        _ => false,
    }
}

/// Whether the vault has usable credentials of an account, sealed, and lists it.
pub open spec fn has_account(world: World, id: Seq<char>) -> bool {
    exists|auth: Seq<u8>| #[trigger] is_saved(world, id, auth)
}

/// Whether a login has come to what it is for: the vault has the account, which is the one that was
/// to be authorized anew, if one was.
pub open spec fn is_login_kept(purpose: PurposeView, id: Seq<char>, world: World) -> bool {
    &&& has_account(world, id)
    &&& purpose matches PurposeView::Renew { id: chosen } ==> chosen == id
}

/// A new account is being imported.
spec fn importing_login(
    name: Seq<char>,
    account: Option<AccountInfoView>,
    label: Option<Seq<char>>,
    step: StepView<ActionView, ImportView, SavedAccountView>,
    middle: World,
    world: World,
) -> bool {
    import_kept(middle, HomeView::Login(name), account, label, step, world)
}

/// A new account is being imported.
spec fn import_under_way(
    name: Seq<char>,
    step: StepView<ActionView, ImportView, SavedAccountView>,
    world: World,
) -> bool {
    exists|account: Option<AccountInfoView>, label: Option<Seq<char>>, middle: World| #[trigger]
        importing_login(name, account, label, step, middle, world)
}

/// A saved account is being authorized anew.
spec fn renewing_login(
    name: Seq<char>,
    id: Seq<char>,
    codex_home: Seq<char>,
    account: Option<AccountInfoView>,
    step: StepView<ActionView, ReauthorizeView, (SavedAccountView, bool)>,
    middle: World,
    world: World,
) -> bool {
    reauthorize_kept(
        middle,
        codex_home,
        HomeView::Login(name),
        id,
        account,
        false,
        step,
        world,
    )
}

/// A saved account is being authorized anew.
spec fn renewal_under_way(
    name: Seq<char>,
    id: Seq<char>,
    step: StepView<ActionView, ReauthorizeView, (SavedAccountView, bool)>,
    world: World,
) -> bool {
    exists|codex_home: Seq<char>, account: Option<AccountInfoView>, middle: World| #[trigger]
        renewing_login(name, id, codex_home, account, step, middle, world)
}

/// The home of the login is being cleared.
spec fn clearing_login(
    name: Seq<char>,
    step: StepView<ActionView, CleanLoginView, ()>,
    middle: World,
    world: World,
) -> bool {
    clean_login_kept(middle, HomeView::Login(name), step, world)
}

/// The home of the login is being cleared.
spec fn clearing_under_way(
    name: Seq<char>,
    step: StepView<ActionView, CleanLoginView, ()>,
    world: World,
) -> bool {
    exists|middle: World| #[trigger] clearing_login(name, step, middle, world)
}

/// What holds of every step of a login.
spec fn login_kept(
    purpose: PurposeView,
    name: Seq<char>,
    step: StepView<LoginActionView, LoginView, ReauthorizationOutcomeView>,
    world: World,
) -> bool {
    match step {
        StepView::Ask(action, machine) => match machine {
            LoginView::Queued { purpose: p } => p == purpose,
            LoginView::Acquired { purpose: p } => p == purpose,
            LoginView::Discovered { purpose: p } => p == purpose,
            LoginView::Listed { id, .. } => purpose == (PurposeView::Renew { id }),
            LoginView::Home { errand } => suits(purpose, errand) && action is CreateHome,
            LoginView::Waiting { name: n, errand } => n == name && suits(purpose, errand),
            LoginView::LoggedIn { name: n, errand } => n == name && suits(purpose, errand),
            LoginView::Identified { name: n, id, .. } => n == name && purpose
                == (PurposeView::Renew { id }),
            LoginView::Verifying { name: n, errand } => n == name && suits(purpose, errand),
            LoginView::Queried { name: n, errand } => n == name && suits(purpose, errand),
            LoginView::Idle { name: n, errand, .. } => n == name && suits(purpose, errand),
            LoginView::Saving { name: n, errand, .. } => n == name && suits(purpose, errand)
                && action is Phase,
            LoginView::Import { name: n, import } => {
                &&& n == name
                &&& purpose is Add
                &&& action matches LoginActionView::Do(inner)
                &&& import_under_way(name, StepView::Ask(inner, import), world)
            },
            LoginView::Renew { name: n, renew } => {
                &&& n == name
                &&& purpose matches PurposeView::Renew { id }
                &&& action matches LoginActionView::Do(inner)
                &&& renewal_under_way(name, id, StepView::Ask(inner, renew), world)
            },
            LoginView::Clean { result, clean } => {
                &&& action matches LoginActionView::Do(inner)
                &&& clearing_under_way(name, StepView::Ask(inner, clean), world)
                &&& result matches Ok(done) ==> is_login_kept(purpose, done.account.id, world)
            },
        },
        StepView::Done(Ok(done)) => is_empty_home(world, HomeView::Login(name)) && is_login_kept(
            purpose,
            done.account.id,
            world,
        ),
        StepView::Done(Err(_)) => true,
    }
}

/// Goes on to clear the home.
proof fn lemma_login_settled(
    purpose: PurposeView,
    name: Seq<char>,
    result: Result<ReauthorizationOutcomeView, Seq<char>>,
    world: World,
)
    requires
        result matches Ok(done) ==> is_login_kept(purpose, done.account.id, world),
    ensures
        login_kept(purpose, name, login_settled(name, result), world),
{
    let home = HomeView::Login(name);
    let step = cleaning_login(home);
    assert(child_kept(world, home, checking_child(home), world));
    assert(clearing_login(name, step, world, world));
    assert(clearing_under_way(name, step, world));
}

/// Goes on with what is imported.
proof fn lemma_login_imported(
    purpose: PurposeView,
    name: Seq<char>,
    account: Option<AccountInfoView>,
    label: Option<Seq<char>>,
    step: StepView<ActionView, ImportView, SavedAccountView>,
    middle: World,
    world: World,
)
    requires
        purpose is Add,
        importing_login(name, account, label, step, middle, world),
    ensures
        login_kept(purpose, name, login_imported(name, step), world),
{
    assert(import_under_way(name, step, world));
    match step {
        StepView::Done(Ok(saved)) => {
            let auth = content(middle, PlaceView::InHome(HomeView::Login(name), HomeFile::Auth));
            assert(is_saved(world, saved.id, auth->Some_0));
            let done = ReauthorizationOutcomeView { account: saved, current_auth_updated: false };
            lemma_login_settled(purpose, name, Ok(done), world);
        },
        StepView::Done(Err(error)) => {
            lemma_login_settled(purpose, name, Err(error), world);
        },
        StepView::Ask(_, _) => {},
    }
}

/// Goes on with what is authorized anew.
proof fn lemma_login_renewed(
    purpose: PurposeView,
    name: Seq<char>,
    id: Seq<char>,
    codex_home: Seq<char>,
    account: Option<AccountInfoView>,
    step: StepView<ActionView, ReauthorizeView, (SavedAccountView, bool)>,
    middle: World,
    world: World,
)
    requires
        purpose == (PurposeView::Renew { id }),
        renewing_login(name, id, codex_home, account, step, middle, world),
    ensures
        login_kept(purpose, name, login_renewed(name, step), world),
{
    assert(renewal_under_way(name, id, step, world));
    match step {
        StepView::Done(Ok((saved, updated))) => {
            let auth = content(middle, PlaceView::InHome(HomeView::Login(name), HomeFile::Auth));
            assert(is_saved(world, id, auth->Some_0));
            let done = ReauthorizationOutcomeView {
                account: saved,
                current_auth_updated: updated,
            };
            lemma_login_settled(purpose, name, Ok(done), world);
        },
        StepView::Done(Err(error)) => {
            lemma_login_settled(purpose, name, Err(error), world);
        },
        StepView::Ask(_, _) => {},
    }
}

/// Clearing the home of a login takes no account out of the vault.
proof fn lemma_account_stays(
    name: Seq<char>,
    id: Seq<char>,
    action: ActionView,
    clean: CleanLoginView,
    middle: World,
    world: World,
    event: EventView,
    after: World,
)
    requires
        has_account(world, id),
        clearing_login(name, StepView::Ask(action, clean), middle, world),
        clearing_login(name, clean_login_next(clean, event), middle, after),
        performed(world, action, event, after),
    ensures
        has_account(after, id),
{
    let auth = choose|auth: Seq<u8>| is_saved(world, id, auth);
    let entry = PlaceView::Vault(id);
    assert(content(world, entry) == content(middle, entry));
    assert(content(after, entry) == content(middle, entry));
    assert(world.sealed.submap_of(after.sealed));
    assert(world.sealed.dom().contains(world.files[entry]));
    assert(is_saved(after, id, auth));
}

/// Every answer keeps what holds of a login.
proof fn lemma_login_kept(
    purpose: PurposeView,
    name: Seq<char>,
    action: LoginActionView,
    machine: LoginView,
    world: World,
    event: LoginEventView,
    after: World,
)
    requires
        login_kept(purpose, name, StepView::Ask(action, machine), world),
        login_performed(name, world, action, event, after),
        login_observed(action, event),
    ensures
        login_kept(purpose, name, login_next(machine, event), after),
{
    let answer = login_file_reply(event);
    let home = HomeView::Login(name);
    match machine {
        LoginView::Waiting { .. } | LoginView::LoggedIn { .. } | LoginView::Verifying { .. } => {
            if let Err(error) = login_reply(event) {
                lemma_login_settled(purpose, name, Err(error), after);
            }
        },
        LoginView::Identified { id, .. } => {
            match isolated_id_reply(answer) {
                Err(error) => {
                    lemma_login_settled(purpose, name, Err(error), after);
                },
                Ok(found) => {
                    if found != id {
                        lemma_login_settled(
                            purpose,
                            name,
                            Err("登录的不是所选账号，已取消覆盖；请用该账号重新登录"@),
                            after,
                        );
                    }
                },
            }
        },
        LoginView::Queried { .. } => {
            match event {
                LoginEventView::Queried(Ok(_), _) => {},
                LoginEventView::Queried(Err(error), _) => {
                    lemma_login_settled(purpose, name, Err(error), after);
                },
                _ => {
                    lemma_login_settled(purpose, name, Err("应答与请求不符"@), after);
                },
            }
        },
        LoginView::Idle { idle, .. } => {
            if let StepView::Done(Err(error)) = ensure_idle_next(idle, answer) {
                lemma_login_settled(purpose, name, Err(error), after);
            }
        },
        LoginView::Saving { errand, account, .. } => {
            match login_reply(event) {
                Err(error) => {
                    lemma_login_settled(purpose, name, Err(error), after);
                },
                Ok(_) => {
                    match errand {
                        ErrandView::Add { label } => {
                            let step = importing(home, account, label);
                            assert(importing_login(name, account, label, step, after, after));
                            lemma_login_imported(
                                purpose,
                                name,
                                account,
                                label,
                                step,
                                after,
                                after,
                            );
                        },
                        ErrandView::Renew { id, codex_home } => {
                            let step = reauthorizing(codex_home, home, id, account);
                            assert(renewing_login(
                                name,
                                id,
                                codex_home,
                                account,
                                step,
                                after,
                                after,
                            ));
                            lemma_login_renewed(
                                purpose,
                                name,
                                id,
                                codex_home,
                                account,
                                step,
                                after,
                                after,
                            );
                        },
                    }
                },
            }
        },
        LoginView::Import { import, .. } => {
            let inner = action->Do_0;
            let (account, label, middle) = choose|
                account: Option<AccountInfoView>,
                label: Option<Seq<char>>,
                middle: World,
            |
                importing_login(
                    name,
                    account,
                    label,
                    StepView::Ask(inner, import),
                    middle,
                    world,
                );
            lemma_import_kept(middle, home, account, label, inner, import, world, answer, after);
            let step = import_next(import, answer);
            assert(importing_login(name, account, label, step, middle, after));
            lemma_login_imported(purpose, name, account, label, step, middle, after);
        },
        LoginView::Renew { renew, .. } => {
            let inner = action->Do_0;
            let id = purpose->Renew_id;
            let (codex_home, account, middle) = choose|
                codex_home: Seq<char>,
                account: Option<AccountInfoView>,
                middle: World,
            |
                renewing_login(
                    name,
                    id,
                    codex_home,
                    account,
                    StepView::Ask(inner, renew),
                    middle,
                    world,
                );
            lemma_reauthorize_kept(
                middle,
                codex_home,
                home,
                id,
                account,
                false,
                inner,
                renew,
                world,
                answer,
                after,
            );
            let step = reauthorize_next(renew, answer);
            assert(renewing_login(name, id, codex_home, account, step, middle, after));
            lemma_login_renewed(purpose, name, id, codex_home, account, step, middle, after);
        },
        LoginView::Clean { result, clean } => {
            let inner = action->Do_0;
            let middle = choose|middle: World|
                clearing_login(name, StepView::Ask(inner, clean), middle, world);
            lemma_clean_login_kept(middle, home, inner, clean, world, answer, after);
            let step = clean_login_next(clean, answer);
            assert(clearing_login(name, step, middle, after));
            assert(clearing_under_way(name, step, after));
            if let Ok(done) = result {
                lemma_account_stays(
                    name,
                    done.account.id,
                    inner,
                    clean,
                    middle,
                    world,
                    answer,
                    after,
                );
            }
        },
        _ => {},
    }
}

/// A login that succeeds leaves its home empty, and the vault has the account, which is the one
/// that was to be authorized anew, if one was.
pub proof fn law_successful_login_is_saved_and_cleared(
    start: World,
    name: Seq<char>,
    purpose: PurposeView,
    history: Seq<(LoginEventView, World)>,
    done: ReauthorizationOutcomeView,
    after: World,
)
    requires
        leads(
            login_world(name),
            login_machine(),
            login_beginning(purpose),
            start,
            history,
            StepView::Done(Ok(done)),
            after,
        ),
    ensures
        is_empty_home(after, HomeView::Login(name)),
        has_account(after, done.account.id),
        purpose matches PurposeView::Renew { id } ==> done.account.id == id,
{
    let kept = |
        step: StepView<LoginActionView, LoginView, ReauthorizationOutcomeView>,
        world: World,
    |
        login_kept(purpose, name, step, world);
    assert forall|
        action: LoginActionView,
        machine: LoginView,
        here: World,
        event: LoginEventView,
        there: World,
    |
        kept(StepView::Ask(action, machine), here) && #[trigger] login_world(name)(
            here,
            action,
            event,
            there,
        ) implies kept(#[trigger] login_machine()(machine, event), there) by {
        lemma_login_kept(purpose, name, action, machine, here, event, there);
    }
    lemma_leads(
        login_world(name),
        login_machine(),
        kept,
        login_beginning(purpose),
        start,
        history,
        StepView::Done(Ok(done)),
        after,
    );
}

/// How a login changes a world in which the query of the account, if it succeeds, tells this of it.
pub open spec fn telling_login_world(name: Seq<char>, told: Option<AccountInfoView>) -> spec_fn(
    World,
    LoginActionView,
    LoginEventView,
    World,
) -> bool {
    |before: World, action: LoginActionView, event: LoginEventView, after: World|
        login_performed(name, before, action, event, after) && (action is Query ==> (
        event matches LoginEventView::Queried(Ok(_), account) ==> account == told))
}

/// The label that is asked for.
spec fn wanted_label(purpose: PurposeView) -> Option<Seq<char>> {
    match purpose {
        PurposeView::Add { label } => label,
        PurposeView::Renew { .. } => None,
    }
}

/// What a login that succeeds leaves in the index and in use.
spec fn is_told_entry(
    start: World,
    purpose: PurposeView,
    told: Option<AccountInfoView>,
    done: ReauthorizationOutcomeView,
    world: World,
) -> bool {
    let account = done.account;
    &&& world.index == Some(entered(index_of(start), account))
    &&& merged(
        index_of(start),
        account.id,
        told,
        wanted_label(purpose),
        account.imported_at,
    ) == Ok::<SavedAccountView, Seq<char>>(account)
    &&& purpose is Add ==> !done.current_auth_updated
    &&& purpose matches PurposeView::Renew { id } ==> account.id == id
    &&& !done.current_auth_updated ==> active(world) == active(start)
    &&& done.current_auth_updated ==> active(world) is Some && is_saved(
        world,
        account.id,
        active(world)->Some_0,
    )
}

/// A new account is being imported, with what was told of it.
spec fn importing_told(
    start: World,
    name: Seq<char>,
    told: Option<AccountInfoView>,
    label: Option<Seq<char>>,
    step: StepView<ActionView, ImportView, SavedAccountView>,
    middle: World,
    world: World,
) -> bool {
    &&& differs_in_login_home(start, middle, name)
    &&& import_kept(middle, HomeView::Login(name), told, label, step, world)
}

/// A saved account is being authorized anew, with what was told of it.
spec fn renewing_told(
    start: World,
    name: Seq<char>,
    told: Option<AccountInfoView>,
    id: Seq<char>,
    step: StepView<ActionView, ReauthorizeView, (SavedAccountView, bool)>,
    codex_home: Seq<char>,
    middle: World,
    world: World,
) -> bool {
    &&& differs_in_login_home(start, middle, name)
    &&& renewing_login(name, id, codex_home, told, step, middle, world)
}

/// What a login carries on its way to the phase of saving.
spec fn carries(
    purpose: PurposeView,
    told: Option<AccountInfoView>,
    action: LoginActionView,
    machine: LoginView,
) -> bool {
    &&& action == LoginActionView::Phase(LoginPhase::Saving) ==> machine is Saving
    &&& match machine {
        LoginView::Queued { purpose: p } => p == purpose,
        LoginView::Acquired { purpose: p } => p == purpose,
        LoginView::Discovered { purpose: p } => p == purpose,
        LoginView::Listed { id, .. } => purpose == (PurposeView::Renew { id }),
        LoginView::Home { errand } => suits(purpose, errand),
        LoginView::Waiting { errand, .. } => suits(purpose, errand),
        LoginView::LoggedIn { errand, .. } => suits(purpose, errand),
        LoginView::Identified { id, .. } => purpose == (PurposeView::Renew { id }),
        LoginView::Verifying { errand, .. } => suits(purpose, errand),
        LoginView::Queried { errand, .. } => suits(purpose, errand) && action is Query,
        LoginView::Idle { errand, account, .. } => suits(purpose, errand) && account == told,
        LoginView::Saving { errand, account, .. } => suits(purpose, errand) && account == told,
        _ => true,
    }
}

/// What holds of every step of a login, of what was told of the account.
spec fn told_kept(
    start: World,
    purpose: PurposeView,
    name: Seq<char>,
    told: Option<AccountInfoView>,
    step: StepView<LoginActionView, LoginView, ReauthorizationOutcomeView>,
    world: World,
) -> bool {
    match step {
        StepView::Ask(action, LoginView::Import { name: n, import }) => {
            &&& n == name
            &&& purpose matches PurposeView::Add { label }
            &&& action matches LoginActionView::Do(inner)
            &&& exists|middle: World| #[trigger]
                importing_told(
                    start,
                    name,
                    told,
                    label,
                    StepView::Ask(inner, import),
                    middle,
                    world,
                )
        },
        StepView::Ask(action, LoginView::Renew { name: n, renew }) => {
            &&& n == name
            &&& purpose matches PurposeView::Renew { id }
            &&& action matches LoginActionView::Do(inner)
            &&& exists|codex_home: Seq<char>, middle: World| #[trigger]
                renewing_told(
                    start,
                    name,
                    told,
                    id,
                    StepView::Ask(inner, renew),
                    codex_home,
                    middle,
                    world,
                )
        },
        StepView::Ask(action, LoginView::Clean { result, clean }) => result matches Ok(done) ==> {
            &&& action matches LoginActionView::Do(inner)
            &&& is_confined(inner, name)
            &&& is_login_clean_confined(name, clean)
            &&& is_told_entry(start, purpose, told, done, world)
        },
        StepView::Ask(action, machine) => unsaved_kept(start, name, step, world) && carries(
            purpose,
            told,
            action,
            machine,
        ),
        StepView::Done(Ok(done)) => is_told_entry(start, purpose, told, done, world),
        StepView::Done(Err(_)) => true,
    }
}

/// Goes on with an import.
proof fn lemma_told_imported(
    start: World,
    purpose: PurposeView,
    name: Seq<char>,
    told: Option<AccountInfoView>,
    step: StepView<ActionView, ImportView, SavedAccountView>,
    middle: World,
    world: World,
)
    requires
        purpose is Add,
        importing_told(start, name, told, purpose->Add_label, step, middle, world),
    ensures
        told_kept(start, purpose, name, told, login_imported(name, step), world),
{
    if let StepView::Done(Ok(saved)) = step {
        let done = ReauthorizationOutcomeView { account: saved, current_auth_updated: false };
        assert(content(world, active_place()) == content(middle, active_place()));
        assert(content(middle, active_place()) == content(start, active_place()));
        assert(is_told_entry(start, purpose, told, done, world));
    }
}

/// Goes on with a new authorization.
proof fn lemma_told_renewed(
    start: World,
    purpose: PurposeView,
    name: Seq<char>,
    told: Option<AccountInfoView>,
    step: StepView<ActionView, ReauthorizeView, (SavedAccountView, bool)>,
    codex_home: Seq<char>,
    middle: World,
    world: World,
)
    requires
        purpose is Renew,
        renewing_told(start, name, told, purpose->Renew_id, step, codex_home, middle, world),
    ensures
        told_kept(start, purpose, name, told, login_renewed(name, step), world),
{
    if let StepView::Done(Ok((saved, updated))) = step {
        let done = ReauthorizationOutcomeView { account: saved, current_auth_updated: updated };
        assert(content(middle, active_place()) == content(start, active_place()));
        assert(is_told_entry(start, purpose, told, done, world));
    }
}

/// Every answer keeps what holds of a login, of what was told of the account.
proof fn lemma_told_kept(
    start: World,
    purpose: PurposeView,
    name: Seq<char>,
    told: Option<AccountInfoView>,
    action: LoginActionView,
    machine: LoginView,
    world: World,
    event: LoginEventView,
    after: World,
)
    requires
        told_kept(start, purpose, name, told, StepView::Ask(action, machine), world),
        telling_login_world(name, told)(world, action, event, after),
    ensures
        told_kept(start, purpose, name, told, login_next(machine, event), after),
{
    let answer = login_file_reply(event);
    let home = HomeView::Login(name);
    match machine {
        LoginView::Import { import, .. } => {
            let inner = action->Do_0;
            let label = purpose->Add_label;
            let middle = choose|middle: World| #[trigger]
                importing_told(
                    start,
                    name,
                    told,
                    label,
                    StepView::Ask(inner, import),
                    middle,
                    world,
                );
            lemma_import_kept(middle, home, told, label, inner, import, world, answer, after);
            let step = import_next(import, answer);
            assert(importing_told(start, name, told, label, step, middle, after));
            lemma_told_imported(start, purpose, name, told, step, middle, after);
        },
        LoginView::Renew { renew, .. } => {
            let inner = action->Do_0;
            let id = purpose->Renew_id;
            let (codex_home, middle) = choose|codex_home: Seq<char>, middle: World| #[trigger]
                renewing_told(
                    start,
                    name,
                    told,
                    id,
                    StepView::Ask(inner, renew),
                    codex_home,
                    middle,
                    world,
                );
            lemma_reauthorize_kept(
                middle,
                codex_home,
                home,
                id,
                told,
                false,
                inner,
                renew,
                world,
                answer,
                after,
            );
            let step = reauthorize_next(renew, answer);
            assert(renewing_told(start, name, told, id, step, codex_home, middle, after));
            lemma_told_renewed(start, purpose, name, told, step, codex_home, middle, after);
        },
        LoginView::Clean { result, clean } => {
            if let Ok(done) = result {
                assert(differs_in_login_home(world, after, name));
                let step = clean_login_next(clean, answer);
                if let StepView::Ask(next, rest) = step {
                    assert(is_confined(next, name) && is_login_clean_confined(name, rest)) by {
                        if let CleanLoginView::Clean(inner) = clean {
                            let cleaned = clean_home_next(inner, answer);
                            if let StepView::Ask(deeper, left) = cleaned {
                                assert(is_confined(deeper, name) && is_clean_confined(name, left));
                            }
                        }
                    }
                }
                let entry = PlaceView::Vault(done.account.id);
                assert(content(after, active_place()) == content(world, active_place()));
                assert(content(after, entry) == content(world, entry));
                if done.current_auth_updated {
                    assert(world.sealed.dom().contains(world.files[entry]));
                    assert(is_saved(after, done.account.id, active(after)->Some_0));
                }
                assert(is_told_entry(start, purpose, told, done, after));
            }
        },
        LoginView::Saving { errand, .. } => {
            if login_reply(event) is Ok {
                assert(after == world);
                match errand {
                    ErrandView::Add { label } => {
                        let step = importing(home, told, label);
                        assert(importing_told(start, name, told, label, step, after, after));
                        lemma_told_imported(start, purpose, name, told, step, after, after);
                    },
                    ErrandView::Renew { id, codex_home } => {
                        let step = reauthorizing(codex_home, home, id, told);
                        assert(renewing_told(
                            start,
                            name,
                            told,
                            id,
                            step,
                            codex_home,
                            after,
                            after,
                        ));
                        lemma_told_renewed(
                            start,
                            purpose,
                            name,
                            told,
                            step,
                            codex_home,
                            after,
                            after,
                        );
                    },
                }
            } else {
                lemma_unsaved_kept(start, name, action, machine, world, event, after);
            }
        },
        _ => {
            lemma_unsaved_kept(start, name, action, machine, world, event, after);
        },
    }
}

/// The entry that a login leaves in the index is the one that it tells, and has what the query told
/// of the account: its address and its plan. Its label is the one that was asked for; where none
/// was, it is the one that the account had, or its address, if it had no entry before. No entry of
/// another account changes. It tells truly whether the login in use was replaced by the new one.
pub proof fn law_login_saves_what_the_query_told(
    start: World,
    name: Seq<char>,
    purpose: PurposeView,
    told: Option<AccountInfoView>,
    history: Seq<(LoginEventView, World)>,
    done: ReauthorizationOutcomeView,
    after: World,
)
    requires
        leads(
            telling_login_world(name, told),
            login_machine(),
            login_beginning(purpose),
            start,
            history,
            StepView::Done(Ok(done)),
            after,
        ),
    ensures
        after.index matches Some(index) && exists|at: int|
            #[trigger] is_first_entry(index.accounts, done.account.id, at) && index.accounts[at]
                == done.account,
        told matches Some(info) ==> {
            &&& info.email is Some ==> done.account.email == info.email
            &&& info.plan_type is Some ==> done.account.plan_type == info.plan_type
        },
        purpose matches PurposeView::Add { label } ==> {
            &&& !done.current_auth_updated
            &&& label matches Some(text) ==> (!is_all_blank(text) ==> done.account.label == trimmed(
                text,
            ))
            &&& asks_for_no_label(label) && (start.index matches Some(before) ==> has_no_entry(
                before.accounts,
                done.account.id,
            )) ==> done.account.label == match done.account.email {
                Some(email) => email,
                None => "Codex 账号"@,
            }
        },
        (purpose matches PurposeView::Add { label } ==> asks_for_no_label(label)) ==> (
        start.index matches Some(before) ==> forall|at: int| #[trigger]
            is_first_entry(before.accounts, done.account.id, at) ==> done.account.label
                == before.accounts[at].label),
        start.index matches Some(before) ==> forall|i: int|
            0 <= i < before.accounts.len() && (#[trigger] before.accounts[i]).id
                != done.account.id ==> after.index->Some_0.accounts[i] == before.accounts[i],
        !done.current_auth_updated ==> active(after) == active(start),
        done.current_auth_updated ==> active(after) is Some && active(after) == opened(
            after,
            PlaceView::Vault(done.account.id),
        ),
{
    let kept = |
        step: StepView<LoginActionView, LoginView, ReauthorizationOutcomeView>,
        world: World,
    |
        told_kept(start, purpose, name, told, step, world);
    let rule = telling_login_world(name, told);
    assert forall|
        action: LoginActionView,
        machine: LoginView,
        here: World,
        event: LoginEventView,
        there: World,
    |
        kept(StepView::Ask(action, machine), here) && #[trigger] rule(
            here,
            action,
            event,
            there,
        ) implies kept(#[trigger] login_machine()(machine, event), there) by {
        lemma_told_kept(start, purpose, name, told, action, machine, here, event, there);
    }
    assert(differs_in_login_home(start, start, name));
    lemma_leads(
        rule,
        login_machine(),
        kept,
        login_beginning(purpose),
        start,
        history,
        StepView::Done(Ok(done)),
        after,
    );
    let before = index_of(start);
    let account = done.account;
    let label = wanted_label(purpose);
    let index = after.index->Some_0;
    law_new_entry_is_found(before, account);
    if has_no_entry(before.accounts, account.id) {
        law_new_account_is_labelled_by_its_address(
            before,
            account.id,
            told,
            label,
            account.imported_at,
        );
        law_entering_replaces_or_adds_one_entry(before, account, 0);
    } else {
        law_account_is_found_by_its_id(before.accounts, account.id, 0);
        let at = choose|at: int| is_first_entry(before.accounts, account.id, at);
        law_known_account_keeps_its_label(
            before,
            account.id,
            told,
            label,
            account.imported_at,
            at,
        );
        law_entering_replaces_or_adds_one_entry(before, account, at);
        assert forall|other: int| #[trigger]
            is_first_entry(before.accounts, account.id, other) implies other == at by {
            if other < at {
                assert(before.accounts[other].id != account.id);
            }
            if at < other {
                assert(before.accounts[at].id != account.id);
            }
        }
    }
}

} // verus!
