//! What renaming, deleting and authorizing anew promise of the saved accounts.

use vstd::prelude::*;

use crate::accounts::{
    account_of, entered, forgotten, lemma_place_of, listed, merged, place_of, relabelled,
    renamed_label, AccountIndexView, AccountInfoView, SavedAccountView, INDEX_VERSION,
};
use crate::cleanup_laws::in_home;
use crate::credentials::{is_account_id, usable_identity};
use crate::effects::{ActionView, EventView, HomeFile, HomeView, PlaceView, StepView};
use crate::index_laws::is_first_entry;
use crate::text::trimmed;
use crate::vault::{
    delete_next, deleting, import_next, importing, is_in_use, reauthorize_imported,
    reauthorize_next, reauthorizing, rename_next, renaming, replace_next, replacing, DeleteView,
    ImportView, ReauthorizeView, RenameView,
};
use crate::vault_laws::{
    import_kept, index_of, is_apart_from_login, is_saved, lemma_import_kept, lemma_replace_kept,
    replace_kept,
};
use crate::world::{
    active, active_place, answered, any_world, content, is_bare, is_lasting, is_look, is_tidy,
    is_under, leads, lemma_leads, lemma_submap_chain, performed, readable_world, same_processes,
    seeing_world, smooth_world, World,
};

verus! {

/// The machine that renames a saved account.
pub open spec fn rename_machine() -> spec_fn(
    RenameView,
    EventView,
) -> StepView<ActionView, RenameView, SavedAccountView> {
    |machine: RenameView, event: EventView| rename_next(machine, event)
}

/// What holds of every step of renaming.
pub open spec fn rename_kept(
    start: World,
    id: Seq<char>,
    label: Seq<char>,
    smooth: bool,
    step: StepView<ActionView, RenameView, SavedAccountView>,
    world: World,
) -> bool {
    let changed = relabelled(index_of(start), id, trimmed(label));
    &&& smooth ==> index_of(start).version == INDEX_VERSION && changed is Some
    &&& match step {
        StepView::Ask(action, RenameView::Index { id: i, label: l }) => world == start && i == id
            && l == trimmed(label) && action is ReadIndex,
        StepView::Ask(action, RenameView::Written(updated)) => {
            &&& world == start
            &&& changed is Some
            &&& changed->Some_0.1 == updated
            &&& action == ActionView::WriteIndex(changed->Some_0.0)
        },
        StepView::Done(Ok(updated)) => {
            &&& changed is Some
            &&& changed->Some_0.1 == updated
            &&& world == (World { index: Some(changed->Some_0.0), ..start })
        },
        StepView::Done(Err(_)) => world == start && !smooth,
    }
}

/// A renaming that succeeds changes the label of that account in the index and nothing else; one
/// that fails changes nothing. In a world in which nothing fails, one that may be made succeeds.
pub proof fn law_rename_changes_label_only(
    start: World,
    id: Seq<char>,
    label: Seq<char>,
    smooth: bool,
    history: Seq<(EventView, World)>,
    result: Result<SavedAccountView, Seq<char>>,
    after: World,
)
    requires
        leads(
            if smooth {
                smooth_world()
            } else {
                any_world()
            },
            rename_machine(),
            renaming(id, label),
            start,
            history,
            StepView::Done(result),
            after,
        ),
    ensures
        ({
            let changed = relabelled(index_of(start), id, trimmed(label));
            &&& match result {
                Ok(updated) => changed is Some && changed->Some_0.1 == updated && after == (World {
                    index: Some(changed->Some_0.0),
                    ..start
                }),
                Err(_) => after == start,
            }
            &&& smooth && is_account_id(id) && renamed_label(label) is Ok && index_of(start).version
                == INDEX_VERSION && changed is Some ==> result is Ok
        }),
{
    let may = smooth && is_account_id(id) && renamed_label(label) is Ok && index_of(start).version
        == INDEX_VERSION && relabelled(index_of(start), id, trimmed(label)) is Some;
    let rule = if smooth {
        smooth_world()
    } else {
        any_world()
    };
    let kept = |step: StepView<ActionView, RenameView, SavedAccountView>, world: World|
        rename_kept(start, id, label, may, step, world);
    assert forall|
        action: ActionView,
        machine: RenameView,
        here: World,
        event: EventView,
        there: World,
    |
        kept(StepView::Ask(action, machine), here) && #[trigger] rule(
            here,
            action,
            event,
            there,
        ) implies kept(#[trigger] rename_machine()(machine, event), there) by {}
    lemma_leads(
        rule,
        rename_machine(),
        kept,
        renaming(id, label),
        start,
        history,
        StepView::Done(result),
        after,
    );
}

/// The account that a renaming tells is the one that the index has for the id afterwards: its label
/// is the new one without the white space around it, and everything else of it is as before. Every
/// other entry is where it was and as it was.
pub proof fn law_renamed_account_is_in_the_index(
    start: World,
    id: Seq<char>,
    label: Seq<char>,
    history: Seq<(EventView, World)>,
    told: SavedAccountView,
    after: World,
)
    requires
        leads(
            any_world(),
            rename_machine(),
            renaming(id, label),
            start,
            history,
            StepView::Done(Ok(told)),
            after,
        ),
    ensures
        after.files == start.files,
        start.index matches Some(before) && (after.index matches Some(now) && exists|at: int|
            #[trigger] is_first_entry(before.accounts, id, at) && {
                &&& now.version == before.version
                &&& now.accounts == before.accounts.update(at, told)
                &&& told == (SavedAccountView { label: trimmed(label), ..before.accounts[at] })
            }),
{
    law_rename_changes_label_only(start, id, label, false, history, Ok(told), after);
    let before = index_of(start);
    lemma_place_of(before.accounts, id);
    let at = place_of(before.accounts, id)->Some_0;
    assert(is_first_entry(before.accounts, id, at));
}

/// The machine that deletes a saved account.
pub open spec fn delete_machine() -> spec_fn(
    DeleteView,
    EventView,
) -> StepView<ActionView, DeleteView, ()> {
    |machine: DeleteView, event: EventView| delete_next(machine, event)
}

/// Whether a place is one that belongs to a saved account.
pub open spec fn is_of_account(place: PlaceView, id: Seq<char>) -> bool {
    match place {
        PlaceView::Vault(i) => i == id,
        PlaceView::Staged(i) => i == id,
        PlaceView::InHome(HomeView::Runtime(i), _) => i == id,
        _ => false,
    }
}

/// Whether no file differs but those that belong to a saved account.
pub open spec fn differs_in_account(start: World, world: World, id: Seq<char>) -> bool {
    &&& same_processes(start, world)
    &&& world.encoded == start.encoded
    &&& world.sealed == start.sealed
    &&& forall|place: PlaceView|
        #![trigger content(world, place)]
        #![trigger content(start, place)]
        !is_of_account(place, id) ==> content(world, place) == content(start, place)
    &&& is_tidy(start) ==> is_tidy(world)
}

/// Whether what the vault had for an account is still there, under its name or put aside.
pub open spec fn is_not_lost(start: World, world: World, id: Seq<char>) -> bool {
    content(start, PlaceView::Vault(id)) matches Some(sealed) ==> content(
        world,
        PlaceView::Vault(id),
    ) == Some(sealed) || content(world, PlaceView::Staged(id)) == Some(sealed)
}

/// Whether what the vault had for an account, if anything, is put aside.
pub open spec fn is_put_aside(start: World, world: World, id: Seq<char>) -> bool {
    &&& content(world, PlaceView::Vault(id)) is None
    &&& content(world, PlaceView::Staged(id)) == content(start, PlaceView::Vault(id))
}

/// What holds of a deletion up to the moment at which the encrypted file is put aside.
spec fn delete_early(
    start: World,
    world: World,
    id: Seq<char>,
    i: Seq<char>,
    index: AccountIndexView,
) -> bool {
    &&& i == id
    &&& Some(index) == forgotten(index_of(start), id)
    &&& index_of(start).version == INDEX_VERSION
    &&& world.index == start.index
    &&& content(world, PlaceView::Vault(id)) == content(start, PlaceView::Vault(id))
}

/// What holds of every step of a deletion; with `smooth`, of one in which nothing fails.
spec fn delete_kept(
    start: World,
    id: Seq<char>,
    smooth: bool,
    step: StepView<ActionView, DeleteView, ()>,
    world: World,
) -> bool {
    let vault = PlaceView::Vault(id);
    let staged = PlaceView::Staged(id);
    let plain = PlaceView::InHome(HomeView::Runtime(id), HomeFile::Auth);
    let home = PlaceView::HomeDir(HomeView::Runtime(id));
    let changed = forgotten(index_of(start), id);
    &&& differs_in_account(start, world, id)
    &&& smooth ==> index_of(start).version == INDEX_VERSION && changed is Some
    &&& match step {
        StepView::Ask(action, DeleteView::Index { id: i }) => world == start && i == id && action
            is ReadIndex,
        StepView::Ask(action, DeleteView::Runtime { id: i, index }) => delete_early(
            start,
            world,
            id,
            i,
            index,
        ) && action == ActionView::Exists(home),
        StepView::Ask(action, DeleteView::Plain { id: i, index }) => delete_early(
            start,
            world,
            id,
            i,
            index,
        ) && action == ActionView::Exists(plain),
        StepView::Ask(action, DeleteView::PlainRemoved { id: i, index }) => delete_early(
            start,
            world,
            id,
            i,
            index,
        ) && action == ActionView::Remove(plain) && content(world, plain) is Some,
        StepView::Ask(action, DeleteView::TreeRemoved { id: i, index }) => delete_early(
            start,
            world,
            id,
            i,
            index,
        ) && action == ActionView::RemoveTree(home),
        StepView::Ask(action, DeleteView::Leftover { id: i, index }) => delete_early(
            start,
            world,
            id,
            i,
            index,
        ) && is_bare(world, home) && action == ActionView::Exists(staged),
        StepView::Ask(action, DeleteView::LeftoverRemoved { id: i, index }) => delete_early(
            start,
            world,
            id,
            i,
            index,
        ) && is_bare(world, home) && action == ActionView::Remove(staged) && content(
            world,
            staged,
        ) is Some,
        StepView::Ask(action, DeleteView::Vault { id: i, index }) => delete_early(
            start,
            world,
            id,
            i,
            index,
        ) && is_bare(world, home) && action == ActionView::Exists(vault) && content(
            world,
            staged,
        ) is None,
        StepView::Ask(action, DeleteView::Staged { id: i, index }) => delete_early(
            start,
            world,
            id,
            i,
            index,
        ) && is_bare(world, home) && action == ActionView::Rename(vault, staged),
        StepView::Ask(action, DeleteView::Written { id: i }) => {
            &&& i == id
            &&& changed is Some
            &&& world.index == start.index
            &&& action == ActionView::WriteIndex(changed->Some_0)
            &&& is_put_aside(start, world, id)
            &&& is_bare(world, home)
        },
        StepView::Ask(action, DeleteView::Finishing { id: i }) => {
            &&& i == id
            &&& changed is Some
            &&& world.index == changed
            &&& action == ActionView::Exists(staged)
            &&& is_put_aside(start, world, id)
            &&& is_bare(world, home)
        },
        StepView::Ask(action, DeleteView::Finished) => {
            &&& changed is Some
            &&& world.index == changed
            &&& action == ActionView::Remove(staged)
            &&& is_put_aside(start, world, id)
            &&& is_bare(world, home)
            &&& content(world, staged) is Some
        },
        StepView::Ask(action, DeleteView::Undoing { id: i, error: _ }) => {
            &&& !smooth
            &&& i == id
            &&& world.index == start.index
            &&& action == ActionView::Exists(staged)
            &&& is_put_aside(start, world, id)
            &&& is_bare(world, home)
        },
        StepView::Ask(action, DeleteView::Undone { error: _ }) => {
            &&& !smooth
            &&& world.index == start.index
            &&& action == ActionView::Rename(staged, vault)
            &&& is_put_aside(start, world, id)
            &&& is_bare(world, home)
        },
        StepView::Done(Ok(_)) => {
            &&& changed is Some
            &&& world.index == changed
            &&& content(world, vault) is None
            &&& is_bare(world, home)
            &&& smooth ==> content(world, staged) is None
        },
        StepView::Done(Err(_)) => {
            &&& !smooth
            &&& world.index == start.index
            &&& is_not_lost(start, world, id)
        },
    }
}

/// Every answer keeps what holds of a deletion.
proof fn lemma_delete_kept(
    start: World,
    id: Seq<char>,
    smooth: bool,
    action: ActionView,
    machine: DeleteView,
    world: World,
    event: EventView,
    after: World,
)
    requires
        delete_kept(start, id, smooth, StepView::Ask(action, machine), world),
        performed(world, action, event, after),
        is_look(action) || smooth ==> answered(action, event),
    ensures
        delete_kept(start, id, smooth, delete_next(machine, event), after),
{
    match machine {
        DeleteView::TreeRemoved { .. } => {
            let home = PlaceView::HomeDir(HomeView::Runtime(id));
            assert forall|place: PlaceView| !is_of_account(place, id) implies content(after, place)
                == content(start, place) by {
                assert(!is_under(place, home));
                assert(content(world, place) == content(start, place));
            }
            if is_tidy(start) {
                assert forall|place: PlaceView| #[trigger]
                    after.files.contains_key(place) && is_lasting(
                        place,
                    ) implies after.sealed.contains_key(after.files[place]) by {
                    assert(world.files.contains_key(place));
                }
                assert(is_tidy(after));
            }
            assert(!is_under(PlaceView::Vault(id), home));
            assert(content(after, PlaceView::Vault(id)) == content(world, PlaceView::Vault(id)));
        },
        _ => {},
    }
}

/// Wherever a deletion is interrupted, the index is what it was or is without the account, and as
/// long as it is what it was the sealed credentials are not lost. It succeeds exactly when the
/// index without the account is written; then the vault no longer has its credentials, and nothing
/// is left in its runtime home. Nothing that belongs to another account is touched.
pub proof fn law_deletion_loses_nothing_listed(
    start: World,
    id: Seq<char>,
    current: Option<Seq<char>>,
    history: Seq<(EventView, World)>,
    end: StepView<ActionView, DeleteView, ()>,
    after: World,
)
    requires
        leads(seeing_world(), delete_machine(), deleting(id, current), start, history, end, after),
    ensures
        differs_in_account(start, after, id),
        after.index == start.index && is_not_lost(start, after, id) || after.index == forgotten(
            index_of(start),
            id,
        ) && after.index is Some,
        end matches StepView::Done(result) ==> match result {
            Ok(_) => {
                &&& after.index is Some
                &&& after.index == forgotten(index_of(start), id)
                &&& content(after, PlaceView::Vault(id)) is None
                &&& forall|file: HomeFile|
                    content(after, #[trigger] in_home(HomeView::Runtime(id), file)) is None
            },
            Err(_) => after.index == start.index && is_not_lost(start, after, id),
        },
{
    let kept = |step: StepView<ActionView, DeleteView, ()>, world: World|
        delete_kept(start, id, false, step, world);
    assert forall|
        action: ActionView,
        machine: DeleteView,
        here: World,
        event: EventView,
        there: World,
    |
        kept(StepView::Ask(action, machine), here) && #[trigger] seeing_world()(
            here,
            action,
            event,
            there,
        ) implies kept(#[trigger] delete_machine()(machine, event), there) by {
        lemma_delete_kept(start, id, false, action, machine, here, event, there);
    }
    lemma_leads(
        seeing_world(),
        delete_machine(),
        kept,
        deleting(id, current),
        start,
        history,
        end,
        after,
    );
}

/// In a world in which nothing fails, an account that is listed and not in use is deleted: the
/// index is without it, and neither its sealed credentials nor what was put aside nor anything in
/// its runtime home is left.
pub proof fn law_deletion_succeeds(
    start: World,
    id: Seq<char>,
    current: Option<Seq<char>>,
    history: Seq<(EventView, World)>,
    result: Result<(), Seq<char>>,
    after: World,
)
    requires
        is_account_id(id),
        current != Some(id),
        index_of(start).version == INDEX_VERSION,
        listed(index_of(start).accounts, id),
        leads(
            smooth_world(),
            delete_machine(),
            deleting(id, current),
            start,
            history,
            StepView::Done(result),
            after,
        ),
    ensures
        result is Ok,
        after.index is Some && after.index == forgotten(index_of(start), id),
        content(after, PlaceView::Vault(id)) is None,
        content(after, PlaceView::Staged(id)) is None,
        forall|file: HomeFile|
            content(after, #[trigger] in_home(HomeView::Runtime(id), file)) is None,
{
    let kept = |step: StepView<ActionView, DeleteView, ()>, world: World|
        delete_kept(start, id, true, step, world);
    assert forall|
        action: ActionView,
        machine: DeleteView,
        here: World,
        event: EventView,
        there: World,
    |
        kept(StepView::Ask(action, machine), here) && #[trigger] smooth_world()(
            here,
            action,
            event,
            there,
        ) implies kept(#[trigger] delete_machine()(machine, event), there) by {
        lemma_delete_kept(start, id, true, action, machine, here, event, there);
    }
    lemma_leads(
        smooth_world(),
        delete_machine(),
        kept,
        deleting(id, current),
        start,
        history,
        StepView::Done(result),
        after,
    );
}

/// The account in use is never deleted: the request is refused before anything is asked for.
pub proof fn law_account_in_use_is_not_deleted(id: Seq<char>)
    ensures
        deleting(id, Some(id)) matches StepView::Done(Err(_)),
{
}

/// The machine that completes a new authorization.
pub open spec fn reauthorize_machine() -> spec_fn(
    ReauthorizeView,
    EventView,
) -> StepView<ActionView, ReauthorizeView, (SavedAccountView, bool)> {
    |machine: ReauthorizeView, event: EventView| reauthorize_next(machine, event)
}

/// Whether the credentials in use are usable and those of an account.
pub open spec fn is_login_of(world: World, id: Seq<char>) -> bool {
    fits_account(active(world), id)
}

/// Whether no file differs but those in use, the draft of them, the backups, the record of an
/// update and those saved for an account.
pub open spec fn differs_in_authorization(start: World, world: World, id: Seq<char>) -> bool {
    &&& same_processes(start, world)
    &&& start.encoded.submap_of(world.encoded)
    &&& start.sealed.submap_of(world.sealed)
    &&& forall|place: PlaceView|
        #![trigger content(world, place)]
        #![trigger content(start, place)]
        is_apart_from_login(place) && place != PlaceView::Vault(id) ==> content(world, place)
            == content(start, place)
    &&& is_tidy(start) ==> is_tidy(world)
}

/// What holds while new credentials are imported, after those in use were or were not replaced.
pub open spec fn reauthorize_importing(
    start: World,
    codex_home: Seq<char>,
    home: HomeView,
    id: Seq<char>,
    account: Option<AccountInfoView>,
    is_current: bool,
    step: StepView<ActionView, ImportView, SavedAccountView>,
    middle: World,
    world: World,
) -> bool {
    let place = PlaceView::InHome(home, HomeFile::Auth);
    &&& import_kept(middle, home, account, None, step, world)
    &&& if is_current {
        &&& is_login_of(start, id)
        &&& replace_kept(
            start,
            codex_home,
            false,
            false,
            content(start, place)->Some_0,
            id,
            StepView::Done(Ok(())),
            middle,
        )
    } else {
        middle == start
    }
}

/// What holds while new credentials are imported.
pub open spec fn reauthorize_under_way(
    start: World,
    codex_home: Seq<char>,
    home: HomeView,
    id: Seq<char>,
    account: Option<AccountInfoView>,
    is_current: bool,
    step: StepView<ActionView, ImportView, SavedAccountView>,
    world: World,
) -> bool {
    exists|middle: World| #[trigger]
        reauthorize_importing(start, codex_home, home, id, account, is_current, step, middle, world)
}

/// What holds throughout a new authorization.
pub open spec fn reauthorize_frame(
    start: World,
    home: HomeView,
    id: Seq<char>,
    readable: bool,
    world: World,
) -> bool {
    let login = content(start, PlaceView::InHome(home, HomeFile::Auth));
    let entry = PlaceView::Vault(id);
    &&& differs_in_authorization(start, world, id)
    &&& active(world) == active(start) || (fits_account(login, id) && active(world) == login
        && is_login_of(start, id))
    &&& content(world, entry) == content(start, entry) || (fits_account(login, id) && (active(world)
        == login || !readable || !is_login_of(start, id)))
}

/// Whether there are credentials and they are usable and those of an account.
pub open spec fn fits_account(auth: Option<Seq<u8>>, id: Seq<char>) -> bool {
    match auth {
        Some(auth) => usable_identity(auth) == Ok::<Seq<char>, Seq<char>>(id),
        None => false,
    }
}

/// What holds of every step of a new authorization.
pub open spec fn reauthorize_kept(
    start: World,
    codex_home: Seq<char>,
    home: HomeView,
    id: Seq<char>,
    account: Option<AccountInfoView>,
    readable: bool,
    step: StepView<ActionView, ReauthorizeView, (SavedAccountView, bool)>,
    world: World,
) -> bool {
    let place = PlaceView::InHome(home, HomeFile::Auth);
    let login = content(start, place);
    let fits = fits_account(login, id);
    &&& reauthorize_frame(start, home, id, readable, world)
    &&& match step {
        StepView::Ask(
            action,
            ReauthorizeView::Read { codex_home: c, home: h, id: i, account: a },
        ) => {
            &&& world == start
            &&& c == codex_home
            &&& h == home
            &&& i == id
            &&& a == account
            &&& action == ActionView::Read(place)
        },
        StepView::Ask(
            action,
            ReauthorizeView::Compared { codex_home: c, home: h, id: i, account: a, auth },
        ) => {
            &&& world == start
            &&& c == codex_home
            &&& h == home
            &&& i == id
            &&& a == account
            &&& fits
            &&& login == Some(auth)
            &&& action == ActionView::Read(active_place())
        },
        StepView::Ask(action, ReauthorizeView::Replace { home: h, account: a, replace }) => {
            &&& h == home
            &&& a == account
            &&& fits
            &&& is_login_of(start, id)
            &&& replace_kept(
                start,
                codex_home,
                false,
                false,
                login->Some_0,
                id,
                StepView::Ask(action, replace),
                world,
            )
        },
        StepView::Ask(action, ReauthorizeView::Import { is_current, import }) => {
            &&& fits
            &&& is_current || !readable || !is_login_of(start, id)
            &&& world.index == start.index
            &&& reauthorize_under_way(
                start,
                codex_home,
                home,
                id,
                account,
                is_current,
                StepView::Ask(action, import),
                world,
            )
        },
        StepView::Done(Ok((saved, is_current))) => {
            &&& fits
            &&& is_current || !readable || !is_login_of(start, id)
            &&& saved.id == id
            &&& is_saved(world, id, login->Some_0)
            &&& world.index == Some(entered(index_of(start), saved))
            &&& merged(index_of(start), id, account, None, saved.imported_at) == Ok::<
                SavedAccountView,
                Seq<char>,
            >(saved)
            &&& is_current ==> active(world) == login
            &&& !is_current ==> active(world) == active(start)
        },
        StepView::Done(Err(_)) => world.index == start.index,
    }
}

/// Goes on from an import that is part of a new authorization.
proof fn lemma_reauthorize_import(
    start: World,
    codex_home: Seq<char>,
    home: HomeView,
    id: Seq<char>,
    account: Option<AccountInfoView>,
    readable: bool,
    is_current: bool,
    step: StepView<ActionView, ImportView, SavedAccountView>,
    middle: World,
    world: World,
)
    requires
        home != HomeView::Active,
        content(start, PlaceView::InHome(home, HomeFile::Auth)) is Some,
        usable_identity(content(start, PlaceView::InHome(home, HomeFile::Auth))->Some_0) == Ok::<
            Seq<char>,
            Seq<char>,
        >(id),
        is_current || !readable || !is_login_of(start, id),
        reauthorize_importing(
            start,
            codex_home,
            home,
            id,
            account,
            is_current,
            step,
            middle,
            world,
        ),
    ensures
        reauthorize_kept(
            start,
            codex_home,
            home,
            id,
            account,
            readable,
            reauthorize_imported(step, is_current),
            world,
        ),
{
    let place = PlaceView::InHome(home, HomeFile::Auth);
    lemma_submap_chain(start.sealed, middle.sealed, world.sealed);
    assert(content(middle, place) == content(start, place));
    assert(content(world, active_place()) == content(middle, active_place()));
    assert(content(middle, PlaceView::Vault(id)) == content(start, PlaceView::Vault(id)));
    assert forall|p: PlaceView|
        is_apart_from_login(p) && p != PlaceView::Vault(id) implies content(world, p) == content(
        start,
        p,
    ) by {
        assert(content(world, p) == content(middle, p));
        assert(content(middle, p) == content(start, p));
    }
    assert(differs_in_authorization(start, world, id));
    assert(reauthorize_frame(start, home, id, readable, world));
    assert(reauthorize_under_way(start, codex_home, home, id, account, is_current, step, world));
}

/// Every answer keeps what holds of a new authorization.
pub proof fn lemma_reauthorize_kept(
    start: World,
    codex_home: Seq<char>,
    home: HomeView,
    id: Seq<char>,
    account: Option<AccountInfoView>,
    readable: bool,
    action: ActionView,
    machine: ReauthorizeView,
    world: World,
    event: EventView,
    after: World,
)
    requires
        home != HomeView::Active,
        reauthorize_kept(
            start,
            codex_home,
            home,
            id,
            account,
            readable,
            StepView::Ask(action, machine),
            world,
        ),
        performed(world, action, event, after),
        readable ==> (action is Read ==> answered(action, event)),
    ensures
        reauthorize_kept(
            start,
            codex_home,
            home,
            id,
            account,
            readable,
            reauthorize_next(machine, event),
            after,
        ),
{
    let place = PlaceView::InHome(home, HomeFile::Auth);
    let login = content(start, place)->Some_0;
    match machine {
        ReauthorizeView::Read { .. } => {},
        ReauthorizeView::Compared { codex_home: c, home: h, id: i, account: a, auth } => {
            if is_in_use(event, id) {
                assert(
                    replace_kept(
                        start,
                        codex_home,
                        false,
                        false,
                        login,
                        id,
                        replacing(codex_home, login, id, true),
                        start,
                    )
                );
            } else {
                let step = importing(home, account, None);
                assert(
                    reauthorize_importing(
                        start,
                        codex_home,
                        home,
                        id,
                        account,
                        false,
                        step,
                        start,
                        after,
                    )
                );
                lemma_reauthorize_import(
                    start,
                    codex_home,
                    home,
                    id,
                    account,
                    readable,
                    false,
                    step,
                    start,
                    after,
                );
            }
        },
        ReauthorizeView::Replace { home: h, account: a, replace } => {
            lemma_replace_kept(
                start,
                codex_home,
                false,
                false,
                login,
                id,
                action,
                replace,
                world,
                event,
                after,
            );
            assert(content(after, PlaceView::Vault(id)) == content(start, PlaceView::Vault(id)));
            if replace_next(replace, event) matches StepView::Done(Ok(_)) {
                let step = importing(home, account, None);
                assert(
                    reauthorize_importing(
                        start,
                        codex_home,
                        home,
                        id,
                        account,
                        true,
                        step,
                        after,
                        after,
                    )
                );
                lemma_reauthorize_import(
                    start,
                    codex_home,
                    home,
                    id,
                    account,
                    readable,
                    true,
                    step,
                    after,
                    after,
                );
            } else {
                assert(active(after) == active(start) || active(after) == Some(login));
            }
        },
        ReauthorizeView::Import { is_current, import } => {
            let middle = choose|middle: World|
                reauthorize_importing(
                    start,
                    codex_home,
                    home,
                    id,
                    account,
                    is_current,
                    StepView::Ask(action, import),
                    middle,
                    world,
                );
            lemma_import_kept(middle, home, account, None, action, import, world, event, after);
            let step = import_next(import, event);
            assert(
                reauthorize_importing(
                    start,
                    codex_home,
                    home,
                    id,
                    account,
                    is_current,
                    step,
                    middle,
                    after,
                )
            );
            lemma_reauthorize_import(
                start,
                codex_home,
                home,
                id,
                account,
                readable,
                is_current,
                step,
                middle,
                after,
            );
        },
    }
}

/// Authorizing an account anew, whatever happens and wherever it is interrupted: a login of
/// another account is never replaced and never saved over that of this one; the saved credentials
/// change only after those in use have, if those in use are the account's. If it succeeds the
/// vault has the new credentials, and it says whether those in use were replaced by them.
pub proof fn law_reauthorization_is_scoped(
    start: World,
    codex_home: Seq<char>,
    home: HomeView,
    id: Seq<char>,
    account: Option<AccountInfoView>,
    history: Seq<(EventView, World)>,
    end: StepView<ActionView, ReauthorizeView, (SavedAccountView, bool)>,
    after: World,
)
    requires
        home != HomeView::Active,
        leads(
            readable_world(),
            reauthorize_machine(),
            reauthorizing(codex_home, home, id, account),
            start,
            history,
            end,
            after,
        ),
    ensures
        ({
            let login = content(start, PlaceView::InHome(home, HomeFile::Auth));
            let fits = login is Some && usable_identity(login->Some_0) == Ok::<
                Seq<char>,
                Seq<char>,
            >(id);
            let entry = PlaceView::Vault(id);
            &&& differs_in_authorization(start, after, id)
            &&& active(after) == active(start) || (fits && active(after) == login && is_login_of(
                start,
                id,
            ))
            &&& content(after, entry) == content(start, entry) || (fits && (active(after) == login
                || !is_login_of(start, id)))
            &&& end matches StepView::Done(Ok((saved, updated))) ==> {
                &&& saved.id == id
                &&& fits
                &&& is_saved(after, id, login->Some_0)
                &&& after.index == Some(entered(index_of(start), saved))
                &&& merged(index_of(start), id, account, None, saved.imported_at) == Ok::<
                    SavedAccountView,
                    Seq<char>,
                >(saved)
                &&& updated ==> active(after) == login
                &&& !updated ==> active(after) == active(start) && !is_login_of(start, id)
            }
            &&& end matches StepView::Done(Err(_)) ==> after.index == start.index
        }),
{
    let kept = |step: StepView<ActionView, ReauthorizeView, (SavedAccountView, bool)>, world: World|
        reauthorize_kept(start, codex_home, home, id, account, true, step, world);
    assert forall|
        action: ActionView,
        machine: ReauthorizeView,
        here: World,
        event: EventView,
        there: World,
    |
        kept(StepView::Ask(action, machine), here) && #[trigger] readable_world()(
            here,
            action,
            event,
            there,
        ) implies kept(#[trigger] reauthorize_machine()(machine, event), there) by {
        lemma_reauthorize_kept(
            start,
            codex_home,
            home,
            id,
            account,
            true,
            action,
            machine,
            here,
            event,
            there,
        );
    }
    lemma_leads(
        readable_world(),
        reauthorize_machine(),
        kept,
        reauthorizing(codex_home, home, id, account),
        start,
        history,
        end,
        after,
    );
}

/// Whether no two accounts of an index have the same id.
pub open spec fn has_distinct_ids(index: AccountIndexView) -> bool {
    forall|i: int, j: int|
        0 <= i < j < index.accounts.len() ==> (#[trigger] index.accounts[i]).id != (
        #[trigger] index.accounts[j]).id
}

/// An index without repeated ids stays one, whatever is done to it: an account that is entered
/// takes the place of the one with its id, a renamed account keeps its id, and one that is
/// deleted is no longer listed.
pub proof fn law_index_has_distinct_ids(
    index: AccountIndexView,
    saved: SavedAccountView,
    id: Seq<char>,
    label: Seq<char>,
)
    requires
        has_distinct_ids(index),
    ensures
        has_distinct_ids(entered(index, saved)),
        relabelled(index, id, label) matches Some(changed) ==> has_distinct_ids(changed.0),
        forgotten(index, id) matches Some(rest) ==> has_distinct_ids(rest) && !listed(
            rest.accounts,
            id,
        ),
{
    lemma_place_of(index.accounts, saved.id);
    lemma_place_of(index.accounts, id);
    if let Some(rest) = forgotten(index, id) {
        let at = place_of(index.accounts, id)->Some_0;
        lemma_place_of(rest.accounts, id);
        assert forall|i: int| 0 <= i < rest.accounts.len() implies (
        #[trigger] rest.accounts[i]).id != id by {
            assert(rest.accounts[i] == index.accounts[if i < at {
                i
            } else {
                i + 1
            }]);
        }
    }
}

/// A label is kept to its own account: renaming changes no other entry, and entering changes none
/// but that of the account that is entered.
pub proof fn law_other_accounts_keep_their_entry(
    index: AccountIndexView,
    saved: SavedAccountView,
    id: Seq<char>,
    label: Seq<char>,
    other: Seq<char>,
)
    requires
        has_distinct_ids(index),
        other != id,
        other != saved.id,
    ensures
        account_of(entered(index, saved).accounts, other) == account_of(index.accounts, other),
        relabelled(index, id, label) matches Some(changed) ==> account_of(changed.0.accounts, other)
            == account_of(index.accounts, other),
        forgotten(index, id) matches Some(rest) ==> account_of(rest.accounts, other) == account_of(
            index.accounts,
            other,
        ),
{
    law_index_has_distinct_ids(index, saved, id, label);
    lemma_place_of(index.accounts, saved.id);
    lemma_place_of(index.accounts, id);
    lemma_place_of(index.accounts, other);
    lemma_place_of(entered(index, saved).accounts, other);
    if let Some(at) = place_of(index.accounts, other) {
        assert(entered(index, saved).accounts[at].id == other);
    }
    if let Some(changed) = relabelled(index, id, label) {
        lemma_place_of(changed.0.accounts, other);
        if let Some(at) = place_of(index.accounts, other) {
            assert(changed.0.accounts[at].id == other);
        }
    }
    if let Some(rest) = forgotten(index, id) {
        let gone = place_of(index.accounts, id)->Some_0;
        lemma_place_of(rest.accounts, other);
        if let Some(at) = place_of(index.accounts, other) {
            assert(rest.accounts[if at < gone {
                at
            } else {
                at - 1
            }].id == other);
        }
        if let Some(at) = place_of(rest.accounts, other) {
            assert(rest.accounts[at] == index.accounts[if at < gone {
                at
            } else {
                at + 1
            }]);
        }
    }
}

} // verus!
