//! What the vault promises, whatever its procedures meet with.

use vstd::prelude::*;

use crate::accounts::{
    empty_index, entered, lemma_place_of, listed, merged, place_of, AccountIndexView,
    AccountInfoView, SavedAccountView, INDEX_VERSION,
};
use crate::backups::{
    backup_name, follows, is_sealed_name, law_last_backup_stays, outdated, MAX_SWITCH_BACKUPS,
};
use crate::cleanup_laws::removal_kept;
use crate::credentials::{account_id_verdict, is_account_id, usable_identity};
use crate::effects::{
    names_of, present, ActionView, EventView, HomeFile, HomeView, PlaceView, StepView,
};
use crate::index_laws::{
    is_first_entry, law_entering_replaces_or_adds_one_entry, law_known_account_keeps_its_label,
};
use crate::recovery::{BeginView, PendingView, TransactionView};
use crate::recovery_laws::update_of;
use crate::vault::{
    activate_next, activating, belongs_to, import_next, importing, load_saved_next, loading_saved,
    prune_next, pruning, replace_next, replacing, save_current_next, saving_current, ActivateView,
    ExchangeView, ImportView, LoadSavedView, PruneView, ReplaceView, SaveCurrentView,
};
use crate::world::{
    active, active_place, answered, any_world, content, is_look, is_tidy, leads, lemma_leads,
    lemma_submap_chain, opened, performed, plain_draft, recorded, same_processes, smooth_world,
    switch_draft, World,
};

verus! {

/// Whether a time is past those of all backups, by the names that backups get.
pub open spec fn clock_is_ahead(world: World, event: EventView) -> bool {
    event matches EventView::Time { seconds, nanos } ==> forall|owner: Seq<char>, name: Seq<char>|
        #![trigger backup_name(seconds, nanos, owner), world.files.contains_key(
            PlaceView::Backup(name),
        )]
        world.files.contains_key(PlaceView::Backup(name)) ==> follows(
            backup_name(seconds, nanos, owner),
            name,
        )
}

/// How actions change a world whose clock is past the times of all backups.
pub open spec fn timely_world(start: World) -> spec_fn(
    World,
    ActionView,
    EventView,
    World,
) -> bool {
    |before: World, action: ActionView, event: EventView, after: World|
        performed(before, action, event, after) && clock_is_ahead(start, event)
}

/// The machine that replaces the credentials in use.
pub open spec fn replace_machine() -> spec_fn(ReplaceView, EventView) -> StepView<
    ActionView,
    ReplaceView,
    (),
> {
    |machine: ReplaceView, event: EventView| replace_next(machine, event)
}

/// Whether a file is none of those that an update of the credentials in use may change.
pub open spec fn is_apart_from_login(place: PlaceView) -> bool {
    &&& place != active_place()
    &&& place != switch_draft()
    &&& place != PlaceView::Journal
    &&& !(place is Backup)
}

/// Whether two worlds differ in the credentials in use, in the draft of them, in the backups and in
/// the record of an update at most; what was sealed stays so, and what was written.
pub open spec fn differs_in_login(start: World, world: World) -> bool {
    &&& same_processes(start, world)
    &&& world.index == start.index
    &&& start.encoded.submap_of(world.encoded)
    &&& start.sealed.submap_of(world.sealed)
    &&& forall|place: PlaceView|
        #![trigger content(world, place)]
        #![trigger content(start, place)]
        is_apart_from_login(place) ==> content(world, place) == content(start, place)
    &&& is_tidy(start) ==> is_tidy(world)
}

/// Whether a backup holds some credentials, under a name that comes after those of earlier ones.
pub open spec fn is_backup(start: World, world: World, name: Seq<char>, auth: Seq<u8>) -> bool {
    &&& opened(world, PlaceView::Backup(name)) == Some(auth)
    &&& comes_last(start, name)
}

/// Whether a name comes after those of all backups.
pub open spec fn comes_last(start: World, name: Seq<char>) -> bool {
    forall|other: Seq<char>| #[trigger]
        start.files.contains_key(PlaceView::Backup(other)) ==> follows(name, other)
}

/// Whether the credentials that were in use, if there were any, are among the backups.
pub open spec fn is_backed_up(start: World, world: World) -> bool {
    active(start) matches Some(auth) ==> exists|name: Seq<char>| #[trigger]
        is_backup(start, world, name, auth)
}

/// Whether an error says that what was there before could not be put back.
pub open spec fn tells_of_damage(error: Seq<char>) -> bool {
    exists|first: Seq<char>, second: Seq<char>|
        error == first + "；恢复原认证失败："@ + second
}

/// The backups are those of the start and one more.
pub open spec fn one_more_backup(start: World, world: World, name: Seq<char>) -> bool {
    forall|other: Seq<char>| #[trigger]
        world.files.contains_key(PlaceView::Backup(other)) ==> other == name
            || start.files.contains_key(PlaceView::Backup(other))
}

/// What a removal of old backups keeps: the backup with this name.
pub open spec fn prune_kept(
    start: World,
    world: World,
    name: Seq<char>,
    auth: Seq<u8>,
    action: ActionView,
    prune: PruneView,
) -> bool {
    &&& is_backup(start, world, name, auth)
    &&& match prune {
        PruneView::Present { keep } => keep == MAX_SWITCH_BACKUPS && action == ActionView::Exists(
            PlaceView::BackupDir,
        ) && one_more_backup(start, world, name),
        PruneView::Listed { keep } => keep == MAX_SWITCH_BACKUPS && action == ActionView::List(
            PlaceView::BackupDir,
        ) && one_more_backup(start, world, name),
        PruneView::Removed { rest } => !rest.contains(name) && action != ActionView::Remove(
            PlaceView::Backup(name),
        ),
    }
}

/// What an action of a removal of old backups may be.
pub open spec fn is_prune_action(action: ActionView) -> bool {
    match action {
        ActionView::Exists(_) | ActionView::List(_) => true,
        ActionView::Remove(place) => place is Backup,
        _ => false,
    }
}

/// What holds of every exchange under way.
pub open spec fn exchange_kept(
    start: World,
    codex_home: Seq<char>,
    target: Seq<u8>,
    id: Seq<char>,
    exchange: ExchangeView,
) -> bool {
    &&& exchange.codex_home == codex_home
    &&& exchange.target == target
    &&& exchange.id == id
    &&& exchange.before == active(start)
}

/// Whether nothing was recorded at the start, if looking for it never fails.
pub open spec fn was_free(start: World, seeing: bool) -> bool {
    seeing ==> content(start, PlaceView::Journal) is None
}

/// What holds while an update is being recorded.
pub open spec fn recording_kept(
    start: World,
    seeing: bool,
    update: TransactionView,
    action: ActionView,
    begin: BeginView,
    world: World,
) -> bool {
    match begin {
        BeginView::DataPath(t) => t == update && action is CheckPath,
        BeginView::AuthPath(t) => t == update && action is CheckPath,
        BeginView::Pending(t, PendingView::Path) => t == update && action is CheckPath,
        BeginView::Pending(t, PendingView::Present) => t == update && action == ActionView::Exists(
            PlaceView::Journal,
        ),
        BeginView::Encoded => was_free(start, seeing) && action == ActionView::Encode(update),
        BeginView::Sealed => was_free(start, seeing) && match action {
            ActionView::Seal(bytes) => world.encoded.contains_key(bytes) && world.encoded[bytes]
                == update,
            _ => false,
        },
        BeginView::Written => was_free(start, seeing) && match action {
            ActionView::Write(place, sealed) => {
                &&& place == PlaceView::Journal
                &&& world.sealed.contains_key(sealed)
                &&& world.encoded.contains_key(world.sealed[sealed])
                &&& world.encoded[world.sealed[sealed]] == update
            },
            _ => false,
        },
    }
}

/// What holds of every step of a replacement.
pub open spec fn replace_kept(
    start: World,
    codex_home: Seq<char>,
    timely: bool,
    seeing: bool,
    target: Seq<u8>,
    id: Seq<char>,
    step: StepView<ActionView, ReplaceView, ()>,
    world: World,
) -> bool {
    let journal = PlaceView::Journal;
    let unchanged = active(world) == active(start);
    let backed_up = timely ==> is_backed_up(start, world);
    let update = update_of(codex_home, target, id, active(start));
    let same_record = content(world, journal) == content(start, journal);
    let is_recorded = recorded(world) == Some(update);
    &&& differs_in_login(start, world)
    &&& match step {
        StepView::Ask(action, machine) => usable_identity(target) == Ok::<Seq<char>, Seq<char>>(id)
            && match machine {
            ReplaceView::Read { codex_home: c, target: t, id: i, same_account: _ } => {
                &&& unchanged
                &&& world.files == start.files
                &&& c == codex_home
                &&& t == target
                &&& i == id
                &&& action == ActionView::Read(active_place())
            },
            ReplaceView::Clock(exchange) => {
                &&& unchanged
                &&& world.files == start.files
                &&& exchange_kept(start, codex_home, target, id, exchange)
                &&& exchange.before is Some
                &&& action is Now
            },
            ReplaceView::Sealed(exchange, name) => {
                &&& unchanged
                &&& world.files == start.files
                &&& exchange_kept(start, codex_home, target, id, exchange)
                &&& exchange.before is Some
                &&& action == ActionView::Seal(exchange.before->Some_0)
                &&& timely ==> comes_last(start, name)
            },
            ReplaceView::BackedUp(exchange) => {
                &&& unchanged
                &&& world.files == start.files
                &&& exchange_kept(start, codex_home, target, id, exchange)
                &&& exchange.before is Some
                &&& match action {
                    ActionView::Write(PlaceView::Backup(name), bytes) => {
                        &&& world.sealed.contains_key(bytes)
                        &&& world.sealed[bytes] == exchange.before->Some_0
                        &&& timely ==> comes_last(start, name)
                    },
                    _ => false,
                }
            },
            ReplaceView::Pruned(exchange, prune) => {
                &&& unchanged
                &&& same_record
                &&& exchange_kept(start, codex_home, target, id, exchange)
                &&& exchange.before is Some
                &&& is_prune_action(action)
                &&& timely ==> exists|name: Seq<char>| #[trigger]
                    prune_kept(start, world, name, exchange.before->Some_0, action, prune)
            },
            ReplaceView::Recorded(exchange, begin) => {
                &&& unchanged
                &&& same_record
                &&& exchange_kept(start, codex_home, target, id, exchange)
                &&& recording_kept(start, seeing, update, action, begin, world)
                &&& backed_up
            },
            ReplaceView::Confirmed(exchange) => {
                &&& unchanged
                &&& is_recorded
                &&& was_free(start, seeing)
                &&& exchange_kept(start, codex_home, target, id, exchange)
                &&& action == ActionView::Read(active_place())
                &&& backed_up
            },
            ReplaceView::Written(exchange) => {
                &&& unchanged
                &&& is_recorded
                &&& was_free(start, seeing)
                &&& exchange_kept(start, codex_home, target, id, exchange)
                &&& action == ActionView::ReplaceActive(target)
                &&& backed_up
            },
            ReplaceView::Verified(exchange) => {
                &&& active(world) == Some(target)
                &&& is_recorded
                &&& was_free(start, seeing)
                &&& exchange_kept(start, codex_home, target, id, exchange)
                &&& action == ActionView::Read(active_place())
                &&& backed_up
            },
            ReplaceView::Restored(_) => {
                &&& active(world) == Some(target)
                &&& is_recorded
                &&& was_free(start, seeing)
                &&& backed_up
                &&& match active(start) {
                    Some(auth) => action == ActionView::ReplaceActive(auth),
                    None => action == ActionView::Remove(active_place()),
                }
            },
            ReplaceView::Ended { result, remove } => {
                &&& is_recorded
                &&& was_free(start, seeing)
                &&& removal_kept(journal, action, remove)
                &&& match result {
                    Ok(_) => active(world) == Some(target) && backed_up,
                    Err(_) => unchanged,
                }
            },
        },
        StepView::Done(Ok(_)) => {
            &&& active(world) == Some(target)
            &&& usable_identity(target) == Ok::<Seq<char>, Seq<char>>(id)
            &&& unchanged || backed_up
            &&& unchanged && same_record || was_free(start, seeing) && (content(world, journal)
                is None || is_recorded)
        },
        StepView::Done(Err(error)) => {
            ||| unchanged && (same_record || was_free(start, seeing) && (content(world, journal)
                is None || is_recorded))
            ||| {
                &&& tells_of_damage(error)
                &&& active(world) == Some(target)
                &&& backed_up
                &&& is_recorded
                &&& was_free(start, seeing)
            }
        },
    }
}

/// What is backed up stays so as long as the backups are not touched.
proof fn lemma_backed_up_stays(start: World, world: World, after: World)
    requires
        is_backed_up(start, world),
        world.sealed.submap_of(after.sealed),
        forall|name: Seq<char>| #[trigger]
            content(after, PlaceView::Backup(name)) == content(world, PlaceView::Backup(name)),
    ensures
        is_backed_up(start, after),
{
    if let Some(auth) = active(start) {
        let name = choose|name: Seq<char>| is_backup(start, world, name, auth);
        let place = PlaceView::Backup(name);
        assert(content(after, place) == content(world, place));
        assert(world.sealed.dom().contains(world.files[place]));
        assert(is_backup(start, after, name, auth));
    }
}

/// Every answer keeps what holds of a replacement.
pub proof fn lemma_replace_kept(
    start: World,
    codex_home: Seq<char>,
    timely: bool,
    seeing: bool,
    target: Seq<u8>,
    id: Seq<char>,
    action: ActionView,
    machine: ReplaceView,
    world: World,
    event: EventView,
    after: World,
)
    requires
        replace_kept(
            start,
            codex_home,
            timely,
            seeing,
            target,
            id,
            StepView::Ask(action, machine),
            world,
        ),
        performed(world, action, event, after),
        timely ==> clock_is_ahead(start, event),
        seeing ==> (is_look(action) ==> answered(action, event)),
    ensures
        replace_kept(
            start,
            codex_home,
            timely,
            seeing,
            target,
            id,
            replace_next(machine, event),
            after,
        ),
{
    match machine {
        ReplaceView::Pruned(exchange, prune) => {
            lemma_prune_kept(
                start,
                codex_home,
                timely,
                seeing,
                target,
                id,
                action,
                machine,
                world,
                event,
                after,
            );
        },
        ReplaceView::BackedUp(exchange) => {
            assert(plain_draft(action->Write_0) is None);
            if event is Done && timely {
                let name = action->Write_0->Backup_0;
                let auth = exchange.before->Some_0;
                assert(is_backup(start, after, name, auth));
                assert(one_more_backup(start, after, name));
                let next = pruning(MAX_SWITCH_BACKUPS);
                assert(prune_kept(start, after, name, auth, next->Ask_0, next->Ask_1));
            }
        },
        ReplaceView::Recorded(exchange, begin) => {
            assert(plain_draft(PlaceView::Journal) is None);
            assert(world.sealed.submap_of(after.sealed));
            assert(world.encoded.submap_of(after.encoded));
            lemma_submap_chain(start.sealed, world.sealed, after.sealed);
            lemma_submap_chain(start.encoded, world.encoded, after.encoded);
            assert(is_tidy(world) ==> is_tidy(after));
            assert(differs_in_login(start, after));
            if timely {
                lemma_backed_up_stays(start, world, after);
            }
        },
        ReplaceView::Written(_) | ReplaceView::Restored(_) | ReplaceView::Ended { .. } => {
            assert(differs_in_login(start, after));
            if timely && is_backed_up(start, world) {
                lemma_backed_up_stays(start, world, after);
            }
        },
        ReplaceView::Sealed(_, _) => {
            assert(world.sealed.submap_of(after.sealed));
            lemma_submap_chain(start.sealed, world.sealed, after.sealed);
            assert(is_tidy(world) ==> is_tidy(after));
        },
        _ => {},
    }
}

/// Every answer keeps what holds while old backups are removed.
pub proof fn lemma_prune_kept(
    start: World,
    codex_home: Seq<char>,
    timely: bool,
    seeing: bool,
    target: Seq<u8>,
    id: Seq<char>,
    action: ActionView,
    machine: ReplaceView,
    world: World,
    event: EventView,
    after: World,
)
    requires
        machine is Pruned,
        replace_kept(
            start,
            codex_home,
            timely,
            seeing,
            target,
            id,
            StepView::Ask(action, machine),
            world,
        ),
        performed(world, action, event, after),
    ensures
        replace_kept(
            start,
            codex_home,
            timely,
            seeing,
            target,
            id,
            replace_next(machine, event),
            after,
        ),
{
    let exchange = machine->Pruned_0;
    let prune = machine->Pruned_1;
    let auth = exchange.before->Some_0;
    let next = prune_next(prune, event);
    assert(differs_in_login(start, after));
    if timely {
        let name = choose|name: Seq<char>|
            prune_kept(start, world, name, auth, action, prune);
        assert(is_backup(start, after, name, auth));
        match prune {
            PruneView::Listed { keep } => {
                if let EventView::Names(entries) = event {
                    let names = names_of(entries);
                    assert forall|i: int|
                        0 <= i < names.len() && names[i] != name && is_sealed_name(
                            names[i],
                        ) implies follows(name, #[trigger] names[i]) by {
                        assert(names.contains(names[i]));
                        assert(world.files.contains_key(PlaceView::Backup(names[i])));
                    }
                    law_last_backup_stays(names, keep, name);
                    let doomed = outdated(names, keep);
                    if doomed.len() > 0 {
                        assert(doomed.contains(doomed[0]));
                        assert forall|i: int| 0 <= i < doomed.drop_first().len() implies
                            doomed.drop_first()[i] != name by {
                            assert(doomed.contains(doomed[i + 1]));
                        }
                        assert(prune_kept(start, after, name, auth, next->Ask_0, next->Ask_1));
                    }
                }
            },
            PruneView::Present { keep } => {
                if present(event) {
                    assert(prune_kept(start, after, name, auth, next->Ask_0, next->Ask_1));
                }
            },
            PruneView::Removed { rest } => {
                if event is Done && rest.len() > 0 {
                    assert(rest.contains(rest[0]));
                    assert forall|i: int| 0 <= i < rest.drop_first().len() implies
                        rest.drop_first()[i] != name by {
                        assert(rest.contains(rest[i + 1]));
                    }
                    assert(prune_kept(start, after, name, auth, next->Ask_0, next->Ask_1));
                }
            },
        }
    }
}

/// Whatever happens while the credentials in use are replaced, and wherever that is interrupted:
/// they are what they were, or those that were to be written; in the latter case what was there
/// before is among the backups, sealed. No file changes but those in use, the draft of them, the
/// backups and the record of the update, and nothing that lasts is in the clear that was not
/// before.
pub proof fn law_replacement_is_safe(
    start: World,
    codex_home: Seq<char>,
    target: Seq<u8>,
    id: Seq<char>,
    same_account: bool,
    history: Seq<(EventView, World)>,
    end: StepView<ActionView, ReplaceView, ()>,
    after: World,
)
    requires
        leads(
            timely_world(start),
            replace_machine(),
            replacing(codex_home, target, id, same_account),
            start,
            history,
            end,
            after,
        ),
    ensures
        differs_in_login(start, after),
        active(after) == active(start) || (active(after) == Some(target) && is_backed_up(
            start,
            after,
        )),
{
    let kept = |step: StepView<ActionView, ReplaceView, ()>, world: World|
        replace_kept(start, codex_home, true, false, target, id, step, world);
    assert forall|
        action: ActionView,
        machine: ReplaceView,
        here: World,
        event: EventView,
        there: World,
    |
        kept(StepView::Ask(action, machine), here) && #[trigger] timely_world(start)(
            here,
            action,
            event,
            there,
        ) implies kept(#[trigger] replace_machine()(machine, event), there) by {
        lemma_replace_kept(
            start,
            codex_home,
            true,
            false,
            target,
            id,
            action,
            machine,
            here,
            event,
            there,
        );
    }
    lemma_leads(
        timely_world(start),
        replace_machine(),
        kept,
        replacing(codex_home, target, id, same_account),
        start,
        history,
        end,
        after,
    );
}

/// A replacement that succeeds leaves exactly the new credentials, and they are those of the
/// account that was meant. One that fails leaves what was there before, or says that this could
/// not be put back.
pub proof fn law_replacement_result(
    start: World,
    codex_home: Seq<char>,
    target: Seq<u8>,
    id: Seq<char>,
    same_account: bool,
    history: Seq<(EventView, World)>,
    result: Result<(), Seq<char>>,
    after: World,
)
    requires
        leads(
            any_world(),
            replace_machine(),
            replacing(codex_home, target, id, same_account),
            start,
            history,
            StepView::Done(result),
            after,
        ),
    ensures
        match result {
            Ok(_) => active(after) == Some(target) && usable_identity(target) == Ok::<
                Seq<char>,
                Seq<char>,
            >(id),
            Err(error) => active(after) == active(start) || (active(after) == Some(target)
                && tells_of_damage(error)),
        },
{
    let kept = |step: StepView<ActionView, ReplaceView, ()>, world: World|
        replace_kept(start, codex_home, false, false, target, id, step, world);
    assert forall|
        action: ActionView,
        machine: ReplaceView,
        here: World,
        event: EventView,
        there: World,
    |
        kept(StepView::Ask(action, machine), here) && #[trigger] any_world()(
            here,
            action,
            event,
            there,
        ) implies kept(#[trigger] replace_machine()(machine, event), there) by {
        lemma_replace_kept(
            start,
            codex_home,
            false,
            false,
            target,
            id,
            action,
            machine,
            here,
            event,
            there,
        );
    }
    lemma_leads(
        any_world(),
        replace_machine(),
        kept,
        replacing(codex_home, target, id, same_account),
        start,
        history,
        StepView::Done(result),
        after,
    );
}

/// What holds of every step of a replacement that may be made while nothing fails.
pub open spec fn replace_thrives(
    start: World,
    codex_home: Seq<char>,
    target: Seq<u8>,
    id: Seq<char>,
    step: StepView<ActionView, ReplaceView, ()>,
    world: World,
) -> bool {
    &&& replace_kept(start, codex_home, false, true, target, id, step, world)
    &&& content(start, PlaceView::Journal) is None
    &&& match step {
        StepView::Ask(action, ReplaceView::Read { same_account, .. }) => same_account
            ==> belongs_to(active(start), id),
        StepView::Ask(action, ReplaceView::Pruned(_, PruneView::Listed { .. })) => action
            == ActionView::List(PlaceView::BackupDir),
        StepView::Ask(action, ReplaceView::Pruned(_, PruneView::Removed { .. })) => action
            is Remove,
        StepView::Ask(_, ReplaceView::Ended { result, .. }) => result is Ok,
        StepView::Ask(_, machine) => !(machine is Restored),
        StepView::Done(result) => result is Ok && content(world, PlaceView::Journal) is None,
    }
}

/// In a world in which nothing fails, credentials that are those of the account that is meant are
/// written: they replace whatever is there, or only those of the same account if that is asked
/// for. No update may be recorded before, and none is afterwards.
pub proof fn law_replacement_succeeds(
    start: World,
    codex_home: Seq<char>,
    target: Seq<u8>,
    id: Seq<char>,
    same_account: bool,
    history: Seq<(EventView, World)>,
    result: Result<(), Seq<char>>,
    after: World,
)
    requires
        usable_identity(target) == Ok::<Seq<char>, Seq<char>>(id),
        same_account ==> belongs_to(active(start), id),
        content(start, PlaceView::Journal) is None,
        leads(
            smooth_world(),
            replace_machine(),
            replacing(codex_home, target, id, same_account),
            start,
            history,
            StepView::Done(result),
            after,
        ),
    ensures
        result is Ok,
        active(after) == Some(target),
        content(after, PlaceView::Journal) is None,
{
    let kept = |step: StepView<ActionView, ReplaceView, ()>, world: World|
        replace_thrives(start, codex_home, target, id, step, world);
    assert forall|
        action: ActionView,
        machine: ReplaceView,
        here: World,
        event: EventView,
        there: World,
    |
        kept(StepView::Ask(action, machine), here) && #[trigger] smooth_world()(
            here,
            action,
            event,
            there,
        ) implies kept(#[trigger] replace_machine()(machine, event), there) by {
        lemma_replace_kept(
            start,
            codex_home,
            false,
            true,
            target,
            id,
            action,
            machine,
            here,
            event,
            there,
        );
    }
    lemma_leads(
        smooth_world(),
        replace_machine(),
        kept,
        replacing(codex_home, target, id, same_account),
        start,
        history,
        StepView::Done(result),
        after,
    );
}

/// The machine that loads saved credentials.
pub open spec fn load_machine() -> spec_fn(
    LoadSavedView,
    EventView,
) -> StepView<ActionView, LoadSavedView, Seq<u8>> {
    |machine: LoadSavedView, event: EventView| load_saved_next(machine, event)
}

/// The machine that imports the credentials of a home.
pub open spec fn import_machine() -> spec_fn(
    ImportView,
    EventView,
) -> StepView<ActionView, ImportView, SavedAccountView> {
    |machine: ImportView, event: EventView| import_next(machine, event)
}

/// The machine that activates a saved account.
pub open spec fn activate_machine() -> spec_fn(
    ActivateView,
    EventView,
) -> StepView<ActionView, ActivateView, ()> {
    |machine: ActivateView, event: EventView| activate_next(machine, event)
}

/// The machine that saves the account in use before a switch.
pub open spec fn save_machine() -> spec_fn(
    SaveCurrentView,
    EventView,
) -> StepView<ActionView, SaveCurrentView, ()> {
    |machine: SaveCurrentView, event: EventView| save_current_next(machine, event)
}

/// The index of the accounts, an empty one where there is none.
pub open spec fn index_of(world: World) -> AccountIndexView {
    match world.index {
        Some(index) => index,
        None => empty_index(),
    }
}

/// Whether the vault has these credentials for this account, sealed, and lists it.
pub open spec fn is_saved(world: World, id: Seq<char>, auth: Seq<u8>) -> bool {
    &&& opened(world, PlaceView::Vault(id)) == Some(auth)
    &&& usable_identity(auth) == Ok::<Seq<char>, Seq<char>>(id)
    &&& index_of(world).version == INDEX_VERSION
    &&& listed(index_of(world).accounts, id)
}

/// What holds of every step of loading.
pub open spec fn load_kept(
    start: World,
    id: Seq<char>,
    smooth: bool,
    step: StepView<ActionView, LoadSavedView, Seq<u8>>,
    world: World,
) -> bool {
    let entry = PlaceView::Vault(id);
    let known = index_of(start).version == INDEX_VERSION && listed(index_of(start).accounts, id);
    let saved = exists|auth: Seq<u8>| #[trigger] is_saved(start, id, auth);
    &&& world == start
    &&& smooth ==> account_id_verdict(id) is Ok && saved
    &&& match step {
        StepView::Ask(action, LoadSavedView::Index(i)) => i == id && action is ReadIndex,
        StepView::Ask(action, LoadSavedView::Sealed(i)) => i == id && known && action
            == ActionView::Read(entry),
        StepView::Ask(action, LoadSavedView::Opened(i)) => i == id && known && content(start, entry)
            is Some && action == ActionView::Unseal(start.files[entry]),
        StepView::Done(Ok(auth)) => is_saved(start, id, auth),
        StepView::Done(Err(_)) => !smooth,
    }
}

/// Every answer keeps what holds of loading.
pub proof fn lemma_load_kept(
    start: World,
    id: Seq<char>,
    smooth: bool,
    action: ActionView,
    machine: LoadSavedView,
    world: World,
    event: EventView,
    after: World,
)
    requires
        load_kept(start, id, smooth, StepView::Ask(action, machine), world),
        performed(world, action, event, after),
        smooth ==> answered(action, event),
    ensures
        load_kept(start, id, smooth, load_saved_next(machine, event), after),
{
}

/// Loading changes nothing, and gives only what the vault has for the account, if it is listed
/// and the credentials are usable and its own.
pub proof fn law_load_gives_what_is_saved(
    start: World,
    id: Seq<char>,
    history: Seq<(EventView, World)>,
    result: Result<Seq<u8>, Seq<char>>,
    after: World,
)
    requires
        leads(
            any_world(),
            load_machine(),
            loading_saved(id),
            start,
            history,
            StepView::Done(result),
            after,
        ),
    ensures
        after == start,
        result matches Ok(auth) ==> is_saved(start, id, auth),
{
    let kept = |step: StepView<ActionView, LoadSavedView, Seq<u8>>, world: World|
        load_kept(start, id, false, step, world);
    assert forall|
        action: ActionView,
        machine: LoadSavedView,
        here: World,
        event: EventView,
        there: World,
    |
        kept(StepView::Ask(action, machine), here) && #[trigger] any_world()(
            here,
            action,
            event,
            there,
        ) implies kept(#[trigger] load_machine()(machine, event), there) by {
        lemma_load_kept(start, id, false, action, machine, here, event, there);
    }
    lemma_leads(
        any_world(),
        load_machine(),
        kept,
        loading_saved(id),
        start,
        history,
        StepView::Done(result),
        after,
    );
}

/// In a world in which nothing fails, what the vault has for an account is loaded.
pub proof fn law_load_succeeds(
    start: World,
    id: Seq<char>,
    auth: Seq<u8>,
    history: Seq<(EventView, World)>,
    result: Result<Seq<u8>, Seq<char>>,
    after: World,
)
    requires
        is_account_id(id),
        is_saved(start, id, auth),
        leads(
            smooth_world(),
            load_machine(),
            loading_saved(id),
            start,
            history,
            StepView::Done(result),
            after,
        ),
    ensures
        result == Ok::<Seq<u8>, Seq<char>>(auth),
{
    let kept = |step: StepView<ActionView, LoadSavedView, Seq<u8>>, world: World|
        load_kept(start, id, true, step, world);
    assert forall|
        action: ActionView,
        machine: LoadSavedView,
        here: World,
        event: EventView,
        there: World,
    |
        kept(StepView::Ask(action, machine), here) && #[trigger] smooth_world()(
            here,
            action,
            event,
            there,
        ) implies kept(#[trigger] load_machine()(machine, event), there) by {
        lemma_load_kept(start, id, true, action, machine, here, event, there);
    }
    lemma_leads(
        smooth_world(),
        load_machine(),
        kept,
        loading_saved(id),
        start,
        history,
        StepView::Done(result),
        after,
    );
}

/// Whether a place is that of the saved credentials of the account that these are of.
pub open spec fn is_entry_of(place: PlaceView, auth: Option<Seq<u8>>) -> bool {
    match (place, auth) {
        (PlaceView::Vault(id), Some(auth)) => usable_identity(auth) == Ok::<Seq<char>, Seq<char>>(
            id,
        ),
        _ => false,
    }
}

/// Whether no file differs but the one in which these credentials are saved; what was sealed
/// stays so.
pub open spec fn differs_in_entry(start: World, world: World, auth: Option<Seq<u8>>) -> bool {
    &&& same_processes(start, world)
    &&& world.encoded == start.encoded
    &&& start.sealed.submap_of(world.sealed)
    &&& forall|place: PlaceView|
        #![trigger content(world, place)]
        #![trigger content(start, place)]
        !is_entry_of(place, auth) ==> content(world, place) == content(start, place)
    &&& is_tidy(start) ==> is_tidy(world)
}

/// Whether what the vault has for the account of these credentials is what it had, or they.
pub open spec fn entry_is_settled(start: World, world: World, auth: Option<Seq<u8>>) -> bool {
    forall|id: Seq<char>|
        #![trigger content(world, PlaceView::Vault(id))]
        is_entry_of(PlaceView::Vault(id), auth) ==> content(world, PlaceView::Vault(id)) == content(
            start,
            PlaceView::Vault(id),
        ) || opened(world, PlaceView::Vault(id)) == auth
}

/// Whether an account was entered into the index with these credentials.
pub open spec fn is_imported(
    start: World,
    world: World,
    auth: Option<Seq<u8>>,
    account: Option<AccountInfoView>,
    label: Option<Seq<char>>,
    saved: SavedAccountView,
) -> bool {
    &&& auth is Some
    &&& is_saved(world, saved.id, auth->Some_0)
    &&& world.index == Some(entered(index_of(start), saved))
    &&& merged(index_of(start), saved.id, account, label, saved.imported_at) == Ok::<
        SavedAccountView,
        Seq<char>,
    >(saved)
}

/// What holds once the credentials that are imported have been read.
pub open spec fn import_read(
    start: World,
    world: World,
    auth: Option<Seq<u8>>,
    id: Seq<char>,
    account: Option<AccountInfoView>,
    label: Option<Seq<char>>,
    a: Option<AccountInfoView>,
    l: Option<Seq<char>>,
) -> bool {
    &&& a == account
    &&& l == label
    &&& auth is Some
    &&& usable_identity(auth->Some_0) == Ok::<Seq<char>, Seq<char>>(id)
    &&& world.index == start.index
}

/// What holds of every step of an import.
pub open spec fn import_kept(
    start: World,
    home: HomeView,
    account: Option<AccountInfoView>,
    label: Option<Seq<char>>,
    step: StepView<ActionView, ImportView, SavedAccountView>,
    world: World,
) -> bool {
    let auth = content(start, PlaceView::InHome(home, HomeFile::Auth));
    &&& differs_in_entry(start, world, auth)
    &&& entry_is_settled(start, world, auth)
    &&& match step {
        StepView::Ask(action, ImportView::Read { account: a, label: l }) => {
            &&& world == start
            &&& a == account
            &&& l == label
            &&& action == ActionView::Read(PlaceView::InHome(home, HomeFile::Auth))
        },
        StepView::Ask(action, ImportView::Sealed { id, account: a, label: l }) => {
            &&& import_read(start, world, auth, id, account, label, a, l)
            &&& world == start
            &&& action == ActionView::Seal(auth->Some_0)
        },
        StepView::Ask(action, ImportView::Created { id, sealed, account: a, label: l }) => {
            &&& import_read(start, world, auth, id, account, label, a, l)
            &&& world.files == start.files
            &&& world.sealed.contains_key(sealed)
            &&& world.sealed[sealed] == auth->Some_0
            &&& action is CreateDir
        },
        StepView::Ask(action, ImportView::Written { id, account: a, label: l }) => {
            &&& import_read(start, world, auth, id, account, label, a, l)
            &&& world.files == start.files
            &&& match action {
                ActionView::Write(place, sealed) => {
                    &&& place == PlaceView::Vault(id)
                    &&& world.sealed.contains_key(sealed)
                    &&& world.sealed[sealed] == auth->Some_0
                },
                _ => false,
            }
        },
        StepView::Ask(action, ImportView::Index { id, account: a, label: l }) => {
            &&& import_read(start, world, auth, id, account, label, a, l)
            &&& opened(world, PlaceView::Vault(id)) == auth
            &&& action is ReadIndex
        },
        StepView::Ask(action, ImportView::Clock { index, id, account: a, label: l }) => {
            &&& import_read(start, world, auth, id, account, label, a, l)
            &&& opened(world, PlaceView::Vault(id)) == auth
            &&& index == index_of(start)
            &&& index.version == INDEX_VERSION
            &&& action is Now
        },
        StepView::Ask(action, ImportView::Entered(saved)) => {
            &&& import_read(start, world, auth, saved.id, account, label, account, label)
            &&& opened(world, PlaceView::Vault(saved.id)) == auth
            &&& index_of(start).version == INDEX_VERSION
            &&& merged(index_of(start), saved.id, account, label, saved.imported_at) == Ok::<
                SavedAccountView,
                Seq<char>,
            >(saved)
            &&& action == ActionView::WriteIndex(entered(index_of(start), saved))
        },
        StepView::Done(Ok(saved)) => is_imported(start, world, auth, account, label, saved),
        StepView::Done(Err(_)) => world.index == start.index,
    }
}

/// An account that was entered into an index is listed there.
pub proof fn lemma_entered_is_listed(index: AccountIndexView, saved: SavedAccountView)
    ensures
        listed(entered(index, saved).accounts, saved.id),
        entered(index, saved).version == index.version,
{
    let after = entered(index, saved).accounts;
    lemma_place_of(index.accounts, saved.id);
    lemma_place_of(after, saved.id);
    match place_of(index.accounts, saved.id) {
        Some(at) => {
            assert(after[at].id == saved.id);
        },
        None => {
            assert(after[index.accounts.len() as int].id == saved.id);
        },
    }
}

/// Every answer keeps what holds of an import.
pub proof fn lemma_import_kept(
    start: World,
    home: HomeView,
    account: Option<AccountInfoView>,
    label: Option<Seq<char>>,
    action: ActionView,
    machine: ImportView,
    world: World,
    event: EventView,
    after: World,
)
    requires
        import_kept(start, home, account, label, StepView::Ask(action, machine), world),
        performed(world, action, event, after),
    ensures
        import_kept(start, home, account, label, import_next(machine, event), after),
{
    match machine {
        ImportView::Entered(saved) => {
            lemma_entered_is_listed(index_of(start), saved);
        },
        _ => {},
    }
}

/// An import that succeeds has sealed the credentials of the home in the vault, under the account
/// that they are of, and entered that account into the index. One that fails has not touched the
/// index. Either way, and wherever it is interrupted, no file differs but that of the account in
/// the vault, and nothing that lasts is in the clear that was not before.
pub proof fn law_import_saves_login(
    start: World,
    home: HomeView,
    account: Option<AccountInfoView>,
    label: Option<Seq<char>>,
    history: Seq<(EventView, World)>,
    end: StepView<ActionView, ImportView, SavedAccountView>,
    after: World,
)
    requires
        leads(
            any_world(),
            import_machine(),
            importing(home, account, label),
            start,
            history,
            end,
            after,
        ),
    ensures
        ({
            let auth = content(start, PlaceView::InHome(home, HomeFile::Auth));
            &&& differs_in_entry(start, after, auth)
            &&& match end {
                StepView::Done(Ok(saved)) => is_imported(
                    start,
                    after,
                    auth,
                    account,
                    label,
                    saved,
                ),
                _ => after.index == start.index,
            }
        }),
{
    let kept = |step: StepView<ActionView, ImportView, SavedAccountView>, world: World|
        import_kept(start, home, account, label, step, world);
    assert forall|
        action: ActionView,
        machine: ImportView,
        here: World,
        event: EventView,
        there: World,
    |
        kept(StepView::Ask(action, machine), here) && #[trigger] any_world()(
            here,
            action,
            event,
            there,
        ) implies kept(#[trigger] import_machine()(machine, event), there) by {
        lemma_import_kept(start, home, account, label, action, machine, here, event, there);
    }
    lemma_leads(
        any_world(),
        import_machine(),
        kept,
        importing(home, account, label),
        start,
        history,
        end,
        after,
    );
}

/// In a world in which nothing fails, usable credentials are imported, if the index is of the
/// version that is known and the label is not too long.
pub proof fn law_import_succeeds(
    start: World,
    home: HomeView,
    account: Option<AccountInfoView>,
    label: Option<Seq<char>>,
    auth: Seq<u8>,
    id: Seq<char>,
    history: Seq<(EventView, World)>,
    result: Result<SavedAccountView, Seq<char>>,
    after: World,
)
    requires
        content(start, PlaceView::InHome(home, HomeFile::Auth)) == Some(auth),
        usable_identity(auth) == Ok::<Seq<char>, Seq<char>>(id),
        index_of(start).version == INDEX_VERSION,
        merged(index_of(start), id, account, label, 0) is Ok,
        leads(
            smooth_world(),
            import_machine(),
            importing(home, account, label),
            start,
            history,
            StepView::Done(result),
            after,
        ),
    ensures
        result is Ok,
{
    let kept = |step: StepView<ActionView, ImportView, SavedAccountView>, world: World|
        import_kept(
            start,
            home,
            account,
            label,
            step,
            world,
        ) && !(step matches StepView::Done(Err(_)));
    assert forall|
        action: ActionView,
        machine: ImportView,
        here: World,
        event: EventView,
        there: World,
    |
        kept(StepView::Ask(action, machine), here) && #[trigger] smooth_world()(
            here,
            action,
            event,
            there,
        ) implies kept(#[trigger] import_machine()(machine, event), there) by {
        lemma_import_kept(start, home, account, label, action, machine, here, event, there);
    }
    lemma_leads(
        smooth_world(),
        import_machine(),
        kept,
        importing(home, account, label),
        start,
        history,
        StepView::Done(result),
        after,
    );
}

/// What an import saved is what loading the account gives.
pub proof fn law_import_then_load(
    start: World,
    home: HomeView,
    account: Option<AccountInfoView>,
    label: Option<Seq<char>>,
    saved: SavedAccountView,
    imports: Seq<(EventView, World)>,
    between: World,
    loads: Seq<(EventView, World)>,
    loaded: Seq<u8>,
    after: World,
)
    requires
        leads(
            any_world(),
            import_machine(),
            importing(home, account, label),
            start,
            imports,
            StepView::Done(Ok(saved)),
            between,
        ),
        leads(
            any_world(),
            load_machine(),
            loading_saved(saved.id),
            between,
            loads,
            StepView::Done(Ok(loaded)),
            after,
        ),
    ensures
        content(start, PlaceView::InHome(home, HomeFile::Auth)) == Some(loaded),
{
    law_import_saves_login(
        start,
        home,
        account,
        label,
        imports,
        StepView::Done(Ok(saved)),
        between,
    );
    law_load_gives_what_is_saved(between, saved.id, loads, Ok(loaded), after);
}

/// What the vault has for an account, where it has something.
pub open spec fn saved_auth(world: World, id: Seq<char>) -> Seq<u8> {
    opened(world, PlaceView::Vault(id))->Some_0
}

/// What holds of every step of an activation.
pub open spec fn activate_kept(
    start: World,
    codex_home: Seq<char>,
    timely: bool,
    id: Seq<char>,
    step: StepView<ActionView, ActivateView, ()>,
    world: World,
) -> bool {
    let target = saved_auth(start, id);
    match step {
        StepView::Ask(action, ActivateView::Load(load, i, h)) => i == id && h == codex_home
            && load_kept(
            start,
            id,
            false,
            StepView::Ask(action, load),
            world,
        ),
        StepView::Ask(action, ActivateView::Replace(replace)) => is_saved(start, id, target)
            && replace_kept(
                start,
                codex_home,
                timely,
                false,
                target,
                id,
                StepView::Ask(action, replace),
                world,
            ),
        StepView::Done(Ok(_)) => is_saved(start, id, target) && replace_kept(
            start,
            codex_home,
            timely,
            false,
            target,
            id,
            StepView::Done(Ok(())),
            world,
        ),
        StepView::Done(Err(error)) => world == start || (is_saved(start, id, target)
            && replace_kept(
                start,
                codex_home,
                timely,
                false,
                target,
                id,
                StepView::Done(Err(error)),
                world,
            )),
    }
}

/// Every answer keeps what holds of an activation.
pub proof fn lemma_activate_kept(
    start: World,
    codex_home: Seq<char>,
    timely: bool,
    id: Seq<char>,
    action: ActionView,
    machine: ActivateView,
    world: World,
    event: EventView,
    after: World,
)
    requires
        activate_kept(start, codex_home, timely, id, StepView::Ask(action, machine), world),
        performed(world, action, event, after),
        timely ==> clock_is_ahead(start, event),
    ensures
        activate_kept(start, codex_home, timely, id, activate_next(machine, event), after),
{
    let target = saved_auth(start, id);
    match machine {
        ActivateView::Load(load, i, h) => {
            lemma_load_kept(start, id, false, action, load, world, event, after);
            assert(replace_kept(
                start,
                codex_home,
                timely,
                false,
                target,
                id,
                replacing(codex_home, target, id, false),
                start,
            )
                || !is_saved(start, id, target));
        },
        ActivateView::Replace(replace) => {
            lemma_replace_kept(
                start,
                codex_home,
                timely,
                false,
                target,
                id,
                action,
                replace,
                world,
                event,
                after,
            );
        },
    }
}

/// Whatever happens while an account is activated, and wherever that is interrupted: the
/// credentials in use are what they were, or those that the vault has for the account, with what
/// was there before among the backups, sealed. If it succeeds they are those of the account; no
/// file changes but those in use, the draft of them, the backups and the record of the update.
pub proof fn law_activation_is_safe(
    start: World,
    codex_home: Seq<char>,
    id: Seq<char>,
    history: Seq<(EventView, World)>,
    end: StepView<ActionView, ActivateView, ()>,
    after: World,
)
    requires
        leads(
            timely_world(start),
            activate_machine(),
            activating(id, codex_home),
            start,
            history,
            end,
            after,
        ),
    ensures
        differs_in_login(start, after),
        active(after) == active(start) || (is_saved(start, id, saved_auth(start, id)) && active(
            after,
        ) == Some(saved_auth(start, id)) && is_backed_up(start, after)),
        end matches StepView::Done(Ok(_)) ==> is_saved(start, id, saved_auth(start, id)) && active(
            after,
        ) == Some(saved_auth(start, id)),
{
    let kept = |step: StepView<ActionView, ActivateView, ()>, world: World|
        activate_kept(start, codex_home, true, id, step, world);
    assert forall|
        action: ActionView,
        machine: ActivateView,
        here: World,
        event: EventView,
        there: World,
    |
        kept(StepView::Ask(action, machine), here) && #[trigger] timely_world(start)(
            here,
            action,
            event,
            there,
        ) implies kept(#[trigger] activate_machine()(machine, event), there) by {
        lemma_activate_kept(start, codex_home, true, id, action, machine, here, event, there);
    }
    lemma_leads(
        timely_world(start),
        activate_machine(),
        kept,
        activating(id, codex_home),
        start,
        history,
        end,
        after,
    );
}

/// What holds of every step of an activation of a saved account while nothing fails.
pub open spec fn activate_thrives(
    start: World,
    codex_home: Seq<char>,
    id: Seq<char>,
    step: StepView<ActionView, ActivateView, ()>,
    world: World,
) -> bool {
    let target = saved_auth(start, id);
    match step {
        StepView::Ask(action, ActivateView::Load(load, i, h)) => i == id && h == codex_home
            && load_kept(
            start,
            id,
            true,
            StepView::Ask(action, load),
            world,
        ),
        StepView::Ask(action, ActivateView::Replace(replace)) => is_saved(start, id, target)
            && replace_thrives(
                start,
                codex_home,
                target,
                id,
                StepView::Ask(action, replace),
                world,
            ),
        StepView::Done(Ok(_)) => active(world) == Some(target) && content(world, PlaceView::Journal)
            is None,
        StepView::Done(Err(_)) => false,
    }
}

/// In a world in which nothing fails, an account that the vault has is activated, if no update is
/// recorded; none is afterwards.
pub proof fn law_activation_succeeds(
    start: World,
    codex_home: Seq<char>,
    id: Seq<char>,
    auth: Seq<u8>,
    history: Seq<(EventView, World)>,
    result: Result<(), Seq<char>>,
    after: World,
)
    requires
        is_account_id(id),
        is_saved(start, id, auth),
        content(start, PlaceView::Journal) is None,
        leads(
            smooth_world(),
            activate_machine(),
            activating(id, codex_home),
            start,
            history,
            StepView::Done(result),
            after,
        ),
    ensures
        result is Ok,
        active(after) == Some(auth),
        content(after, PlaceView::Journal) is None,
{
    let kept = |step: StepView<ActionView, ActivateView, ()>, world: World|
        activate_thrives(start, codex_home, id, step, world);
    assert forall|
        action: ActionView,
        machine: ActivateView,
        here: World,
        event: EventView,
        there: World,
    |
        kept(StepView::Ask(action, machine), here) && #[trigger] smooth_world()(
            here,
            action,
            event,
            there,
        ) implies kept(#[trigger] activate_machine()(machine, event), there) by {
        let target = saved_auth(start, id);
        match machine {
            ActivateView::Load(load, i, h) => {
                lemma_load_kept(start, id, true, action, load, here, event, there);
                assert(
                    is_saved(start, id, target) ==> replace_thrives(
                        start,
                        codex_home,
                        target,
                        id,
                        replacing(codex_home, target, id, false),
                        start,
                    )
                );
            },
            ActivateView::Replace(replace) => {
                lemma_replace_kept(
                    start,
                    codex_home,
                    false,
                    true,
                    target,
                    id,
                    action,
                    replace,
                    here,
                    event,
                    there,
                );
                assert(
                    replace_thrives(
                        start,
                        codex_home,
                        target,
                        id,
                        replace_next(replace, event),
                        there,
                    )
                );
            },
        }
    }
    lemma_leads(
        smooth_world(),
        activate_machine(),
        kept,
        activating(id, codex_home),
        start,
        history,
        StepView::Done(result),
        after,
    );
}

/// Whether the credentials in use are usable and of another account than this.
pub open spec fn is_other_login(world: World, id: Seq<char>) -> bool {
    match active(world) {
        Some(auth) => match usable_identity(auth) {
            Ok(found) => found != id,
            Err(_) => false,
        },
        None => false,
    }
}

/// What holds of every step of saving the account in use.
pub open spec fn save_kept(
    start: World,
    target_id: Seq<char>,
    step: StepView<ActionView, SaveCurrentView, ()>,
    world: World,
) -> bool {
    match step {
        StepView::Ask(action, SaveCurrentView::Read { target_id: t }) => world == start && t
            == target_id && action == ActionView::Read(active_place()),
        StepView::Ask(action, SaveCurrentView::Import(import)) => is_other_login(start, target_id)
            && import_kept(
            start,
            HomeView::Active,
            None,
            None,
            StepView::Ask(action, import),
            world,
        ),
        StepView::Done(Ok(_)) => if is_other_login(start, target_id) {
            exists|saved: SavedAccountView| #[trigger]
                is_imported(start, world, active(start), None, None, saved) && differs_in_entry(
                    start,
                    world,
                    active(start),
                )
        } else {
            world == start
        },
        StepView::Done(Err(_)) => world == start || (is_other_login(start, target_id)
            && differs_in_entry(start, world, active(start)) && world.index == start.index),
    }
}

/// Every answer keeps what holds of saving the account in use.
pub proof fn lemma_save_kept(
    start: World,
    target_id: Seq<char>,
    action: ActionView,
    machine: SaveCurrentView,
    world: World,
    event: EventView,
    after: World,
)
    requires
        save_kept(start, target_id, StepView::Ask(action, machine), world),
        performed(world, action, event, after),
    ensures
        save_kept(start, target_id, save_current_next(machine, event), after),
{
    match machine {
        SaveCurrentView::Import(import) => {
            lemma_import_kept(
                start,
                HomeView::Active,
                None,
                None,
                action,
                import,
                world,
                event,
                after,
            );
            let next = import_next(import, event);
            if let StepView::Done(Ok(saved)) = next {
                assert(is_imported(start, after, active(start), None, None, saved));
            }
        },
        _ => {},
    }
}

/// Saving the account in use before a switch leaves the login as it is, and what the vault has
/// for the account that is switched to. If it succeeds, and the login is usable and of another
/// account, the vault has it, and the entry that it had in the index keeps its label, its address
/// and its plan; a login that is missing or damaged stops nothing.
pub proof fn law_save_before_switch(
    start: World,
    target_id: Seq<char>,
    history: Seq<(EventView, World)>,
    end: StepView<ActionView, SaveCurrentView, ()>,
    after: World,
)
    requires
        leads(any_world(), save_machine(), saving_current(target_id), start, history, end, after),
    ensures
        differs_in_entry(start, after, active(start)),
        active(after) == active(start),
        content(after, PlaceView::Vault(target_id)) == content(start, PlaceView::Vault(target_id)),
        end matches StepView::Done(Ok(_)) ==> if is_other_login(start, target_id) {
            is_saved(after, usable_identity(active(start)->Some_0)->Ok_0, active(start)->Some_0)
        } else {
            after == start
        },
        end matches StepView::Done(Ok(_)) ==> (is_other_login(start, target_id) ==> (
        start.index matches Some(before) ==> forall|at: int| #[trigger]
            is_first_entry(
                before.accounts,
                usable_identity(active(start)->Some_0)->Ok_0,
                at,
            ) ==> {
                let now = after.index->Some_0.accounts[at];
                &&& after.index is Some
                &&& now.label == before.accounts[at].label
                &&& now.email == before.accounts[at].email
                &&& now.plan_type == before.accounts[at].plan_type
                &&& forall|i: int|
                    0 <= i < before.accounts.len() && i != at
                        ==> #[trigger] after.index->Some_0.accounts[i] == before.accounts[i]
            })),
{
    let kept = |step: StepView<ActionView, SaveCurrentView, ()>, world: World|
        save_kept(start, target_id, step, world);
    assert forall|
        action: ActionView,
        machine: SaveCurrentView,
        here: World,
        event: EventView,
        there: World,
    |
        kept(StepView::Ask(action, machine), here) && #[trigger] any_world()(
            here,
            action,
            event,
            there,
        ) implies kept(#[trigger] save_machine()(machine, event), there) by {
        lemma_save_kept(start, target_id, action, machine, here, event, there);
    }
    lemma_leads(
        any_world(),
        save_machine(),
        kept,
        saving_current(target_id),
        start,
        history,
        end,
        after,
    );
    assert(differs_in_entry(start, after, active(start)));
    assert(content(after, active_place()) == content(start, active_place()));
    assert(content(after, PlaceView::Vault(target_id)) == content(
        start,
        PlaceView::Vault(target_id),
    ));
    if end matches StepView::Done(Ok(_)) && is_other_login(start, target_id) {
        let saved = choose|saved: SavedAccountView|
            is_imported(start, after, active(start), None, None, saved);
        let id = usable_identity(active(start)->Some_0)->Ok_0;
        if let Some(before) = start.index {
            assert forall|at: int| #[trigger] is_first_entry(before.accounts, id, at) implies {
                let now = after.index->Some_0.accounts[at];
                &&& after.index is Some
                &&& now.label == before.accounts[at].label
                &&& now.email == before.accounts[at].email
                &&& now.plan_type == before.accounts[at].plan_type
                &&& forall|i: int|
                    0 <= i < before.accounts.len() && i != at
                        ==> #[trigger] after.index->Some_0.accounts[i] == before.accounts[i]
            } by {
                law_known_account_keeps_its_label(before, id, None, None, saved.imported_at, at);
                law_entering_replaces_or_adds_one_entry(before, saved, at);
            }
        }
    }
}

} // verus!
