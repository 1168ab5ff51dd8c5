//! What a recovery promises.

use vstd::prelude::*;

use crate::accounts::SavedAccountView;
use crate::digest::{hex, sha256};
use crate::effects::{auth_reply, ActionView, EventView, HomeView, PlaceView, StepView};
use crate::recovery::{
    begin_next, beginning, can_be_used, carries_target, recover_imported, recover_next, recovering,
    BeginView, CheckedRemoveView, PendingView, RecoverView, RecoveredView, ReportView,
    TransactionView, JOURNAL_VERSION,
};
use crate::vault::{import_next, importing, replacing, ImportView, ReplaceView};
use crate::vault_laws::{
    entry_is_settled, import_kept, is_entry_of, is_saved, lemma_import_kept, lemma_replace_kept,
    replace_kept, replace_machine,
};
use crate::world::{
    active, active_place, answered, content, is_look, is_tidy, leads, lemma_leads, opened,
    performed, plain_draft, recorded, same_processes, seeing_world, switch_draft, World,
};

verus! {

/// The machine that records an update.
pub open spec fn begin_machine() -> spec_fn(
    BeginView,
    EventView,
) -> StepView<ActionView, BeginView, ()> {
    |machine: BeginView, event: EventView| begin_next(machine, event)
}

/// The machine that recovers from a recorded update.
pub open spec fn recover_machine() -> spec_fn(
    RecoverView,
    EventView,
) -> StepView<ActionView, RecoverView, RecoveredView> {
    |machine: RecoverView, event: EventView| recover_next(machine, event)
}

/// The update that `begin` records.
pub open spec fn update_of(
    codex_home: Seq<char>,
    target: Seq<u8>,
    target_id: Seq<char>,
    before: Option<Seq<u8>>,
) -> TransactionView {
    TransactionView {
        version: JOURNAL_VERSION,
        codex_home,
        target_id,
        target_hash: hex(sha256(target)),
        before,
    }
}

/// What holds of every step of recording an update.
spec fn begin_kept(
    start: World,
    update: TransactionView,
    step: StepView<ActionView, BeginView, ()>,
    world: World,
) -> bool {
    let rest = World {
        files: start.files,
        sealed: start.sealed,
        encoded: start.encoded,
        ..world
    };
    &&& rest == start
    &&& start.sealed.submap_of(world.sealed)
    &&& is_tidy(start) ==> is_tidy(world)
    &&& match step {
        StepView::Ask(action, BeginView::DataPath(t)) => world == start && t == update && action
            is CheckPath,
        StepView::Ask(action, BeginView::AuthPath(t)) => world == start && t == update && action
            is CheckPath,
        StepView::Ask(action, BeginView::Pending(t, pending)) => {
            &&& world == start
            &&& t == update
            &&& match pending {
                PendingView::Path => action is CheckPath,
                PendingView::Present => action == ActionView::Exists(PlaceView::Journal),
            }
        },
        StepView::Ask(action, BeginView::Encoded) => {
            &&& world == start
            &&& content(start, PlaceView::Journal) is None
            &&& action == ActionView::Encode(update)
        },
        StepView::Ask(action, BeginView::Sealed) => {
            &&& world.files == start.files
            &&& content(start, PlaceView::Journal) is None
            &&& match action {
                ActionView::Seal(bytes) => world.encoded.contains_key(bytes)
                    && world.encoded[bytes] == update,
                _ => false,
            }
        },
        StepView::Ask(action, BeginView::Written) => {
            &&& world.files == start.files
            &&& content(start, PlaceView::Journal) is None
            &&& match action {
                ActionView::Write(place, sealed) => {
                    &&& place == PlaceView::Journal
                    &&& world.sealed.contains_key(sealed)
                    &&& world.encoded.contains_key(world.sealed[sealed])
                    &&& world.encoded[world.sealed[sealed]] == update
                },
                _ => false,
            }
        },
        StepView::Done(Ok(_)) => {
            &&& recorded(world) == Some(update)
            &&& content(start, PlaceView::Journal) is None
            &&& world.files == start.files.insert(
                PlaceView::Journal,
                world.files[PlaceView::Journal],
            )
        },
        StepView::Done(Err(_)) => world.files == start.files,
    }
}

/// Every answer keeps what holds of recording an update.
proof fn lemma_begin_kept(
    start: World,
    update: TransactionView,
    action: ActionView,
    machine: BeginView,
    world: World,
    event: EventView,
    after: World,
)
    requires
        begin_kept(start, update, StepView::Ask(action, machine), world),
        performed(world, action, event, after),
        is_look(action) ==> answered(action, event),
    ensures
        begin_kept(start, update, begin_next(machine, event), after),
{
    match machine {
        BeginView::Written => {
            assert(plain_draft(action->Write_0) is None);
            if event is Done {
                let sealed = action->Write_1;
                assert(after.files[PlaceView::Journal] == sealed);
                assert(recorded(after) == Some(update));
            }
        },
        _ => {},
    }
}

/// Recording an update writes it, sealed, where nothing was recorded, and touches no other file;
/// where an update is recorded already it is refused, and that record stays.
pub proof fn law_update_is_recorded_sealed(
    start: World,
    codex_home: Seq<char>,
    target: Seq<u8>,
    target_id: Seq<char>,
    before: Option<Seq<u8>>,
    history: Seq<(EventView, World)>,
    end: StepView<ActionView, BeginView, ()>,
    after: World,
)
    requires
        leads(
            seeing_world(),
            begin_machine(),
            beginning(codex_home, target, target_id, before),
            start,
            history,
            end,
            after,
        ),
    ensures
        is_tidy(start) ==> is_tidy(after),
        forall|place: PlaceView|
            place != PlaceView::Journal ==> #[trigger] content(after, place) == content(
                start,
                place,
            ),
        content(start, PlaceView::Journal) is Some ==> content(after, PlaceView::Journal)
            == content(start, PlaceView::Journal) && !(end matches StepView::Done(Ok(_))),
        end matches StepView::Done(Ok(_)) ==> recorded(after) == Some(
            update_of(codex_home, target, target_id, before),
        ),
{
    let update = update_of(codex_home, target, target_id, before);
    let kept = |step: StepView<ActionView, BeginView, ()>, world: World|
        begin_kept(start, update, step, world);
    assert forall|
        action: ActionView,
        machine: BeginView,
        here: World,
        event: EventView,
        there: World,
    |
        kept(StepView::Ask(action, machine), here) && #[trigger] seeing_world()(
            here,
            action,
            event,
            there,
        ) implies kept(#[trigger] begin_machine()(machine, event), there) by {
        lemma_begin_kept(start, update, action, machine, here, event, there);
    }
    lemma_leads(
        seeing_world(),
        begin_machine(),
        kept,
        beginning(codex_home, target, target_id, before),
        start,
        history,
        end,
        after,
    );
}

/// Whether a recorded update is one that this hub can recover from.
pub open spec fn is_known_update(update: TransactionView, home: Seq<char>) -> bool {
    update.version == JOURNAL_VERSION && update.codex_home == home
}

/// Whether the login of before a recorded update is to be put back: what is in use is neither that
/// login nor the new one nor any other that can be used.
pub open spec fn is_to_be_restored(update: TransactionView, current: Option<Seq<u8>>) -> bool {
    &&& current != update.before
    &&& !carries_target(update, current)
    &&& !can_be_used(current)
    &&& can_be_used(update.before)
}

/// Whether no file differs but the credentials in use, the draft of them, the record, and what the
/// vault has for the account that is in use.
pub open spec fn differs_in_recovery(start: World, world: World) -> bool {
    &&& same_processes(start, world)
    &&& world.encoded == start.encoded
    &&& start.sealed.submap_of(world.sealed)
    &&& forall|place: PlaceView|
        #![trigger content(world, place)]
        #![trigger content(start, place)]
        place != active_place() && place != switch_draft() && place != PlaceView::Journal
            && !is_entry_of(place, active(start)) ==> content(world, place) == content(start, place)
    &&& is_tidy(start) ==> is_tidy(world)
}

/// Whether the credentials in use are what a recovery may leave.
pub open spec fn login_is_recovered(start: World, home: Seq<char>, world: World) -> bool {
    active(world) == active(start) || (recorded(start) matches Some(update) && is_known_update(
        update,
        home,
    ) && is_to_be_restored(update, active(start)) && active(world) == update.before)
}

/// Whether a recorded update is settled: the login that is to be there is in use, and what took
/// effect is in the vault.
pub open spec fn is_settled(start: World, update: TransactionView, world: World) -> bool {
    &&& if is_to_be_restored(update, active(start)) {
        active(world) == update.before
    } else {
        active(world) == active(start)
    }
    &&& active(start) != update.before && carries_target(update, active(start)) ==> {
        &&& active(start) is Some
        &&& exists|id: Seq<char>| #[trigger] is_saved(world, id, active(start)->Some_0)
    }
}

/// What holds of every step of recovering from a recorded update.
pub open spec fn recover_kept(
    start: World,
    home: Seq<char>,
    step: StepView<ActionView, RecoverView, RecoveredView>,
    world: World,
) -> bool {
    let journal = PlaceView::Journal;
    let update = recorded(start)->Some_0;
    let known = recorded(start) is Some && is_known_update(update, home);
    let current = active(start);
    let untouched = content(world, journal) == content(start, journal);
    &&& differs_in_recovery(start, world)
    &&& entry_is_settled(start, world, active(start))
    &&& login_is_recovered(start, home, world)
    &&& content(start, journal) is None ==> world == start
    &&& match step {
        StepView::Ask(action, RecoverView::Path { home: h, .. }) => world == start && h == home
            && action is CheckPath,
        StepView::Ask(action, RecoverView::Present { home: h, .. }) => world == start && h == home
            && action == ActionView::Exists(journal),
        StepView::Ask(action, RecoverView::Sealed { home: h, .. }) => world == start && h == home
            && content(start, journal) is Some && action == ActionView::Read(journal),
        StepView::Ask(action, RecoverView::Opened { home: h, .. }) => world == start && h == home
            && content(start, journal) is Some && action == ActionView::Unseal(
            content(start, journal)->Some_0,
        ),
        StepView::Ask(action, RecoverView::Decoded { home: h, .. }) => world == start && h == home
            && opened(start, journal) is Some && action == ActionView::Decode(
            opened(start, journal)->Some_0,
        ),
        StepView::Ask(action, RecoverView::AuthPath { transaction, .. }) => world == start && known
            && transaction == update && action is CheckPath,
        StepView::Ask(action, RecoverView::Current { transaction, .. }) => world == start && known
            && transaction == update && action == ActionView::Read(active_place()),
        StepView::Ask(action, RecoverView::Import { import, .. }) => {
            &&& known
            &&& current != update.before
            &&& carries_target(update, current)
            &&& untouched
            &&& import_kept(
                start,
                HomeView::Active,
                None,
                None,
                StepView::Ask(action, import),
                world,
            )
        },
        StepView::Ask(action, RecoverView::Confirmed { before, current: c, .. }) => {
            &&& world == start
            &&& known
            &&& is_to_be_restored(update, current)
            &&& update.before == Some(before)
            &&& c == current
            &&& action == ActionView::Read(active_place())
        },
        StepView::Ask(action, RecoverView::Written { before, .. }) => {
            &&& world == start
            &&& known
            &&& is_to_be_restored(update, current)
            &&& update.before == Some(before)
            &&& action == ActionView::ReplaceActive(before)
        },
        StepView::Ask(action, RecoverView::Verified { before, .. }) => {
            &&& untouched
            &&& known
            &&& is_to_be_restored(update, current)
            &&& update.before == Some(before)
            &&& active(world) == update.before
            &&& action == ActionView::Read(active_place())
        },
        StepView::Ask(action, RecoverView::Finish { remove, .. }) => {
            &&& untouched
            &&& known
            &&& is_settled(start, update, world)
            &&& match remove {
                CheckedRemoveView::Path(place) => place == journal && action is CheckPath,
                CheckedRemoveView::Removed => action == ActionView::Remove(journal),
            }
        },
        StepView::Done(Ok(recovered)) => match recovered.error {
            Some(_) => untouched,
            None => content(world, journal) is None && (content(start, journal) is Some ==> known
                && is_settled(start, update, world)),
        },
        StepView::Done(Err(_)) => false,
    }
}

/// Goes on from an import that is part of a recovery.
proof fn lemma_recover_import(
    start: World,
    home: Seq<char>,
    report: ReportView,
    step: StepView<ActionView, ImportView, SavedAccountView>,
    world: World,
)
    requires
        recorded(start) is Some,
        is_known_update(recorded(start)->Some_0, home),
        active(start) != recorded(start)->Some_0.before,
        carries_target(recorded(start)->Some_0, active(start)),
        import_kept(start, HomeView::Active, None, None, step, world),
    ensures
        recover_kept(start, home, recover_imported(report, step), world),
{
    let auth = active(start);
    assert(content(world, PlaceView::Journal) == content(start, PlaceView::Journal));
    assert(content(world, active_place()) == content(start, active_place()));
    assert(differs_in_recovery(start, world));
    if let StepView::Done(Ok(saved)) = step {
        assert(is_saved(world, saved.id, auth->Some_0));
        assert(is_settled(start, recorded(start)->Some_0, world));
    }
}

/// What the vault has stays settled as long as it is not touched.
pub proof fn lemma_entry_stays(
    start: World,
    auth: Option<Seq<u8>>,
    world: World,
    after: World,
)
    requires
        entry_is_settled(start, world, auth),
        world.sealed.submap_of(after.sealed),
        forall|id: Seq<char>| #[trigger]
            content(after, PlaceView::Vault(id)) == content(world, PlaceView::Vault(id)),
    ensures
        entry_is_settled(start, after, auth),
{
    assert forall|id: Seq<char>|
        #![trigger content(after, PlaceView::Vault(id))]
        is_entry_of(PlaceView::Vault(id), auth) implies content(after, PlaceView::Vault(id))
        == content(start, PlaceView::Vault(id)) || opened(after, PlaceView::Vault(id)) == auth by {
        let entry = PlaceView::Vault(id);
        assert(content(after, entry) == content(world, entry));
        if content(world, entry) != content(start, entry) {
            assert(opened(world, entry) == auth);
            assert(world.sealed.dom().contains(world.files[entry]));
        }
    }
}

/// Every answer keeps what holds of recovering from a recorded update.
pub proof fn lemma_recover_kept(
    start: World,
    home: Seq<char>,
    action: ActionView,
    machine: RecoverView,
    world: World,
    event: EventView,
    after: World,
)
    requires
        recover_kept(start, home, StepView::Ask(action, machine), world),
        performed(world, action, event, after),
        is_look(action) ==> answered(action, event),
    ensures
        recover_kept(start, home, recover_next(machine, event), after),
{
    let update = recorded(start)->Some_0;
    match machine {
        RecoverView::Import { report, import } => {
            lemma_import_kept(
                start,
                HomeView::Active,
                None,
                None,
                action,
                import,
                world,
                event,
                after,
            );
            lemma_recover_import(start, home, report, import_next(import, event), after);
        },
        RecoverView::Current { transaction, report } => {
            if let Ok(current) = auth_reply(event) {
                if current != update.before && carries_target(update, current) {
                    lemma_recover_import(
                        start,
                        home,
                        report,
                        importing(HomeView::Active, None, None),
                        after,
                    );
                }
            }
        },
        RecoverView::Written { .. } => {
            lemma_entry_stays(start, active(start), world, after);
        },
        RecoverView::Finish { report, remove } => {
            lemma_entry_stays(start, active(start), world, after);
            if after != world && is_settled(start, update, world) {
                assert(is_settled(start, update, after)) by {
                    if active(start) != update.before && carries_target(update, active(start)) {
                        let id = choose|id: Seq<char>|
                            is_saved(world, id, active(start)->Some_0);
                        assert(is_saved(after, id, active(start)->Some_0));
                    }
                }
            }
        },
        _ => {},
    }
}

/// A recovery from a recorded update, wherever it is interrupted: a login that can be used is
/// never replaced; one that cannot is replaced only by the login of before the update. If it ends
/// without an error nothing is recorded any more, and the update is settled: what took effect is
/// in the vault, and a login that was lost is put back. If it ends with one the record stays, so
/// that it can be tried again. What the vault has for an account changes only to the login in use,
/// if that is the account's. Where nothing is recorded nothing is changed.
pub proof fn law_recovery_settles_or_keeps_record(
    start: World,
    home: Seq<char>,
    report: ReportView,
    history: Seq<(EventView, World)>,
    end: StepView<ActionView, RecoverView, RecoveredView>,
    after: World,
)
    requires
        leads(
            seeing_world(),
            recover_machine(),
            recovering(home, report),
            start,
            history,
            end,
            after,
        ),
    ensures
        differs_in_recovery(start, after),
        entry_is_settled(start, after, active(start)),
        content(start, PlaceView::Journal) is None ==> after == start,
        login_is_recovered(start, home, after),
        can_be_used(active(start)) ==> active(after) == active(start),
        match end {
            StepView::Done(Ok(recovered)) => match recovered.error {
                Some(_) => content(after, PlaceView::Journal) == content(
                    start,
                    PlaceView::Journal,
                ),
                None => content(after, PlaceView::Journal) is None && (content(
                    start,
                    PlaceView::Journal,
                ) is Some ==> recorded(start) is Some && is_known_update(
                    recorded(start)->Some_0,
                    home,
                ) && is_settled(start, recorded(start)->Some_0, after)),
            },
            StepView::Done(Err(_)) => false,
            StepView::Ask(_, _) => true,
        },
{
    let kept = |step: StepView<ActionView, RecoverView, RecoveredView>, world: World|
        recover_kept(start, home, step, world);
    assert forall|
        action: ActionView,
        machine: RecoverView,
        here: World,
        event: EventView,
        there: World,
    |
        kept(StepView::Ask(action, machine), here) && #[trigger] seeing_world()(
            here,
            action,
            event,
            there,
        ) implies kept(#[trigger] recover_machine()(machine, event), there) by {
        lemma_recover_kept(start, home, action, machine, here, event, there);
    }
    lemma_leads(
        seeing_world(),
        recover_machine(),
        kept,
        recovering(home, report),
        start,
        history,
        end,
        after,
    );
}

/// An update of the login in use is recorded, sealed, before it is made, and the record stays as
/// long as the update is under way, and where it failed and could not be undone. Where another
/// update is recorded already, none is made, and that record stays.
pub proof fn law_update_is_recorded_while_it_is_made(
    start: World,
    home: Seq<char>,
    target: Seq<u8>,
    id: Seq<char>,
    same_account: bool,
    history: Seq<(EventView, World)>,
    end: StepView<ActionView, ReplaceView, ()>,
    after: World,
)
    requires
        leads(
            seeing_world(),
            replace_machine(),
            replacing(home, target, id, same_account),
            start,
            history,
            end,
            after,
        ),
    ensures
        is_tidy(start) ==> is_tidy(after),
        active(after) == active(start) || active(after) == Some(target),
        active(after) != active(start) ==> recorded(after) == Some(
            update_of(home, target, id, active(start)),
        ) || (end matches StepView::Done(Ok(_))),
        content(start, PlaceView::Journal) is Some ==> {
            &&& content(after, PlaceView::Journal) == content(start, PlaceView::Journal)
            &&& active(after) == active(start)
            &&& end matches StepView::Done(Ok(_)) ==> active(start) == Some(target)
        },
        content(start, PlaceView::Journal) is None ==> content(after, PlaceView::Journal) is None
            || recorded(after) == Some(update_of(home, target, id, active(start))),
{
    let kept = |step: StepView<ActionView, ReplaceView, ()>, world: World|
        replace_kept(start, home, false, true, target, id, step, world);
    assert forall|
        action: ActionView,
        machine: ReplaceView,
        here: World,
        event: EventView,
        there: World,
    |
        kept(StepView::Ask(action, machine), here) && #[trigger] seeing_world()(
            here,
            action,
            event,
            there,
        ) implies kept(#[trigger] replace_machine()(machine, event), there) by {
        lemma_replace_kept(
            start,
            home,
            false,
            true,
            target,
            id,
            action,
            machine,
            here,
            event,
            there,
        );
    }
    lemma_leads(
        seeing_world(),
        replace_machine(),
        kept,
        replacing(home, target, id, same_account),
        start,
        history,
        end,
        after,
    );
}

/// An update of the login in use that was interrupted at any point is recovered from: if the
/// recovery ends without an error, the login in use is the one of before or the new one, nothing
/// is recorded any more, and if the new one is in use and its update was not over, the vault has
/// it.
pub proof fn law_interrupted_update_is_recovered(
    start: World,
    home: Seq<char>,
    target: Seq<u8>,
    id: Seq<char>,
    same_account: bool,
    replaces: Seq<(EventView, World)>,
    interrupted: StepView<ActionView, ReplaceView, ()>,
    between: World,
    report: ReportView,
    recovers: Seq<(EventView, World)>,
    recovered: RecoveredView,
    after: World,
)
    requires
        content(start, PlaceView::Journal) is None,
        leads(
            seeing_world(),
            replace_machine(),
            replacing(home, target, id, same_account),
            start,
            replaces,
            interrupted,
            between,
        ),
        leads(
            seeing_world(),
            recover_machine(),
            recovering(home, report),
            between,
            recovers,
            StepView::Done(Ok(recovered)),
            after,
        ),
        recovered.error is None,
    ensures
        active(after) == active(start) || active(after) == Some(target),
        content(after, PlaceView::Journal) is None,
        active(after) != active(start) && !(interrupted matches StepView::Done(Ok(_))) ==> exists|
            id: Seq<char>,
        | #[trigger] is_saved(after, id, target),
{
    law_update_is_recorded_while_it_is_made(
        start,
        home,
        target,
        id,
        same_account,
        replaces,
        interrupted,
        between,
    );
    law_recovery_settles_or_keeps_record(
        between,
        home,
        report,
        recovers,
        StepView::Done(Ok(recovered)),
        after,
    );
}

} // verus!
