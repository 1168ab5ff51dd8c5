//! What holds of the backups: how many there are, and which.

use vstd::prelude::*;

use crate::backups::{
    follows, is_sealed_name, law_newest_backups_stay, lemma_sealed_is_ranked, outdated,
    ranked_backups, retained, MAX_SWITCH_BACKUPS,
};
use crate::effects::{names_of, present, ActionView, EventView, PlaceView, StepView};
use crate::vault::{
    prune_next, prune_rest, pruning, replace_next, replacing, ExchangeView, PruneView, ReplaceView,
};
use crate::vault_laws::{lemma_replace_kept, replace_kept, replace_machine};
use crate::world::{
    active, answered, content, is_look, is_under, leads, lemma_leads, performed, World,
};

verus! {

/// The machine that removes old backups.
pub open spec fn prune_machine() -> spec_fn(
    PruneView,
    EventView,
) -> StepView<ActionView, PruneView, ()> {
    |machine: PruneView, event: EventView| prune_next(machine, event)
}

/// How actions change a world in which anything may fail but looking whether a file is there and
/// listing a directory.
pub open spec fn surveyed_world() -> spec_fn(World, ActionView, EventView, World) -> bool {
    |before: World, action: ActionView, event: EventView, after: World|
        performed(before, action, event, after) && (is_survey(action) ==> answered(action, event))
}

/// Whether an action looks whether a file is there or lists a directory.
pub open spec fn is_survey(action: ActionView) -> bool {
    is_look(action) || action is List
}

/// Whether there is a sealed backup of this name.
pub open spec fn has_backup(world: World, name: Seq<char>) -> bool {
    is_sealed_name(name) && content(world, PlaceView::Backup(name)) is Some
}

/// The names of the sealed backups.
pub open spec fn sealed_backups(world: World) -> Set<Seq<char>> {
    Set::new(|name: Seq<char>| has_backup(world, name))
}

/// Whether there are so many sealed backups at most.
pub open spec fn has_few_backups(world: World, keep: usize) -> bool {
    sealed_backups(world).finite() && sealed_backups(world).len() <= keep
}

/// Whether no file differs but backups that are gone.
pub open spec fn differs_in_old_backups(start: World, world: World) -> bool {
    &&& world == World { files: world.files, ..start }
    &&& forall|place: PlaceView|
        #![trigger content(world, place)]
        #![trigger content(start, place)]
        content(world, place) == content(start, place) || (place matches PlaceView::Backup(name)
            && is_sealed_name(name) && content(world, place) is None)
}

/// Whether no backup that is gone came after one that is left.
pub open spec fn newest_are_left(start: World, world: World) -> bool {
    forall|gone: Seq<char>, left: Seq<char>|
        #![trigger has_backup(start, gone), has_backup(world, left)]
        has_backup(start, gone) && !has_backup(world, gone) && has_backup(world, left) ==> !follows(
            gone,
            left,
        )
}

/// Whether the backups that are left are among those to be kept and those still to be removed, and
/// those that are gone were to be removed.
spec fn is_pruned_to(
    start: World,
    keep: usize,
    names: Seq<Seq<char>>,
    doomed: Seq<Seq<char>>,
    world: World,
) -> bool {
    &&& forall|name: Seq<char>| #[trigger]
        has_backup(world, name) ==> retained(names, keep).contains(name) || doomed.contains(name)
    &&& forall|name: Seq<char>| #[trigger]
        has_backup(start, name) && !has_backup(world, name) ==> outdated(names, keep).contains(name)
    &&& forall|i: int|
        0 <= i < doomed.len() ==> is_sealed_name(#[trigger] doomed[i]) && outdated(
            names,
            keep,
        ).contains(doomed[i])
}

/// A removal of old backups is under way.
spec fn prune_under_way(
    start: World,
    keep: usize,
    doomed: Seq<Seq<char>>,
    world: World,
) -> bool {
    exists|names: Seq<Seq<char>>| #[trigger] is_pruned_to(start, keep, names, doomed, world)
}

/// What holds of every step of a removal of old backups.
spec fn survey_kept(
    start: World,
    keep: usize,
    step: StepView<ActionView, PruneView, ()>,
    world: World,
) -> bool {
    &&& differs_in_old_backups(start, world)
    &&& match step {
        StepView::Ask(action, PruneView::Present { keep: k }) => k == keep && world == start
            && action == ActionView::Exists(PlaceView::BackupDir),
        StepView::Ask(action, PruneView::Listed { keep: k }) => k == keep && world == start
            && action == ActionView::List(PlaceView::BackupDir),
        StepView::Ask(action, PruneView::Removed { rest }) => match action {
            ActionView::Remove(PlaceView::Backup(first)) => prune_under_way(
                start,
                keep,
                seq![first] + rest,
                world,
            ),
            _ => false,
        },
        StepView::Done(Ok(_)) => has_few_backups(world, keep) && newest_are_left(start, world),
        StepView::Done(Err(_)) => true,
    }
}

/// Goes on to the backups that are still to be removed.
proof fn lemma_prune_rest(
    start: World,
    keep: usize,
    names: Seq<Seq<char>>,
    doomed: Seq<Seq<char>>,
    world: World,
)
    requires
        differs_in_old_backups(start, world),
        is_pruned_to(start, keep, names, doomed, world),
    ensures
        survey_kept(start, keep, prune_rest(doomed), world),
{
    if doomed.len() > 0 {
        assert(seq![doomed[0]] + doomed.drop_first() =~= doomed);
        assert(prune_under_way(start, keep, doomed, world));
    } else {
        let kept = retained(names, keep);
        law_newest_backups_stay(names, keep);
        assert(sealed_backups(world).subset_of(kept.to_set())) by {
            assert forall|name: Seq<char>| sealed_backups(world).contains(name) implies
                kept.to_set().contains(name) by {
                assert(has_backup(world, name));
            }
        }
        vstd::seq_lib::seq_to_set_is_finite(kept);
        kept.lemma_cardinality_of_set();
        vstd::set_lib::lemma_len_subset(sealed_backups(world), kept.to_set());
        assert forall|gone: Seq<char>, left: Seq<char>|
            #![trigger has_backup(start, gone), has_backup(world, left)]
            has_backup(start, gone) && !has_backup(world, gone) && has_backup(
                world,
                left,
            ) implies !follows(gone, left) by {
            let removed = outdated(names, keep);
            let i = choose|i: int| 0 <= i < kept.len() && kept[i] == left;
            let j = choose|j: int| 0 <= j < removed.len() && removed[j] == gone;
            assert(!follows(removed[j], kept[i]));
        }
    }
}

/// Every answer keeps what holds of a removal of old backups.
proof fn lemma_survey_kept(
    start: World,
    keep: usize,
    action: ActionView,
    machine: PruneView,
    world: World,
    event: EventView,
    after: World,
)
    requires
        survey_kept(start, keep, StepView::Ask(action, machine), world),
        performed(world, action, event, after),
        is_survey(action) ==> answered(action, event),
    ensures
        survey_kept(start, keep, prune_next(machine, event), after),
{
    match machine {
        PruneView::Present { .. } => {
            if !present(event) {
                assert forall|name: Seq<char>| !sealed_backups(after).contains(name) by {
                    assert(is_under(PlaceView::Backup(name), PlaceView::BackupDir));
                }
                assert(sealed_backups(after) =~= Set::empty());
            }
        },
        PruneView::Listed { .. } => {
            if let EventView::Names(entries) = event {
                let names = names_of(entries);
                let doomed = outdated(names, keep);
                law_newest_backups_stay(names, keep);
                assert forall|name: Seq<char>| #[trigger] has_backup(after, name) implies retained(
                    names,
                    keep,
                ).contains(name) || doomed.contains(name) by {
                    assert(world.files.contains_key(PlaceView::Backup(name)));
                    assert(names.contains(name));
                    lemma_sealed_is_ranked(names, name);
                    let ranked = ranked_backups(names);
                    let i = choose|i: int| 0 <= i < ranked.len() && ranked[i] == name;
                    if i < retained(names, keep).len() {
                        assert(retained(names, keep)[i] == name);
                    } else {
                        assert(doomed[i - keep] == name);
                    }
                }
                assert(is_pruned_to(start, keep, names, doomed, after));
                lemma_prune_rest(start, keep, names, doomed, after);
            }
        },
        PruneView::Removed { rest } => {
            let first = action->Remove_0->Backup_0;
            let all = seq![first] + rest;
            let names = choose|names: Seq<Seq<char>>|
                is_pruned_to(start, keep, names, all, world);
            assert(is_sealed_name(all[0]));
            assert(differs_in_old_backups(start, after));
            if event is Done {
                assert(is_pruned_to(start, keep, names, rest, after)) by {
                    assert forall|name: Seq<char>| #[trigger] has_backup(after, name) implies
                        retained(names, keep).contains(name) || rest.contains(name) by {
                        assert(has_backup(world, name));
                        if all.contains(name) {
                            let i = choose|i: int| 0 <= i < all.len() && all[i] == name;
                            assert(name != first);
                            assert(rest[i - 1] == name);
                        }
                    }
                    assert forall|name: Seq<char>| #[trigger]
                        has_backup(start, name) && !has_backup(after, name) implies outdated(
                        names,
                        keep,
                    ).contains(name) by {
                        if has_backup(world, name) {
                            assert(name == all[0]);
                        }
                    }
                    assert forall|i: int| 0 <= i < rest.len() implies is_sealed_name(
                        #[trigger] rest[i],
                    ) && outdated(names, keep).contains(rest[i]) by {
                        assert(all[i + 1] == rest[i]);
                    }
                }
                lemma_prune_rest(start, keep, names, rest, after);
            }
        },
    }
}

/// Removing old backups removes nothing else. If it succeeds, there are as many sealed backups as
/// are to be kept at most, and none that is gone came after one that is left.
pub proof fn law_old_backups_are_removed(
    start: World,
    keep: usize,
    history: Seq<(EventView, World)>,
    end: StepView<ActionView, PruneView, ()>,
    after: World,
)
    requires
        leads(surveyed_world(), prune_machine(), pruning(keep), start, history, end, after),
    ensures
        differs_in_old_backups(start, after),
        end matches StepView::Done(Ok(_)) ==> has_few_backups(after, keep) && newest_are_left(
            start,
            after,
        ),
{
    let kept = |step: StepView<ActionView, PruneView, ()>, world: World|
        survey_kept(start, keep, step, world);
    assert forall|
        action: ActionView,
        machine: PruneView,
        here: World,
        event: EventView,
        there: World,
    |
        kept(StepView::Ask(action, machine), here) && #[trigger] surveyed_world()(
            here,
            action,
            event,
            there,
        ) implies kept(#[trigger] prune_machine()(machine, event), there) by {
        lemma_survey_kept(start, keep, action, machine, here, event, there);
    }
    lemma_leads(
        surveyed_world(),
        prune_machine(),
        kept,
        pruning(keep),
        start,
        history,
        end,
        after,
    );
}

/// A removal of old backups is part of a replacement that is under way.
spec fn prune_in_exchange(
    middle: World,
    action: ActionView,
    prune: PruneView,
    world: World,
) -> bool {
    survey_kept(middle, MAX_SWITCH_BACKUPS, StepView::Ask(action, prune), world)
}

/// What holds of the number of backups at every step of a replacement.
spec fn few_kept(
    start: World,
    codex_home: Seq<char>,
    target: Seq<u8>,
    id: Seq<char>,
    step: StepView<ActionView, ReplaceView, ()>,
    world: World,
) -> bool {
    let few = active(start) is Some ==> has_few_backups(world, MAX_SWITCH_BACKUPS);
    &&& replace_kept(start, codex_home, false, false, target, id, step, world)
    &&& match step {
        StepView::Ask(action, ReplaceView::Pruned(_, prune)) => exists|middle: World| #[trigger]
            prune_in_exchange(middle, action, prune, world),
        StepView::Ask(_, ReplaceView::Recorded(_, _)) => few,
        StepView::Ask(_, ReplaceView::Confirmed(_)) => few,
        StepView::Ask(_, ReplaceView::Written(_)) => few,
        StepView::Ask(_, ReplaceView::Verified(_)) => few,
        StepView::Ask(_, ReplaceView::Restored(_)) => few,
        StepView::Ask(_, ReplaceView::Ended { .. }) => few,
        StepView::Ask(_, _) => world.files == start.files,
        StepView::Done(Ok(_)) => few || active(start) == Some(target),
        StepView::Done(Err(_)) => true,
    }
}

/// A file that is no backup changes nothing in their number.
proof fn lemma_same_backups(start: World, world: World)
    requires
        forall|name: Seq<char>| #[trigger]
            content(world, PlaceView::Backup(name)) == content(start, PlaceView::Backup(name)),
    ensures
        sealed_backups(world) == sealed_backups(start),
{
    assert forall|name: Seq<char>| sealed_backups(world).contains(name) == sealed_backups(
        start,
    ).contains(name) by {
        assert(content(world, PlaceView::Backup(name)) == content(start, PlaceView::Backup(name)));
    }
    assert(sealed_backups(world) =~= sealed_backups(start));
}

/// Every answer keeps what holds of the number of backups.
proof fn lemma_few_kept(
    start: World,
    codex_home: Seq<char>,
    target: Seq<u8>,
    id: Seq<char>,
    action: ActionView,
    machine: ReplaceView,
    world: World,
    event: EventView,
    after: World,
)
    requires
        few_kept(start, codex_home, target, id, StepView::Ask(action, machine), world),
        performed(world, action, event, after),
        is_survey(action) ==> answered(action, event),
    ensures
        few_kept(start, codex_home, target, id, replace_next(machine, event), after),
{
    lemma_replace_kept(
        start,
        codex_home,
        false,
        false,
        target,
        id,
        action,
        machine,
        world,
        event,
        after,
    );
    match machine {
        ReplaceView::BackedUp(_) => {
            let next = pruning(MAX_SWITCH_BACKUPS);
            assert(prune_in_exchange(after, next->Ask_0, next->Ask_1, after));
        },
        ReplaceView::Pruned(_, prune) => {
            let middle = choose|middle: World| prune_in_exchange(middle, action, prune, world);
            lemma_survey_kept(
                middle,
                MAX_SWITCH_BACKUPS,
                action,
                prune,
                world,
                event,
                after,
            );
            if let StepView::Ask(next, rest) = prune_next(prune, event) {
                assert(prune_in_exchange(middle, next, rest, after));
            }
        },
        ReplaceView::Recorded(_, _)
        | ReplaceView::Ended { .. }
        | ReplaceView::Confirmed(_)
        | ReplaceView::Written(_)
        | ReplaceView::Verified(_)
        | ReplaceView::Restored(_) => {
            lemma_same_backups(world, after);
        },
        _ => {},
    }
}

/// What holds of the number of backups holds at every step that is reached.
proof fn lemma_few_leads(
    start: World,
    codex_home: Seq<char>,
    target: Seq<u8>,
    id: Seq<char>,
    step: StepView<ActionView, ReplaceView, ()>,
    world: World,
    history: Seq<(EventView, World)>,
    end: StepView<ActionView, ReplaceView, ()>,
    after: World,
)
    requires
        few_kept(start, codex_home, target, id, step, world),
        leads(surveyed_world(), replace_machine(), step, world, history, end, after),
    ensures
        few_kept(start, codex_home, target, id, end, after),
{
    let kept = |step: StepView<ActionView, ReplaceView, ()>, world: World|
        few_kept(start, codex_home, target, id, step, world);
    assert forall|
        action: ActionView,
        machine: ReplaceView,
        here: World,
        event: EventView,
        there: World,
    |
        kept(StepView::Ask(action, machine), here) && #[trigger] surveyed_world()(
            here,
            action,
            event,
            there,
        ) implies kept(#[trigger] replace_machine()(machine, event), there) by {
        lemma_few_kept(start, codex_home, target, id, action, machine, here, event, there);
    }
    lemma_leads(surveyed_world(), replace_machine(), kept, step, world, history, end, after);
}

/// Once the credentials in use were replaced by others, there are five backups at most.
pub proof fn law_replacement_bounds_the_backups(
    start: World,
    codex_home: Seq<char>,
    target: Seq<u8>,
    id: Seq<char>,
    same_account: bool,
    history: Seq<(EventView, World)>,
    after: World,
)
    requires
        active(start) is Some,
        active(start) != Some(target),
        leads(
            surveyed_world(),
            replace_machine(),
            replacing(codex_home, target, id, same_account),
            start,
            history,
            StepView::Done(Ok(())),
            after,
        ),
    ensures
        has_few_backups(after, MAX_SWITCH_BACKUPS),
{
    lemma_few_leads(
        start,
        codex_home,
        target,
        id,
        replacing(codex_home, target, id, same_account),
        start,
        history,
        StepView::Done(Ok(())),
        after,
    );
}

/// Whether the new credentials were written in a replacement that is under way or over.
pub open spec fn is_past_writing(step: StepView<ActionView, ReplaceView, ()>) -> bool {
    match step {
        StepView::Ask(_, ReplaceView::Verified(_)) => true,
        StepView::Ask(_, ReplaceView::Restored(_)) => true,
        StepView::Ask(_, ReplaceView::Ended { .. }) => true,
        StepView::Ask(_, _) => false,
        StepView::Done(_) => true,
    }
}

/// From the moment on at which the new credentials are written there are five backups at most,
/// whether they are accepted or not, and whether what was there before can be put back or not.
pub proof fn law_backups_stay_bounded_once_written(
    start: World,
    codex_home: Seq<char>,
    target: Seq<u8>,
    id: Seq<char>,
    same_account: bool,
    first: Seq<(EventView, World)>,
    action: ActionView,
    exchange: ExchangeView,
    written: World,
    second: Seq<(EventView, World)>,
    end: StepView<ActionView, ReplaceView, ()>,
    after: World,
)
    requires
        active(start) is Some,
        leads(
            surveyed_world(),
            replace_machine(),
            replacing(codex_home, target, id, same_account),
            start,
            first,
            StepView::Ask(action, ReplaceView::Verified(exchange)),
            written,
        ),
        leads(
            surveyed_world(),
            replace_machine(),
            StepView::Ask(action, ReplaceView::Verified(exchange)),
            written,
            second,
            end,
            after,
        ),
    ensures
        has_few_backups(written, MAX_SWITCH_BACKUPS),
        has_few_backups(after, MAX_SWITCH_BACKUPS),
{
    let middle = StepView::Ask(action, ReplaceView::Verified(exchange));
    lemma_few_leads(
        start,
        codex_home,
        target,
        id,
        replacing(codex_home, target, id, same_account),
        start,
        first,
        middle,
        written,
    );
    let kept = |step: StepView<ActionView, ReplaceView, ()>, world: World|
        few_kept(start, codex_home, target, id, step, world) && is_past_writing(step)
            && has_few_backups(world, MAX_SWITCH_BACKUPS);
    assert forall|
        action: ActionView,
        machine: ReplaceView,
        here: World,
        event: EventView,
        there: World,
    |
        kept(StepView::Ask(action, machine), here) && #[trigger] surveyed_world()(
            here,
            action,
            event,
            there,
        ) implies kept(#[trigger] replace_machine()(machine, event), there) by {
        lemma_few_kept(start, codex_home, target, id, action, machine, here, event, there);
        lemma_same_backups(here, there);
    }
    lemma_leads(surveyed_world(), replace_machine(), kept, middle, written, second, end, after);
}

} // verus!
