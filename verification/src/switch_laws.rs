//! What holds of a switch to a saved account as a whole.

use vstd::prelude::*;

use crate::accounts::{account_of, lemma_place_of, place_of};
use crate::backups::{backup_name, follows};
use crate::commands::{
    file_reply, switch_activated, switch_next, switching, SwitchActionView, SwitchEventView,
    SwitchOutcomeView, SwitchView,
};
use crate::credentials::usable_identity;
use crate::effects::{index_reply, ActionView, EventView, PlaceView, StepView};
use crate::index_laws::is_first_entry;
use crate::vault::{activate_next, activating, save_current_next, ActivateView, SaveCurrentView};
use crate::vault_laws::{
    activate_kept, clock_is_ahead, comes_last, differs_in_entry, differs_in_login, index_of,
    is_backed_up, is_backup, is_entry_of, is_other_login, is_saved, lemma_activate_kept,
    lemma_save_kept, save_kept, saved_auth,
};
use crate::world::{active, active_place, content, leads, lemma_leads, opened, performed, World};

verus! {

/// The machine of a switch.
pub open spec fn switch_machine() -> spec_fn(
    SwitchView,
    SwitchEventView,
) -> StepView<SwitchActionView, SwitchView, SwitchOutcomeView> {
    |machine: SwitchView, event: SwitchEventView| switch_next(machine, event)
}

/// How what a switch asks for changes the world: a restart of the application changes no file.
pub open spec fn switch_performed(
    before: World,
    action: SwitchActionView,
    event: SwitchEventView,
    after: World,
) -> bool {
    match action {
        SwitchActionView::Do(action) => performed(before, action, file_reply(event), after),
        SwitchActionView::Restart => after == before,
    }
}

/// How it does so where the clock is past the times of all backups.
pub open spec fn timely_switch(start: World) -> spec_fn(
    World,
    SwitchActionView,
    SwitchEventView,
    World,
) -> bool {
    |before: World, action: SwitchActionView, event: SwitchEventView, after: World|
        switch_performed(before, action, event, after) && clock_is_ahead(start, file_reply(event))
}

/// Whether the login that was in use, if it is usable and of another account, is in the vault.
pub open spec fn is_left_saved(start: World, world: World, id: Seq<char>) -> bool {
    is_other_login(start, id) ==> is_saved(
        world,
        usable_identity(active(start)->Some_0)->Ok_0,
        active(start)->Some_0,
    )
}

/// Whether the credentials of an account are in use, from the vault, and what was in use before is
/// among the backups and, if it is of another account, in the vault.
pub open spec fn is_switched(start: World, world: World, id: Seq<char>) -> bool {
    &&& active(world) is Some
    &&& active(world) == opened(world, PlaceView::Vault(id))
    &&& opened(start, PlaceView::Vault(id)) is Some ==> active(world) == opened(
        start,
        PlaceView::Vault(id),
    )
    &&& usable_identity(active(world)->Some_0) == Ok::<Seq<char>, Seq<char>>(id)
    &&& is_left_saved(start, world, id)
    &&& active(world) == active(start) || is_backed_up(start, world)
}

/// What holds throughout a switch: the login in use is the one of before or that of the account,
/// and what the vault has for the account does not change.
pub open spec fn switch_is_safe(start: World, world: World, id: Seq<char>) -> bool {
    &&& content(world, PlaceView::Vault(id)) == content(start, PlaceView::Vault(id))
    &&& active(world) == active(start) || is_switched(start, world, id)
}

/// The account is being activated after the one in use was saved.
spec fn switch_active(
    start: World,
    codex_home: Seq<char>,
    id: Seq<char>,
    step: StepView<ActionView, ActivateView, ()>,
    between: World,
    world: World,
) -> bool {
    &&& save_kept(start, id, StepView::Done(Ok(())), between)
    &&& activate_kept(between, codex_home, true, id, step, world)
}

/// The account is being activated after the one in use was saved.
spec fn switch_under_way(
    start: World,
    codex_home: Seq<char>,
    id: Seq<char>,
    step: StepView<ActionView, ActivateView, ()>,
    world: World,
) -> bool {
    exists|between: World| #[trigger] switch_active(start, codex_home, id, step, between, world)
}

/// What holds of every step of a switch.
spec fn switch_kept(
    start: World,
    codex_home: Seq<char>,
    id: Seq<char>,
    step: StepView<SwitchActionView, SwitchView, SwitchOutcomeView>,
    world: World,
) -> bool {
    &&& switch_is_safe(start, world, id)
    &&& match step {
        StepView::Ask(action, SwitchView::Save { id: i, codex_home: c, save, .. }) => {
            &&& i == id
            &&& c == codex_home
            &&& action matches SwitchActionView::Do(inner)
            &&& save_kept(start, id, StepView::Ask(inner, save), world)
        },
        StepView::Ask(action, SwitchView::Activate { id: i, activate, .. }) => {
            &&& i == id
            &&& action matches SwitchActionView::Do(inner)
            &&& switch_under_way(start, codex_home, id, StepView::Ask(inner, activate), world)
        },
        StepView::Ask(action, SwitchView::Index { id: i, .. }) => i == id && action
            == SwitchActionView::Do(ActionView::ReadIndex) && is_switched(start, world, id),
        StepView::Ask(action, SwitchView::Restart { account }) => action is Restart && account.id
            == id && is_switched(start, world, id) && account_of(index_of(world).accounts, id)
            == Some(account),
        StepView::Done(Ok(done)) => done.account.id == id && is_switched(start, world, id)
            && account_of(index_of(world).accounts, id) == Some(done.account),
        StepView::Done(Err(_)) => true,
    }
}

/// Saving the account in use is safe.
proof fn lemma_saving_is_safe(
    start: World,
    id: Seq<char>,
    step: StepView<ActionView, SaveCurrentView, ()>,
    world: World,
)
    requires
        save_kept(start, id, step, world),
    ensures
        content(world, PlaceView::Vault(id)) == content(start, PlaceView::Vault(id)),
        active(world) == active(start),
        start.sealed.submap_of(world.sealed),
        forall|name: Seq<char>| #[trigger]
            content(world, PlaceView::Backup(name)) == content(start, PlaceView::Backup(name)),
        step matches StepView::Done(Ok(_)) ==> is_left_saved(start, world, id),
{
    if world != start {
        assert(differs_in_entry(start, world, active(start)));
        assert(!is_entry_of(PlaceView::Vault(id), active(start)));
        assert(content(world, active_place()) == content(start, active_place()));
    }
}

/// Goes on with the activation.
proof fn lemma_switch_active(
    start: World,
    codex_home: Seq<char>,
    id: Seq<char>,
    restart: bool,
    step: StepView<ActionView, ActivateView, ()>,
    between: World,
    world: World,
)
    requires
        switch_active(start, codex_home, id, step, between, world),
    ensures
        switch_kept(start, codex_home, id, switch_activated(id, restart, step), world),
{
    let entry = PlaceView::Vault(id);
    assert(switch_under_way(start, codex_home, id, step, world));
    lemma_saving_is_safe(start, id, StepView::Done(Ok(())), between);
    assert(world == between || differs_in_login(between, world));
    assert(content(world, entry) == content(between, entry));
    if active(world) != active(start) || step matches StepView::Done(Ok(_)) {
        let target = saved_auth(between, id);
        assert(is_saved(between, id, target));
        assert(active(world) == Some(target));
        assert(opened(between, entry) == Some(target));
        assert(between.sealed.dom().contains(between.files[entry]));
        if opened(start, entry) is Some {
            assert(start.sealed.dom().contains(start.files[entry]));
        }
        if is_other_login(start, id) {
            let auth = active(start)->Some_0;
            let other = PlaceView::Vault(usable_identity(auth)->Ok_0);
            assert(content(world, other) == content(between, other));
            assert(between.sealed.dom().contains(between.files[other]));
        }
        if active(world) != active(start) {
            assert(is_backed_up(between, world));
            let auth = active(start);
            if auth is Some {
                let name = choose|name: Seq<char>| is_backup(between, world, name, auth->Some_0);
                assert(comes_last(start, name)) by {
                    assert forall|other: Seq<char>| #[trigger]
                        start.files.contains_key(PlaceView::Backup(other)) implies follows(
                        name,
                        other,
                    ) by {
                        assert(content(between, PlaceView::Backup(other)) == content(
                            start,
                            PlaceView::Backup(other),
                        ));
                        assert(between.files.contains_key(PlaceView::Backup(other)));
                    }
                }
                assert(is_backup(start, world, name, auth->Some_0));
            }
        }
    }
}

/// A clock that is past the backups of one world is past the same backups in another.
proof fn lemma_clock_stays_ahead(start: World, between: World, event: EventView)
    requires
        clock_is_ahead(start, event),
        forall|name: Seq<char>| #[trigger]
            content(between, PlaceView::Backup(name)) == content(start, PlaceView::Backup(name)),
    ensures
        clock_is_ahead(between, event),
{
    if let EventView::Time { seconds, nanos } = event {
        assert forall|owner: Seq<char>, name: Seq<char>|
            #![trigger backup_name(seconds, nanos, owner), between.files.contains_key(
                PlaceView::Backup(name),
            )]
            between.files.contains_key(PlaceView::Backup(name)) implies follows(
            backup_name(seconds, nanos, owner),
            name,
        ) by {
            assert(content(between, PlaceView::Backup(name)) == content(
                start,
                PlaceView::Backup(name),
            ));
            assert(start.files.contains_key(PlaceView::Backup(name)));
        }
    }
}

/// Every answer keeps what holds of a switch.
proof fn lemma_switch_kept(
    start: World,
    codex_home: Seq<char>,
    id: Seq<char>,
    action: SwitchActionView,
    machine: SwitchView,
    world: World,
    event: SwitchEventView,
    after: World,
)
    requires
        switch_kept(start, codex_home, id, StepView::Ask(action, machine), world),
        switch_performed(world, action, event, after),
        clock_is_ahead(start, file_reply(event)),
    ensures
        switch_kept(start, codex_home, id, switch_next(machine, event), after),
{
    let answer = file_reply(event);
    match machine {
        SwitchView::Save { restart, save, .. } => {
            let inner = action->Do_0;
            lemma_save_kept(start, id, inner, save, world, answer, after);
            let step = save_current_next(save, answer);
            lemma_saving_is_safe(start, id, step, after);
            if step matches StepView::Done(Ok(_)) {
                let next = activating(id, codex_home);
                assert(save_kept(start, id, StepView::Done(Ok(())), after));
                assert(activate_kept(after, codex_home, true, id, next, after));
                assert(switch_active(start, codex_home, id, next, after, after));
                lemma_switch_active(start, codex_home, id, restart, next, after, after);
            }
        },
        SwitchView::Activate { restart, activate, .. } => {
            let inner = action->Do_0;
            let between = choose|between: World|
                switch_active(
                    start,
                    codex_home,
                    id,
                    StepView::Ask(inner, activate),
                    between,
                    world,
                );
            lemma_saving_is_safe(start, id, StepView::Done(Ok(())), between);
            lemma_clock_stays_ahead(start, between, answer);
            lemma_activate_kept(
                between,
                codex_home,
                true,
                id,
                inner,
                activate,
                world,
                answer,
                after,
            );
            let step = activate_next(activate, answer);
            assert(switch_active(start, codex_home, id, step, between, after));
            lemma_switch_active(start, codex_home, id, restart, step, between, after);
        },
        SwitchView::Index { .. } => {
            if let Ok(index) = index_reply(answer) {
                lemma_place_of(index.accounts, id);
            }
        },
        SwitchView::Restart { .. } => {},
    }
}

/// A switch, whatever happens and wherever it is interrupted: the login in use is the one of
/// before, or that which the vault has for the account, and then the one of before is among the
/// backups, sealed, and in the vault, if it is usable and of another account. What the vault has
/// for the account that is switched to does not change. If the switch succeeds, the login of that
/// account is in use, and it tells the entry that the index has for it.
pub proof fn law_switch_keeps_both_accounts(
    start: World,
    codex_home: Seq<char>,
    id: Seq<char>,
    restart: bool,
    history: Seq<(SwitchEventView, World)>,
    end: StepView<SwitchActionView, SwitchView, SwitchOutcomeView>,
    after: World,
)
    requires
        leads(
            timely_switch(start),
            switch_machine(),
            switching(id, codex_home, restart),
            start,
            history,
            end,
            after,
        ),
    ensures
        switch_is_safe(start, after, id),
        end matches StepView::Done(Ok(done)) ==> done.account.id == id && is_switched(
            start,
            after,
            id,
        ),
        end matches StepView::Done(Ok(done)) ==> (after.index matches Some(index) && exists|at: int|
            #[trigger] is_first_entry(index.accounts, id, at) && index.accounts[at]
                == done.account),
{
    let kept = |step: StepView<SwitchActionView, SwitchView, SwitchOutcomeView>, world: World|
        switch_kept(start, codex_home, id, step, world);
    assert forall|
        action: SwitchActionView,
        machine: SwitchView,
        here: World,
        event: SwitchEventView,
        there: World,
    |
        kept(StepView::Ask(action, machine), here) && #[trigger] timely_switch(start)(
            here,
            action,
            event,
            there,
        ) implies kept(#[trigger] switch_machine()(machine, event), there) by {
        lemma_switch_kept(start, codex_home, id, action, machine, here, event, there);
    }
    lemma_leads(
        timely_switch(start),
        switch_machine(),
        kept,
        switching(id, codex_home, restart),
        start,
        history,
        end,
        after,
    );
    if let StepView::Done(Ok(done)) = end {
        let accounts = index_of(after).accounts;
        lemma_place_of(accounts, id);
        assert(is_first_entry(accounts, id, place_of(accounts, id)->Some_0));
    }
}

} // verus!
