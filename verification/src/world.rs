//! The world as the procedures see it, and what a run of one does to it.
//!
//! Nothing here is executed. A `World` says what the files hold; `performed` says how an action
//! and the event that answers it change it, whatever goes wrong; `leads` says that a machine,
//! answered by such events, gets to a step.

use vstd::prelude::*;

use crate::accounts::AccountIndexView;
use crate::backups::is_sealed_name;
use crate::child_process::{ChildRecordView, IdentityView};
use crate::effects::{
    names_of, ActionView, EntryView, EventView, HomeFile, HomeView, PlaceView, StepView,
};
use crate::recovery::{root_home, TransactionView};

verus! {

/// What the files hold; which bytes are the sealed form of which; which bytes are the written form
/// of which recorded update or process; which processes run, and which one is held.
#[verifier::ext_equal]
pub struct World {
    pub files: Map<PlaceView, Seq<u8>>,
    pub index: Option<AccountIndexView>,
    pub sealed: Map<Seq<u8>, Seq<u8>>,
    pub encoded: Map<Seq<u8>, TransactionView>,
    pub children: Map<Seq<u8>, ChildRecordView>,
    pub running: Set<IdentityView>,
    pub held: Option<IdentityView>,
}

/// The place of the credentials that Codex uses.
pub open spec fn active_place() -> PlaceView {
    PlaceView::InHome(HomeView::Active, HomeFile::Auth)
}

/// The place of the draft through which those credentials are replaced.
pub open spec fn switch_draft() -> PlaceView {
    PlaceView::InHome(HomeView::Active, HomeFile::SwitchDraft)
}

/// The draft through which a file is written, where that holds credentials in the clear; drafts of
/// what is sealed are left out.
pub open spec fn plain_draft(place: PlaceView) -> Option<PlaceView> {
    match place {
        PlaceView::InHome(home, HomeFile::Auth) => Some(
            PlaceView::InHome(home, HomeFile::AuthDraft),
        ),
        _ => None,
    }
}

/// What a file holds, if it is there.
pub open spec fn content(world: World, place: PlaceView) -> Option<Seq<u8>> {
    if world.files.contains_key(place) {
        Some(world.files[place])
    } else {
        None
    }
}

/// The credentials that Codex uses, if there are any.
pub open spec fn active(world: World) -> Option<Seq<u8>> {
    content(world, active_place())
}

/// What a file holds in sealed form, if it is there and sealed.
pub open spec fn opened(world: World, place: PlaceView) -> Option<Seq<u8>> {
    if world.files.contains_key(place) && world.sealed.contains_key(world.files[place]) {
        Some(world.sealed[world.files[place]])
    } else {
        None
    }
}

/// The recorded update that a journal holds, if it holds one.
pub open spec fn recorded(world: World) -> Option<TransactionView> {
    match opened(world, PlaceView::Journal) {
        Some(bytes) => if world.encoded.contains_key(bytes) {
            Some(world.encoded[bytes])
        } else {
            None
        },
        None => None,
    }
}

/// The places where credentials are kept for longer: there they have to be sealed.
pub open spec fn is_lasting(place: PlaceView) -> bool {
    place is Vault || place is Staged || place is Backup || place is Journal
}

/// Whether nothing that lasts is in the clear.
pub open spec fn is_tidy(world: World) -> bool {
    forall|place: PlaceView|
        #![trigger world.files.contains_key(place)]
        world.files.contains_key(place) && is_lasting(place) ==> world.sealed.contains_key(
            world.files[place],
        )
}

/// Whether a place is that of a file rather than of a directory.
pub open spec fn is_file(place: PlaceView) -> bool {
    place is InHome || is_lasting(place)
}

/// Whether a file is in a directory: that of a home, or that of the backups.
pub open spec fn is_under(place: PlaceView, directory: PlaceView) -> bool {
    match (place, directory) {
        (PlaceView::InHome(inner, _), PlaceView::HomeDir(outer)) => inner == outer,
        (PlaceView::Backup(_), PlaceView::BackupDir) => true,
        _ => false,
    }
}

/// Whether no file is in a directory.
pub open spec fn is_bare(world: World, directory: PlaceView) -> bool {
    forall|place: PlaceView| #[trigger]
        world.files.contains_key(place) ==> !is_under(place, directory)
}

/// Whether a list of entries has the backups, each once, as far as it could be read, and other
/// files.
pub open spec fn lists_backups(world: World, entries: Seq<EntryView>) -> bool {
    let names = names_of(entries);
    &&& names.no_duplicates()
    &&& forall|name: Seq<char>| #[trigger]
        names.contains(name) && is_sealed_name(name) ==> world.files.contains_key(
            PlaceView::Backup(name),
        )
    &&& forall|name: Seq<char>| #[trigger]
        world.files.contains_key(PlaceView::Backup(name)) ==> names.contains(name)
            || has_unreadable(entries)
}

/// Whether a file was written as a whole, and its draft with it.
pub open spec fn is_written(
    before: World,
    place: PlaceView,
    draft: Option<PlaceView>,
    bytes: Seq<u8>,
    after: World,
) -> bool {
    match draft {
        Some(draft) => after == (World {
            files: before.files.remove(draft).insert(place, bytes),
            ..before
        }),
        None => after == (World { files: before.files.insert(place, bytes), ..before }),
    }
}

/// Whether a file was not written, so that nothing but its draft may have changed.
pub open spec fn is_not_written(before: World, draft: Option<PlaceView>, after: World) -> bool {
    match draft {
        Some(draft) => {
            &&& after == World { files: after.files, ..before }
            &&& forall|place: PlaceView|
                #![trigger content(after, place)]
                #![trigger content(before, place)]
                #![trigger after.files.contains_key(place)]
                place != draft ==> content(after, place) == content(before, place)
        },
        None => after == before,
    }
}

/// Whether some entry of a directory could not be read.
pub open spec fn has_unreadable(entries: Seq<EntryView>) -> bool {
    exists|i: int| 0 <= i < entries.len() && #[trigger] entries[i] is Unreadable
}

/// Whether a list of entries has every login home or every runtime home in which there is a file,
/// as far as it could be read.
pub open spec fn lists_homes(world: World, runtime: bool, entries: Seq<EntryView>) -> bool {
    forall|name: Seq<char>, file: HomeFile|
        #![trigger world.files.contains_key(PlaceView::InHome(root_home(runtime, name), file))]
        world.files.contains_key(PlaceView::InHome(root_home(runtime, name), file))
            ==> names_of(entries).contains(name) || has_unreadable(entries)
}

/// Whether a directory with all its files, or a part of them, was removed and nothing else.
pub open spec fn tree_removed(before: World, home: PlaceView, whole: bool, after: World) -> bool {
    &&& after == World { files: after.files, ..before }
    &&& after.files.submap_of(before.files)
    &&& forall|place: PlaceView|
        #![trigger after.files.contains_key(place)]
        before.files.contains_key(place) && !is_under(place, home) ==> after.files.contains_key(
            place,
        )
    &&& whole ==> forall|place: PlaceView|
        #![trigger after.files.contains_key(place)]
        is_under(place, home) ==> !after.files.contains_key(place)
}

/// Whether a process with this number runs.
pub open spec fn is_number_running(world: World, pid: u32) -> bool {
    exists|process: IdentityView| #[trigger] world.running.contains(process) && process.pid == pid
}

/// What looking at the process with a number tells: no two processes that run have one number.
pub open spec fn observed(world: World, pid: u32, event: EventView) -> bool {
    match event {
        EventView::Alive(found) => found.pid == pid && world.running.contains(found)
            && forall|process: IdentityView| #[trigger]
            world.running.contains(process) && process.pid == pid ==> process == found,
        EventView::Exited => !is_number_running(world, pid),
        EventView::Gone => !is_number_running(world, pid),
        _ => true,
    }
}

/// What a home says of the process that works there, if it says anything.
pub open spec fn child_of(world: World, home: HomeView) -> Option<ChildRecordView> {
    match content(world, PlaceView::InHome(home, HomeFile::Child)) {
        Some(bytes) => if world.children.contains_key(bytes) {
            Some(world.children[bytes])
        } else {
            None
        },
        None => None,
    }
}

/// Whether no process works in a home.
pub open spec fn is_idle(world: World, home: HomeView) -> bool {
    match content(world, PlaceView::InHome(home, HomeFile::Child)) {
        None => true,
        Some(_) => match child_of(world, home) {
            Some(ChildRecordView::Verified(record)) => !world.running.contains(record.process),
            Some(ChildRecordView::Legacy(pid)) => !is_number_running(world, pid),
            None => false,
        },
    }
}

/// Whether the same processes run, and what is written of them is the same.
pub open spec fn same_processes(start: World, world: World) -> bool {
    &&& world.children == start.children
    &&& world.running == start.running
    &&& world.held == start.held
}

/// How an action that was answered by an event changed the world.
///
/// What was done has its effect, and what failed has none, but that a draft may be left and a
/// directory be removed in part; what was read was there. Sealing never gives the sealed form of
/// something else. Nothing but the machine changes the files, and no process starts or ends by
/// itself.
pub open spec fn performed(
    before: World,
    action: ActionView,
    event: EventView,
    after: World,
) -> bool {
    match action {
        ActionView::Read(place) => after == before && match event {
            EventView::Bytes(bytes) => content(before, place) == Some(bytes),
            EventView::Missing { .. } => content(before, place) is None,
            _ => true,
        },
        ActionView::Write(place, bytes) => match event {
            EventView::Done => is_written(before, place, plain_draft(place), bytes, after),
            _ => is_not_written(before, plain_draft(place), after),
        },
        ActionView::ReplaceActive(bytes) => match event {
            EventView::Done => is_written(
                before,
                active_place(),
                Some(switch_draft()),
                bytes,
                after,
            ),
            _ => is_not_written(before, Some(switch_draft()), after),
        },
        ActionView::Remove(place) => match event {
            EventView::Done => content(before, place) is Some && after == (World {
                files: before.files.remove(place),
                ..before
            }),
            EventView::Missing { .. } => content(before, place) is None && after == before,
            _ => after == before,
        },
        ActionView::RemoveTree(home) => tree_removed(before, home, event is Done, after),
        ActionView::Exists(place) => after == before && match event {
            EventView::Present(flag) => (is_file(place) ==> flag == (content(before, place)
                is Some)) && (!flag ==> is_bare(before, place)),
            _ => true,
        },
        ActionView::Rename(from, to) => match event {
            EventView::Done => content(before, from) is Some && after == (World {
                files: before.files.remove(from).insert(to, before.files[from]),
                ..before
            }),
            _ => after == before,
        },
        ActionView::List(place) => after == before && match event {
            EventView::Names(entries) => match place {
                PlaceView::BackupDir => lists_backups(before, entries),
                PlaceView::LoginRoot => lists_homes(before, false, entries),
                PlaceView::RuntimeRoot => lists_homes(before, true, entries),
                _ => true,
            },
            EventView::Missing { .. } => match place {
                PlaceView::LoginRoot => lists_homes(before, false, seq![]),
                PlaceView::RuntimeRoot => lists_homes(before, true, seq![]),
                _ => true,
            },
            _ => true,
        },
        ActionView::IsDir(place) => after == before && (event == EventView::Present(false)
            ==> is_bare(before, place)),
        ActionView::Seal(plain) => match event {
            EventView::Bytes(bytes) => (before.sealed.contains_key(bytes) ==> before.sealed[bytes]
                == plain) && after == (World {
                sealed: before.sealed.insert(bytes, plain),
                ..before
            }),
            _ => after == before,
        },
        ActionView::Unseal(bytes) => after == before && (event matches EventView::Bytes(plain)
            ==> before.sealed.contains_key(bytes) && before.sealed[bytes] == plain),
        ActionView::ReadIndex => after == before && match event {
            EventView::Index(index) => before.index == Some(index),
            EventView::Missing { .. } => before.index is None,
            _ => true,
        },
        ActionView::WriteIndex(index) => match event {
            EventView::Done => after == (World { index: Some(index), ..before }),
            _ => after == before,
        },
        ActionView::Encode(transaction) => match event {
            EventView::Bytes(bytes) => (before.encoded.contains_key(bytes)
                ==> before.encoded[bytes] == transaction) && after == (World {
                encoded: before.encoded.insert(bytes, transaction),
                ..before
            }),
            _ => after == before,
        },
        ActionView::Decode(bytes) => after == before && (event matches EventView::Journal(
            transaction,
        ) ==> before.encoded.contains_key(bytes) && before.encoded[bytes] == transaction),
        ActionView::ReadChild(home) => after == before && match event {
            EventView::Child(record) => child_of(before, home) == Some(record),
            EventView::Missing { .. } => content(
                before,
                PlaceView::InHome(home, HomeFile::Child),
            ) is None,
            _ => true,
        },
        ActionView::EncodeChild(record) => match event {
            EventView::Bytes(bytes) => (before.children.contains_key(bytes)
                ==> before.children[bytes] == ChildRecordView::Verified(record))
                && after == (World {
                children: before.children.insert(bytes, ChildRecordView::Verified(record)),
                ..before
            }),
            _ => after == before,
        },
        ActionView::IsRunning(pid) => after == before && (event matches EventView::Present(flag)
            ==> flag == is_number_running(before, pid)),
        ActionView::Identify(pid) => after == before && (event matches EventView::Alive(found)
            ==> found.pid == pid && forall|process: IdentityView| #[trigger]
            before.running.contains(process) && process.pid == pid ==> process == found),
        ActionView::Observe(pid) => after == before && observed(before, pid, event),
        ActionView::Hold(pid) => observed(before, pid, event) && after == (World {
            held: match event {
                EventView::Alive(found) => Some(found),
                _ => None,
            },
            ..before
        }),
        ActionView::WaitHeld(_) => match (event, before.held) {
            (EventView::Exited, Some(process)) => after == (World {
                running: before.running.remove(process),
                ..before
            }),
            _ => after == before,
        },
        _ => after == before,
    }
}

/// Whether an event is the answer that was hoped for.
pub open spec fn answered(action: ActionView, event: EventView) -> bool {
    match action {
        ActionView::Read(_) => event is Bytes || event is Missing,
        ActionView::Write(_, _)
        | ActionView::ReplaceActive(_)
        | ActionView::RemoveTree(_)
        | ActionView::Rename(_, _)
        | ActionView::CreateDir(_)
        | ActionView::CheckPath(_)
        | ActionView::WriteIndex(_)
        | ActionView::TerminateHeld
        | ActionView::Sleep(_) => event is Done,
        ActionView::Remove(place) => event is Done || (event is Missing && !(place is Backup)),
        ActionView::Exists(_) | ActionView::IsDir(_) => event is Present,
        ActionView::List(place) => match event {
            EventView::Names(entries) => !has_unreadable(entries),
            EventView::Missing { .. } => !(place is BackupDir),
            _ => false,
        },
        ActionView::Seal(_) | ActionView::Unseal(_) => event is Bytes,
        ActionView::ReadIndex => event is Index || event is Missing,
        ActionView::Encode(_) | ActionView::EncodeChild(_) => event is Bytes,
        ActionView::Decode(_) => event is Journal,
        ActionView::ReadChild(_) => event is Child || event is Missing,
        ActionView::IsRunning(_) | ActionView::ObserveHeld => event is Present,
        ActionView::Identify(_) => event is Alive || event is Gone,
        ActionView::Observe(_) | ActionView::Hold(_) => event is Alive || event is Exited
            || event is Gone,
        ActionView::WaitHeld(_) => event is Exited,
        ActionView::Now => event is Time,
    }
}

/// How actions change a world in which anything may fail.
pub open spec fn any_world() -> spec_fn(World, ActionView, EventView, World) -> bool {
    |before: World, action: ActionView, event: EventView, after: World|
        performed(before, action, event, after)
}

/// How actions change a world in which nothing fails.
pub open spec fn smooth_world() -> spec_fn(World, ActionView, EventView, World) -> bool {
    |before: World, action: ActionView, event: EventView, after: World|
        performed(before, action, event, after) && answered(action, event)
}

/// Whether an action looks whether a file or directory is there.
pub open spec fn is_look(action: ActionView) -> bool {
    action is Exists || action is IsDir
}

/// How actions change a world in which anything may fail but looking whether a file is there.
pub open spec fn seeing_world() -> spec_fn(World, ActionView, EventView, World) -> bool {
    |before: World, action: ActionView, event: EventView, after: World|
        performed(before, action, event, after) && (is_look(action) ==> answered(action, event))
}

/// How actions change a world in which anything may fail but looking whether a file is there and
/// reading it.
pub open spec fn observable_world() -> spec_fn(World, ActionView, EventView, World) -> bool {
    |before: World, action: ActionView, event: EventView, after: World|
        performed(before, action, event, after) && (is_look(action) || action is Read ==> answered(
            action,
            event,
        ))
}

/// How actions change a world in which anything may fail but reading a file.
pub open spec fn readable_world() -> spec_fn(World, ActionView, EventView, World) -> bool {
    |before: World, action: ActionView, event: EventView, after: World|
        performed(before, action, event, after) && (action is Read ==> answered(action, event))
}

/// Whether a machine, from a step and a world, gets to another step and world by events that obey
/// a rule.
pub open spec fn leads<A, E, M, T>(
    rule: spec_fn(World, A, E, World) -> bool,
    next: spec_fn(M, E) -> StepView<A, M, T>,
    step: StepView<A, M, T>,
    world: World,
    history: Seq<(E, World)>,
    end: StepView<A, M, T>,
    after: World,
) -> bool
    decreases history.len(),
{
    if history.len() == 0 {
        end == step && after == world
    } else {
        match step {
            StepView::Ask(action, machine) => rule(world, action, history[0].0, history[0].1)
                && leads(
                rule,
                next,
                next(machine, history[0].0),
                history[0].1,
                history.drop_first(),
                end,
                after,
            ),
            StepView::Done(_) => false,
        }
    }
}

/// What holds of a step and of what every event makes of it holds of every step that is reached.
pub proof fn lemma_leads<A, E, M, T>(
    rule: spec_fn(World, A, E, World) -> bool,
    next: spec_fn(M, E) -> StepView<A, M, T>,
    kept: spec_fn(StepView<A, M, T>, World) -> bool,
    step: StepView<A, M, T>,
    world: World,
    history: Seq<(E, World)>,
    end: StepView<A, M, T>,
    after: World,
)
    requires
        leads(rule, next, step, world, history, end, after),
        kept(step, world),
        forall|action: A, machine: M, here: World, event: E, there: World|
            kept(StepView::Ask(action, machine), here) && #[trigger] rule(
                here,
                action,
                event,
                there,
            ) ==> kept(#[trigger] next(machine, event), there),
    ensures
        kept(end, after),
    decreases history.len(),
{
    if history.len() > 0 {
        match step {
            StepView::Ask(action, machine) => {
                assert(rule(world, action, history[0].0, history[0].1));
                lemma_leads(
                    rule,
                    next,
                    kept,
                    next(machine, history[0].0),
                    history[0].1,
                    history.drop_first(),
                    end,
                    after,
                );
            },
            StepView::Done(_) => {},
        }
    }
}

/// A part of a part is a part.
pub proof fn lemma_submap_chain<V>(a: Map<Seq<u8>, V>, b: Map<Seq<u8>, V>, c: Map<Seq<u8>, V>)
    requires
        a.submap_of(b),
        b.submap_of(c),
    ensures
        a.submap_of(c),
{
    assert forall|key: Seq<u8>| #[trigger] a.dom().contains(key) implies c.dom().contains(key)
        && a[key] == c[key] by {
        assert(b.dom().contains(key));
    }
}

} // verus!
