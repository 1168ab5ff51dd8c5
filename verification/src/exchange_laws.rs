//! What stands between the login in use and its replacement.

use vstd::prelude::*;

use crate::accounts::{AccountIndexView, AccountInfoView, SavedAccountView};
use crate::child_process::{stop_next, stopping, IdentityView, RecordView, StopView};
use crate::cleanup_laws::stop_machine;
use crate::courses::{asked, reached};
use crate::credentials::{identity, is_account_id, usable_identity};
use crate::effects::{ActionView, EventView, HomeFile, HomeView, PlaceView, StepView};
use crate::index_laws::{
    has_no_entry, is_all_blank, is_first_entry, law_account_is_found_by_its_id,
    law_new_entry_is_found, law_new_label_is_short_and_not_blank,
};
use crate::recovery::{record_child_next, recording_child, CheckedRemoveView, RecordChildView};
use crate::text::{decimal, trimmed};
use crate::vault::{
    delete_next, deleting, finish_next, finishing_isolated, importing, load_saved_next,
    loading_saved, reauthorize_next, rename_next, renaming, replace_next, replacing,
    save_current_next, saving_current, DeleteView, ExchangeView, FinishView, ImportView,
    LoadSavedView, PruneView, ReauthorizeView, RenameView, ReplaceView, SaveCurrentView,
};
use crate::vault_laws::{import_kept, import_machine, index_of, lemma_import_kept};
use crate::world::{leads, lemma_leads, performed, World};

verus! {

/// Whether a replacement comes to a result by way of taking its record away.
pub open spec fn is_over_with(
    step: StepView<ActionView, ReplaceView, ()>,
    result: Result<(), Seq<char>>,
) -> bool {
    step == StepView::<ActionView, ReplaceView, ()>::Ask(
        ActionView::CheckPath(PlaceView::Journal),
        ReplaceView::Ended { result, remove: CheckedRemoveView::Path(PlaceView::Journal) },
    )
}

/// Credentials that are not usable, or not those of the account that they are to be for, are not
/// put in use: nothing is asked for.
pub proof fn law_wrong_credentials_are_not_put_in_use(
    codex_home: Seq<char>,
    target: Seq<u8>,
    id: Seq<char>,
    same_account: bool,
)
    ensures
        usable_identity(target) matches Err(error) ==> replacing(
            codex_home,
            target,
            id,
            same_account,
        ) == StepView::<ActionView, ReplaceView, ()>::Done(Err(error)),
        usable_identity(target) matches Ok(found) ==> (found != id ==> replacing(
            codex_home,
            target,
            id,
            same_account,
        ) == StepView::<ActionView, ReplaceView, ()>::Done(
            Err("保存的凭据与目标账号不一致，已取消写入"@),
        )),
        usable_identity(target) == Ok::<Seq<char>, Seq<char>>(id) ==> replacing(
            codex_home,
            target,
            id,
            same_account,
        ) == StepView::<ActionView, ReplaceView, ()>::Ask(
            ActionView::Read(PlaceView::InHome(HomeView::Active, HomeFile::Auth)),
            ReplaceView::Read { codex_home, target, id, same_account },
        ),
{
}

/// Where only credentials of the same account may be replaced, those of another one, or none, stand
/// in the way. Credentials that are in use already are left as they are.
pub proof fn law_only_the_same_account_is_replaced(
    codex_home: Seq<char>,
    target: Seq<u8>,
    id: Seq<char>,
    auth: Seq<u8>,
    path: Seq<char>,
    error: Seq<char>,
)
    ensures
        ({
            let strict = ReplaceView::Read { codex_home, target, id, same_account: true };
            let loose = ReplaceView::Read { codex_home, target, id, same_account: false };
            let refused = StepView::<ActionView, ReplaceView, ()>::Done(
                Err("当前登录已发生变化，已取消写入，请重试"@),
            );
            let done = StepView::<ActionView, ReplaceView, ()>::Done(Ok(()));
            &&& identity(auth) != Ok::<Seq<char>, Seq<char>>(id) ==> replace_next(
                strict,
                EventView::Bytes(auth),
            ) == refused
            &&& replace_next(strict, EventView::Missing { path, error }) == refused
            &&& auth == target ==> replace_next(loose, EventView::Bytes(auth)) == done
            &&& auth == target && identity(auth) == Ok::<Seq<char>, Seq<char>>(id) ==> replace_next(
                strict,
                EventView::Bytes(auth),
            ) == done
            &&& auth != target ==> replace_next(loose, EventView::Bytes(auth)) == StepView::<
                ActionView,
                ReplaceView,
                (),
            >::Ask(
                ActionView::Now,
                ReplaceView::Clock(ExchangeView { codex_home, target, id, before: Some(auth) }),
            )
        }),
{
}

/// What is about to be replaced is sealed first, and kept as a backup under the time and its
/// account.
pub proof fn law_backup_is_made_before_the_exchange(
    exchange: ExchangeView,
    seconds: u64,
    nanos: u128,
    sealed: Seq<u8>,
)
    requires
        exchange.before is Some,
    ensures
        ({
            let auth = exchange.before->Some_0;
            let owner = match identity(auth) {
                Ok(id) => id,
                Err(_) => "unrecognized"@,
            };
            let name = decimal(seconds as nat) + "-"@ + decimal(nanos as nat) + "-"@ + owner
                + ".dpapi"@;
            &&& replace_next(
                ReplaceView::Clock(exchange),
                EventView::Time { seconds, nanos },
            ) == StepView::<ActionView, ReplaceView, ()>::Ask(
                ActionView::Seal(auth),
                ReplaceView::Sealed(exchange, name),
            )
            &&& replace_next(ReplaceView::Sealed(exchange, name), EventView::Bytes(sealed))
                == StepView::<ActionView, ReplaceView, ()>::Ask(
                ActionView::Write(PlaceView::Backup(name), sealed),
                ReplaceView::BackedUp(exchange),
            )
        }),
{
}

/// The credentials in use are replaced only if they are, right before it, those that were backed up
/// and recorded; otherwise the exchange is called off.
pub proof fn law_changed_login_is_not_replaced(
    exchange: ExchangeView,
    auth: Seq<u8>,
    path: Seq<char>,
    error: Seq<char>,
)
    ensures
        ({
            let state = ReplaceView::Confirmed(exchange);
            let go = StepView::<ActionView, ReplaceView, ()>::Ask(
                ActionView::ReplaceActive(exchange.target),
                ReplaceView::Written(exchange),
            );
            let refused = Err::<(), Seq<char>>(
                "当前登录已发生变化，已取消写入，请重试"@,
            );
            &&& exchange.before == Some(auth) ==> replace_next(state, EventView::Bytes(auth)) == go
            &&& exchange.before != Some(auth) ==> is_over_with(
                replace_next(state, EventView::Bytes(auth)),
                refused,
            )
            &&& exchange.before is None ==> replace_next(
                state,
                EventView::Missing { path, error },
            ) == go
            &&& exchange.before is Some ==> is_over_with(
                replace_next(state, EventView::Missing { path, error }),
                refused,
            )
        }),
{
}

/// What was written is read back: it stays if it is usable and of the account. Otherwise what was
/// there before is put back, or the file is removed where there was none, and why is told, with
/// what came of putting it back.
pub proof fn law_failed_exchange_is_undone(
    exchange: ExchangeView,
    auth: Seq<u8>,
    why: Seq<char>,
    path: Seq<char>,
    error: Seq<char>,
)
    ensures
        ({
            let step = replace_next(ReplaceView::Verified(exchange), EventView::Bytes(auth));
            let undo = match exchange.before {
                Some(before) => ActionView::ReplaceActive(before),
                None => ActionView::Remove(PlaceView::InHome(HomeView::Active, HomeFile::Auth)),
            };
            &&& usable_identity(auth) == Ok::<Seq<char>, Seq<char>>(exchange.id) ==> is_over_with(
                step,
                Ok(()),
            )
            &&& usable_identity(auth) != Ok::<Seq<char>, Seq<char>>(exchange.id) ==> (
            step matches StepView::Ask(action, ReplaceView::Restored(_)) && action == undo)
            &&& replace_next(
                ReplaceView::Verified(exchange),
                EventView::Failed { path, error },
            ) == StepView::<ActionView, ReplaceView, ()>::Ask(
                undo,
                ReplaceView::Restored("无法验证切换结果："@ + error),
            )
            &&& is_over_with(
                replace_next(ReplaceView::Restored(why), EventView::Done),
                Err(why + "；已恢复原认证状态"@),
            )
            &&& replace_next(ReplaceView::Restored(why), EventView::Failed { path, error })
                == StepView::<ActionView, ReplaceView, ()>::Done(
                Err(why + "；恢复原认证失败："@ + error),
            )
        }),
{
}

/// The result of an exchange stands, whether or not its record could be taken away.
pub proof fn law_result_of_an_exchange_stands(
    result: Result<(), Seq<char>>,
    remove: CheckedRemoveView,
    event: EventView,
)
    ensures
        match replace_next(ReplaceView::Ended { result, remove }, event) {
            StepView::Done(told) => told == result,
            StepView::Ask(_, next) => next matches ReplaceView::Ended { result: kept, .. } && kept
                == result,
        },
{
}

/// How an import goes where the clock tells this time.
pub open spec fn timed_world(seconds: u64) -> spec_fn(
    World,
    ActionView,
    EventView,
    World,
) -> bool {
    |before: World, action: ActionView, event: EventView, after: World|
        performed(before, action, event, after) && (action is Now ==> (
        event matches EventView::Time { seconds: told, .. } ==> told == seconds))
}

/// An account is entered with the time at which it was imported.
pub proof fn law_import_has_its_time(
    start: World,
    home: HomeView,
    account: Option<AccountInfoView>,
    label: Option<Seq<char>>,
    seconds: u64,
    history: Seq<(EventView, World)>,
    saved: SavedAccountView,
    after: World,
)
    requires
        leads(
            timed_world(seconds),
            import_machine(),
            importing(home, account, label),
            start,
            history,
            StepView::Done(Ok(saved)),
            after,
        ),
    ensures
        saved.imported_at == seconds,
        after.index matches Some(index) && index.accounts.contains(saved),
{
    let kept = |step: StepView<ActionView, ImportView, SavedAccountView>, world: World|
        {
            &&& import_kept(start, home, account, label, step, world)
            &&& step matches StepView::Ask(action, ImportView::Clock { .. }) ==> action is Now
            &&& step matches StepView::Ask(_, ImportView::Entered(entry)) ==> entry.imported_at
                == seconds
            &&& step matches StepView::Done(Ok(entry)) ==> entry.imported_at == seconds
        };
    let rule = timed_world(seconds);
    assert forall|
        action: ActionView,
        machine: ImportView,
        here: World,
        event: EventView,
        there: World,
    |
        kept(StepView::Ask(action, machine), here) && #[trigger] rule(
            here,
            action,
            event,
            there,
        ) implies kept(#[trigger] import_machine()(machine, event), there) by {
        lemma_import_kept(start, home, account, label, action, machine, here, event, there);
    }
    lemma_leads(
        rule,
        import_machine(),
        kept,
        importing(home, account, label),
        start,
        history,
        StepView::Done(Ok(saved)),
        after,
    );
    law_new_entry_is_found(index_of(start), saved);
    let accounts = after.index->Some_0.accounts;
    let at = choose|at: int|
        #[trigger] is_first_entry(accounts, saved.id, at) && accounts[at] == saved;
    assert(accounts[at] == saved);
}

/// A new authorization goes by what is in use: where that is the account, its credentials are
/// replaced first, and otherwise they are only saved. A login of another account is refused.
pub proof fn law_new_authorization_goes_by_the_login_in_use(
    codex_home: Seq<char>,
    home: HomeView,
    id: Seq<char>,
    account: Option<AccountInfoView>,
    auth: Seq<u8>,
    found: Seq<u8>,
)
    ensures
        ({
            let first = ReauthorizeView::Read { codex_home, home, id, account };
            let compared = ReauthorizeView::Compared { codex_home, home, id, account, auth };
            let look = ActionView::Read(PlaceView::InHome(HomeView::Active, HomeFile::Auth));
            &&& usable_identity(auth) == Ok::<Seq<char>, Seq<char>>(id) ==> reauthorize_next(
                first,
                EventView::Bytes(auth),
            ) == StepView::<ActionView, ReauthorizeView, (SavedAccountView, bool)>::Ask(
                look,
                compared,
            )
            &&& usable_identity(auth) matches Ok(other) ==> (other != id ==> reauthorize_next(
                first,
                EventView::Bytes(auth),
            ) == StepView::<ActionView, ReauthorizeView, (SavedAccountView, bool)>::Done(
                Err("登录的不是所选账号，已取消覆盖；请用该账号重新登录"@),
            ))
            &&& usable_identity(found) == Ok::<Seq<char>, Seq<char>>(id) && usable_identity(auth)
                == Ok::<Seq<char>, Seq<char>>(id) ==> reauthorize_next(
                compared,
                EventView::Bytes(found),
            ) == StepView::<ActionView, ReauthorizeView, (SavedAccountView, bool)>::Ask(
                look,
                ReauthorizeView::Replace {
                    home,
                    account,
                    replace: ReplaceView::Read { codex_home, target: auth, id, same_account: true },
                },
            )
            &&& usable_identity(found) != Ok::<Seq<char>, Seq<char>>(id) ==> reauthorize_next(
                compared,
                EventView::Bytes(found),
            ) == StepView::<ActionView, ReauthorizeView, (SavedAccountView, bool)>::Ask(
                ActionView::Read(PlaceView::InHome(home, HomeFile::Auth)),
                ReauthorizeView::Import {
                    is_current: false,
                    import: ImportView::Read { account, label: None },
                },
            )
        }),
{
}

/// The login in use is saved before a switch, if it is usable and not of the account that is
/// switched to; anything else that it may be does not stand in the way.
pub proof fn law_login_in_use_is_saved_before_a_switch(
    target: Seq<char>,
    auth: Seq<u8>,
    path: Seq<char>,
    error: Seq<char>,
)
    ensures
        ({
            let state = SaveCurrentView::Read { target_id: target };
            let done = StepView::<ActionView, SaveCurrentView, ()>::Done(Ok(()));
            &&& saving_current(target) == StepView::<ActionView, SaveCurrentView, ()>::Ask(
                ActionView::Read(PlaceView::InHome(HomeView::Active, HomeFile::Auth)),
                state,
            )
            &&& save_current_next(state, EventView::Missing { path, error }) == done
            &&& usable_identity(auth) is Err ==> save_current_next(state, EventView::Bytes(auth))
                == done
            &&& usable_identity(auth) == Ok::<Seq<char>, Seq<char>>(target) ==> save_current_next(
                state,
                EventView::Bytes(auth),
            ) == done
            &&& usable_identity(auth) matches Ok(found) ==> (found != target ==> save_current_next(
                state,
                EventView::Bytes(auth),
            ) == StepView::<ActionView, SaveCurrentView, ()>::Ask(
                ActionView::Read(PlaceView::InHome(HomeView::Active, HomeFile::Auth)),
                SaveCurrentView::Import(ImportView::Read { account: None, label: None }),
            ))
            &&& save_current_next(state, EventView::Failed { path, error }) == StepView::<
                ActionView,
                SaveCurrentView,
                (),
            >::Done(Err("无法读取当前认证文件："@ + error))
        }),
{
}

/// The machine that records the process of a home.
pub open spec fn record_machine() -> spec_fn(
    RecordChildView,
    EventView,
) -> StepView<ActionView, RecordChildView, ()> {
    |machine: RecordChildView, event: EventView| record_child_next(machine, event)
}

/// A process that is started in a home is recorded there, with the hub that started it, each by its
/// number, the time it was created and the program it runs.
pub proof fn law_process_is_recorded_in_its_home(
    home: HomeView,
    pid: u32,
    own: u32,
    process: IdentityView,
    owner: IdentityView,
    bytes: Seq<u8>,
)
    ensures
        ({
            let events = seq![
                EventView::Done,
                EventView::Alive(process),
                EventView::Alive(owner),
                EventView::Bytes(bytes),
                EventView::Done,
            ];
            &&& asked(record_machine(), recording_child(home, pid, own), events) == seq![
                ActionView::CheckPath(PlaceView::HomeDir(home)),
                ActionView::Identify(pid),
                ActionView::Identify(own),
                ActionView::EncodeChild(RecordView { version: 1, process, owner }),
                ActionView::Write(PlaceView::InHome(home, HomeFile::Child), bytes),
            ]
            &&& reached(record_machine(), recording_child(home, pid, own), events) == StepView::<
                ActionView,
                RecordChildView,
                (),
            >::Done(Ok(()))
        }),
{
    reveal_with_fuel(asked, 7);
    reveal_with_fuel(reached, 7);
    let events = seq![
        EventView::Done,
        EventView::Alive(process),
        EventView::Alive(owner),
        EventView::Bytes(bytes),
        EventView::Done,
    ];
    assert(asked(record_machine(), recording_child(home, pid, own), events) =~= seq![
        ActionView::CheckPath(PlaceView::HomeDir(home)),
        ActionView::Identify(pid),
        ActionView::Identify(own),
        ActionView::EncodeChild(RecordView { version: 1, process, owner }),
        ActionView::Write(PlaceView::InHome(home, HomeFile::Child), bytes),
    ]);
}

/// The process of a record that still runs is ended, where it is not the hub's own and the hub that
/// started it is this one, or does not run any more: it is held, seen to be the one, ended and
/// waited for.
pub proof fn law_course_of_ending_a_process(
    record: RecordView,
    own: u32,
    current: IdentityView,
    owner: EventView,
)
    requires
        record.version == 1,
        record.process.pid != own,
        owner == EventView::Gone || owner == EventView::Exited || (owner matches EventView::Alive(
            other,
        ) && other != record.owner),
    ensures
        ({
            let process = record.process;
            let look = seq![
                ActionView::Observe(process.pid),
                ActionView::Identify(own),
            ];
            let ask = if current == record.owner {
                Seq::<ActionView>::empty()
            } else {
                seq![ActionView::Observe(record.owner.pid)]
            };
            let end = seq![
                ActionView::Hold(process.pid),
                ActionView::TerminateHeld,
                ActionView::WaitHeld(3000),
            ];
            let events = seq![EventView::Alive(process), EventView::Alive(current)] + (if current
                == record.owner {
                Seq::<EventView>::empty()
            } else {
                seq![owner]
            }) + seq![EventView::Alive(process), EventView::Done, EventView::Exited];
            &&& asked(stop_machine(), stopping(record, own), events) == look + ask + end
            &&& reached(stop_machine(), stopping(record, own), events) == StepView::<
                ActionView,
                StopView,
                (),
            >::Done(Ok(()))
        }),
{
    reveal_with_fuel(asked, 8);
    reveal_with_fuel(reached, 8);
    let process = record.process;
    let first = seq![EventView::Alive(process), EventView::Alive(current)];
    let last = seq![EventView::Alive(process), EventView::Done, EventView::Exited];
    let look = seq![ActionView::Observe(process.pid), ActionView::Identify(own)];
    let end = seq![
        ActionView::Hold(process.pid),
        ActionView::TerminateHeld,
        ActionView::WaitHeld(3000),
    ];
    if current == record.owner {
        assert(first + Seq::<EventView>::empty() + last =~= seq![
            first[0],
            first[1],
            last[0],
            last[1],
            last[2],
        ]);
        assert(asked(
            stop_machine(),
            stopping(record, own),
            seq![first[0], first[1], last[0], last[1], last[2]],
        ) =~= look + Seq::<ActionView>::empty() + end);
    } else {
        assert(first + seq![owner] + last =~= seq![
            first[0],
            first[1],
            owner,
            last[0],
            last[1],
            last[2],
        ]);
        assert(asked(
            stop_machine(),
            stopping(record, own),
            seq![first[0], first[1], owner, last[0], last[1], last[2]],
        ) =~= look + seq![ActionView::Observe(record.owner.pid)] + end);
    }
}

/// A process that does not run any more needs no ending. One of a hub that runs is left to it, and
/// the hub does not end itself.
pub proof fn law_process_in_use_is_left_alone(record: RecordView, own: u32, other: IdentityView)
    ensures
        ({
            let state = StopView::Process { record, own };
            let done = StepView::<ActionView, StopView, ()>::Done(Ok(()));
            &&& stop_next(state, EventView::Gone) == done
            &&& stop_next(state, EventView::Exited) == done
            &&& other != record.process ==> stop_next(state, EventView::Alive(other)) == done
            &&& record.process.pid == own ==> stop_next(state, EventView::Alive(record.process))
                == StepView::<ActionView, StopView, ()>::Done(
                Err("恢复记录指向管理器自身，已拒绝结束进程"@),
            )
            &&& stop_next(StopView::Owner { record }, EventView::Alive(record.owner))
                == StepView::<ActionView, StopView, ()>::Done(
                Err(
                    "子进程仍由另一正在运行的管理器使用，请退出另一实例后重试恢复"@,
                ),
            )
        }),
{
}

/// Once the backup is written, all but the five newest are removed.
pub proof fn law_five_backups_are_kept(exchange: ExchangeView)
    ensures
        replace_next(ReplaceView::BackedUp(exchange), EventView::Done) == StepView::<
            ActionView,
            ReplaceView,
            (),
        >::Ask(
            ActionView::Exists(PlaceView::BackupDir),
            ReplaceView::Pruned(exchange, PruneView::Present { keep: 5 }),
        ),
{
}

/// An account that the index does not list is neither loaded nor renamed nor deleted.
pub proof fn law_unlisted_account_is_refused(
    index: AccountIndexView,
    id: Seq<char>,
    label: Seq<char>,
)
    requires
        index.version == 1,
        has_no_entry(index.accounts, id),
    ensures
        load_saved_next(LoadSavedView::Index(id), EventView::Index(index)) == StepView::<
            ActionView,
            LoadSavedView,
            Seq<u8>,
        >::Done(Err("找不到这个保险库账号"@)),
        rename_next(RenameView::Index { id, label }, EventView::Index(index)) == StepView::<
            ActionView,
            RenameView,
            SavedAccountView,
        >::Done(Err("找不到这个保险库账号"@)),
        delete_next(DeleteView::Index { id }, EventView::Index(index)) == StepView::<
            ActionView,
            DeleteView,
            (),
        >::Done(Err("找不到这个保险库账号"@)),
{
    law_account_is_found_by_its_id(index.accounts, id, 0);
}

/// A text that is no account id is refused before anything is asked for, and so is a label that an
/// account cannot have.
pub proof fn law_wrong_requests_are_refused(
    id: Seq<char>,
    label: Seq<char>,
    current: Option<Seq<char>>,
)
    ensures
        !is_account_id(id) ==> {
            let error = "账号 ID 格式无效"@;
            &&& loading_saved(id) == StepView::<ActionView, LoadSavedView, Seq<u8>>::Done(
                Err(error),
            )
            &&& renaming(id, label) == StepView::<ActionView, RenameView, SavedAccountView>::Done(
                Err(error),
            )
            &&& deleting(id, current) == StepView::<ActionView, DeleteView, ()>::Done(Err(error))
            &&& finishing_isolated(id) == StepView::<ActionView, FinishView, ()>::Done(Err(error))
        },
        is_account_id(id) && is_all_blank(label) ==> renaming(id, label) == StepView::<
            ActionView,
            RenameView,
            SavedAccountView,
        >::Done(Err("账号名称不能为空"@)),
        is_account_id(id) && trimmed(label).len() > 80 ==> renaming(id, label) == StepView::<
            ActionView,
            RenameView,
            SavedAccountView,
        >::Done(Err("账号名称不能超过 80 个字符"@)),
{
    law_new_label_is_short_and_not_blank(label);
}

/// Saved credentials that are of another account than the one they are saved for are not given out.
pub proof fn law_mixed_up_credentials_are_not_loaded(id: Seq<char>, auth: Seq<u8>)
    ensures
        usable_identity(auth) == Ok::<Seq<char>, Seq<char>>(id) ==> load_saved_next(
            LoadSavedView::Opened(id),
            EventView::Bytes(auth),
        ) == StepView::<ActionView, LoadSavedView, Seq<u8>>::Done(Ok(auth)),
        usable_identity(auth) matches Ok(other) ==> (other != id ==> load_saved_next(
            LoadSavedView::Opened(id),
            EventView::Bytes(auth),
        ) == StepView::<ActionView, LoadSavedView, Seq<u8>>::Done(
            Err("保存的凭据与目标账号不一致"@),
        )),
{
}

/// Credentials of a runtime home that are not usable, or of another account, are removed and not
/// saved, and why is told.
pub proof fn law_foreign_credentials_are_not_taken_back(
    id: Seq<char>,
    auth: Seq<u8>,
    why: Seq<char>,
)
    ensures
        ({
            let remove = ActionView::Remove(
                PlaceView::InHome(HomeView::Runtime(id), HomeFile::Auth),
            );
            let step = finish_next(FinishView::Read { id }, EventView::Bytes(auth));
            &&& usable_identity(auth) matches Err(error) ==> step == StepView::<
                ActionView,
                FinishView,
                (),
            >::Ask(remove, FinishView::Removed { error: Some(error) })
            &&& usable_identity(auth) matches Ok(other) ==> (other != id ==> step == StepView::<
                ActionView,
                FinishView,
                (),
            >::Ask(
                remove,
                FinishView::Removed {
                    error: Some("隔离凭据与目标账号不一致，已取消回写"@),
                },
            ))
            &&& finish_next(FinishView::Removed { error: Some(why) }, EventView::Done)
                == StepView::<ActionView, FinishView, ()>::Done(Err(why))
        }),
{
}

/// Where the credentials in use were replaced but not saved, that is told; where nothing was
/// replaced, only the error is.
pub proof fn law_unsaved_authorization_is_told(
    saved: SavedAccountView,
    path: Seq<char>,
    error: Seq<char>,
)
    ensures
        ({
            let state = |is_current: bool|
                ReauthorizeView::Import { is_current, import: ImportView::Entered(saved) };
            let failed = EventView::Failed { path, error };
            &&& reauthorize_next(state(true), failed) == StepView::<
                ActionView,
                ReauthorizeView,
                (SavedAccountView, bool),
            >::Done(
                Err(
                    "当前登录已更新，但保险库保存失败，请重新导入当前账号："@ + error,
                ),
            )
            &&& reauthorize_next(state(false), failed) == StepView::<
                ActionView,
                ReauthorizeView,
                (SavedAccountView, bool),
            >::Done(Err(error))
            &&& reauthorize_next(state(true), EventView::Done) == StepView::<
                ActionView,
                ReauthorizeView,
                (SavedAccountView, bool),
            >::Done(Ok((saved, true)))
            &&& reauthorize_next(state(false), EventView::Done) == StepView::<
                ActionView,
                ReauthorizeView,
                (SavedAccountView, bool),
            >::Done(Ok((saved, false)))
        }),
{
}

/// What stood in the way of taking credentials back, and of removing them, is told, the one after
/// the other.
pub proof fn law_both_errors_are_told(why: Seq<char>, path: Seq<char>, error: Seq<char>)
    ensures
        ({
            let failed = EventView::Failed { path, error };
            let heading = "无法清理临时认证文件："@;
            &&& finish_next(FinishView::Removed { error: None }, failed) == StepView::<
                ActionView,
                FinishView,
                (),
            >::Done(Err(heading + error))
            &&& finish_next(FinishView::Removed { error: Some(why) }, failed) == StepView::<
                ActionView,
                FinishView,
                (),
            >::Done(Err(why + "；"@ + (heading + error)))
            &&& finish_next(FinishView::Removed { error: None }, EventView::Done) == StepView::<
                ActionView,
                FinishView,
                (),
            >::Done(Ok(()))
        }),
{
}

} // verus!
