//! Which paths are checked, and in what order, before credentials are touched.

use vstd::prelude::*;

use crate::accounts::{AccountIndexView, AccountInfoView};
use crate::cleanup_laws::clean_machine;
use crate::courses::{asked, lemma_course_join, reached};
use crate::credentials::{is_account_id, usable_identity};
use crate::digest::{hex, sha256};
use crate::effects::{ActionView, EventView, HomeFile, HomeView, PlaceView, StepView};
use crate::home_laws::idle_machine;
use crate::recovery::{
    beginning, clean_home_next, cleaning_home, ensuring_idle, recover_next, recovering, sweep_next,
    sweeping, BeginView, CheckedRemoveView, CleanHomeView, EnsureIdleView, RecoverView,
    RecoveredView, ReportView, SweepView, TransactionView,
};
use crate::recovery_laws::{begin_machine, recover_machine};
use crate::vault::{importing, FinishView};
use crate::vault_laws::import_machine;

verus! {

/// The machine that recovers one home.
pub open spec fn sweep_machine() -> spec_fn(
    SweepView,
    EventView,
) -> StepView<ActionView, SweepView, u64> {
    |machine: SweepView, event: EventView| sweep_next(machine, event)
}

/// An update is recorded after the paths of the data directory, of the credentials in use and of
/// the record were checked, and only where none is recorded: it is encoded, sealed and written.
pub proof fn law_course_of_recording_an_update(
    codex_home: Seq<char>,
    target: Seq<u8>,
    id: Seq<char>,
    before: Option<Seq<u8>>,
    bytes: Seq<u8>,
    sealed: Seq<u8>,
)
    ensures
        ({
            let start = beginning(codex_home, target, id, before);
            let done = EventView::Done;
            let events = seq![
                done,
                done,
                done,
                EventView::Present(false),
                EventView::Bytes(bytes),
                EventView::Bytes(sealed),
                done,
            ];
            &&& asked(begin_machine(), start, events) == seq![
                ActionView::CheckPath(PlaceView::DataDir),
                ActionView::CheckPath(PlaceView::InHome(HomeView::Active, HomeFile::Auth)),
                ActionView::CheckPath(PlaceView::Journal),
                ActionView::Exists(PlaceView::Journal),
                ActionView::Encode(
                    TransactionView {
                        version: 1,
                        codex_home,
                        target_id: id,
                        target_hash: hex(sha256(target)),
                        before,
                    },
                ),
                ActionView::Seal(bytes),
                ActionView::Write(PlaceView::Journal, sealed),
            ]
            &&& reached(begin_machine(), start, events) == StepView::<
                ActionView,
                BeginView,
                (),
            >::Done(Ok(()))
        }),
{
    reveal_with_fuel(asked, 9);
    reveal_with_fuel(reached, 9);
    let start = beginning(codex_home, target, id, before);
    let done = EventView::Done;
    let events = seq![
        done,
        done,
        done,
        EventView::Present(false),
        EventView::Bytes(bytes),
        EventView::Bytes(sealed),
        done,
    ];
    assert(asked(begin_machine(), start, events) =~= seq![
        ActionView::CheckPath(PlaceView::DataDir),
        ActionView::CheckPath(PlaceView::InHome(HomeView::Active, HomeFile::Auth)),
        ActionView::CheckPath(PlaceView::Journal),
        ActionView::Exists(PlaceView::Journal),
        ActionView::Encode(
            TransactionView {
                version: 1,
                codex_home,
                target_id: id,
                target_hash: hex(sha256(target)),
                before,
            },
        ),
        ActionView::Seal(bytes),
        ActionView::Write(PlaceView::Journal, sealed),
    ]);
}

/// A recorded update is looked at after the path of the record was checked, and the credentials in
/// use are read after theirs was.
pub proof fn law_course_of_reading_a_recorded_update(
    home: Seq<char>,
    report: ReportView,
    sealed: Seq<u8>,
    bytes: Seq<u8>,
    transaction: TransactionView,
)
    requires
        transaction.version == 1,
        transaction.codex_home == home,
    ensures
        ({
            let done = EventView::Done;
            let events = seq![
                done,
                EventView::Present(true),
                EventView::Bytes(sealed),
                EventView::Bytes(bytes),
                EventView::Journal(transaction),
                done,
            ];
            asked(recover_machine(), recovering(home, report), events) == seq![
                ActionView::CheckPath(PlaceView::Journal),
                ActionView::Exists(PlaceView::Journal),
                ActionView::Read(PlaceView::Journal),
                ActionView::Unseal(sealed),
                ActionView::Decode(bytes),
                ActionView::CheckPath(PlaceView::InHome(HomeView::Active, HomeFile::Auth)),
                ActionView::Read(PlaceView::InHome(HomeView::Active, HomeFile::Auth)),
            ]
        }),
{
    reveal_with_fuel(asked, 8);
    let done = EventView::Done;
    let events = seq![
        done,
        EventView::Present(true),
        EventView::Bytes(sealed),
        EventView::Bytes(bytes),
        EventView::Journal(transaction),
        done,
    ];
    assert(asked(recover_machine(), recovering(home, report), events) =~= seq![
        ActionView::CheckPath(PlaceView::Journal),
        ActionView::Exists(PlaceView::Journal),
        ActionView::Read(PlaceView::Journal),
        ActionView::Unseal(sealed),
        ActionView::Decode(bytes),
        ActionView::CheckPath(PlaceView::InHome(HomeView::Active, HomeFile::Auth)),
        ActionView::Read(PlaceView::InHome(HomeView::Active, HomeFile::Auth)),
    ]);
}

/// A record of another version, or of another home of Codex, is not acted on, and that is told; so
/// is one that is damaged, and the absence of one is no error.
pub proof fn law_foreign_record_is_not_acted_on(
    home: Seq<char>,
    report: ReportView,
    transaction: TransactionView,
    error: Seq<char>,
)
    ensures
        ({
            let told = |why: Seq<char>|
                StepView::<ActionView, RecoverView, RecoveredView>::Done(
                    Ok(RecoveredView { report, error: Some(why) }),
                );
            let state = RecoverView::Decoded { home, report };
            &&& transaction.version != 1 || transaction.codex_home != home ==> recover_next(
                state,
                EventView::Journal(transaction),
            ) == told(
                "恢复记录版本或 Codex Home 不匹配，请恢复原 CODEX_HOME 设置后重试"@,
            )
            &&& recover_next(state, EventView::Damaged(error)) == told(
                "认证恢复记录损坏，请保留应用数据目录并检查备份"@,
            )
            &&& recover_next(RecoverView::Present { home, report }, EventView::Present(false))
                == StepView::<ActionView, RecoverView, RecoveredView>::Done(
                Ok(RecoveredView { report, error: None }),
            )
        }),
{
}

/// A home is looked at for a process after its path and that of the record were checked; without a
/// record it is idle.
pub proof fn law_course_of_finding_a_home_idle(home: HomeView, path: Seq<char>, error: Seq<char>)
    ensures
        ({
            let done = EventView::Done;
            let events = seq![done, done, EventView::Missing { path, error }];
            &&& asked(idle_machine(), ensuring_idle(home), events) == seq![
                ActionView::CheckPath(PlaceView::HomeDir(home)),
                ActionView::CheckPath(PlaceView::InHome(home, HomeFile::Child)),
                ActionView::ReadChild(home),
            ]
            &&& reached(idle_machine(), ensuring_idle(home), events) == StepView::<
                ActionView,
                EnsureIdleView,
                (),
            >::Done(Ok(()))
        }),
{
    reveal_with_fuel(asked, 5);
    reveal_with_fuel(reached, 5);
    let done = EventView::Done;
    let events = seq![done, done, EventView::Missing { path, error }];
    assert(asked(idle_machine(), ensuring_idle(home), events) =~= seq![
        ActionView::CheckPath(PlaceView::HomeDir(home)),
        ActionView::CheckPath(PlaceView::InHome(home, HomeFile::Child)),
        ActionView::ReadChild(home),
    ]);
}

/// What clearing a home looks at first: the paths of the home, of the record and of each file that
/// may hold credentials.
proof fn lemma_paths_of_a_home(home: HomeView, path: Seq<char>, error: Seq<char>)
    ensures
        ({
            let done = EventView::Done;
            let events = seq![done, done, EventView::Missing { path, error }, done, done, done];
            &&& asked(clean_machine(), cleaning_home(home), events) == seq![
                ActionView::CheckPath(PlaceView::HomeDir(home)),
                ActionView::CheckPath(PlaceView::InHome(home, HomeFile::Child)),
                ActionView::ReadChild(home),
                ActionView::CheckPath(PlaceView::InHome(home, HomeFile::Auth)),
                ActionView::CheckPath(PlaceView::InHome(home, HomeFile::AuthDraft)),
                ActionView::CheckPath(PlaceView::InHome(home, HomeFile::SwitchDraft)),
                ActionView::Exists(PlaceView::InHome(home, HomeFile::Auth)),
            ]
            &&& reached(clean_machine(), cleaning_home(home), events) == StepView::<
                ActionView,
                CleanHomeView,
                u64,
            >::Ask(
                ActionView::Exists(PlaceView::InHome(home, HomeFile::Auth)),
                CleanHomeView::Auth { home },
            )
        }),
{
    reveal_with_fuel(asked, 8);
    reveal_with_fuel(reached, 8);
    let done = EventView::Done;
    let events = seq![done, done, EventView::Missing { path, error }, done, done, done];
    assert(asked(clean_machine(), cleaning_home(home), events) =~= seq![
        ActionView::CheckPath(PlaceView::HomeDir(home)),
        ActionView::CheckPath(PlaceView::InHome(home, HomeFile::Child)),
        ActionView::ReadChild(home),
        ActionView::CheckPath(PlaceView::InHome(home, HomeFile::Auth)),
        ActionView::CheckPath(PlaceView::InHome(home, HomeFile::AuthDraft)),
        ActionView::CheckPath(PlaceView::InHome(home, HomeFile::SwitchDraft)),
        ActionView::Exists(PlaceView::InHome(home, HomeFile::Auth)),
    ]);
}

/// What clearing a home without credentials does then.
proof fn lemma_empty_home_is_looked_through(home: HomeView)
    ensures
        ({
            let no = EventView::Present(false);
            let done = EventView::Done;
            let start = StepView::<ActionView, CleanHomeView, u64>::Ask(
                ActionView::Exists(PlaceView::InHome(home, HomeFile::Auth)),
                CleanHomeView::Auth { home },
            );
            let events = seq![no, no, no, done, done];
            &&& asked(clean_machine(), start, events) == seq![
                ActionView::Exists(PlaceView::InHome(home, HomeFile::Auth)),
                ActionView::Exists(PlaceView::InHome(home, HomeFile::AuthDraft)),
                ActionView::Exists(PlaceView::InHome(home, HomeFile::SwitchDraft)),
                ActionView::CheckPath(PlaceView::InHome(home, HomeFile::Child)),
                ActionView::Remove(PlaceView::InHome(home, HomeFile::Child)),
            ]
            &&& reached(clean_machine(), start, events) == StepView::<
                ActionView,
                CleanHomeView,
                u64,
            >::Done(Ok(0))
        }),
{
    reveal_with_fuel(asked, 7);
    reveal_with_fuel(reached, 7);
    let no = EventView::Present(false);
    let done = EventView::Done;
    let start = StepView::<ActionView, CleanHomeView, u64>::Ask(
        ActionView::Exists(PlaceView::InHome(home, HomeFile::Auth)),
        CleanHomeView::Auth { home },
    );
    let events = seq![no, no, no, done, done];
    assert(asked(clean_machine(), start, events) =~= seq![
        ActionView::Exists(PlaceView::InHome(home, HomeFile::Auth)),
        ActionView::Exists(PlaceView::InHome(home, HomeFile::AuthDraft)),
        ActionView::Exists(PlaceView::InHome(home, HomeFile::SwitchDraft)),
        ActionView::CheckPath(PlaceView::InHome(home, HomeFile::Child)),
        ActionView::Remove(PlaceView::InHome(home, HomeFile::Child)),
    ]);
}

/// A home is cleared after all of its paths were checked and no process is found to work there; the
/// record of the process is taken away last.
pub proof fn law_course_of_clearing_a_home(home: HomeView, path: Seq<char>, error: Seq<char>)
    ensures
        ({
            let no = EventView::Present(false);
            let done = EventView::Done;
            let checked = seq![done, done, EventView::Missing { path, error }, done, done, done];
            let events = checked + seq![no, no, no, done, done];
            &&& asked(clean_machine(), cleaning_home(home), events) == seq![
                ActionView::CheckPath(PlaceView::HomeDir(home)),
                ActionView::CheckPath(PlaceView::InHome(home, HomeFile::Child)),
                ActionView::ReadChild(home),
                ActionView::CheckPath(PlaceView::InHome(home, HomeFile::Auth)),
                ActionView::CheckPath(PlaceView::InHome(home, HomeFile::AuthDraft)),
                ActionView::CheckPath(PlaceView::InHome(home, HomeFile::SwitchDraft)),
                ActionView::Exists(PlaceView::InHome(home, HomeFile::Auth)),
                ActionView::Exists(PlaceView::InHome(home, HomeFile::AuthDraft)),
                ActionView::Exists(PlaceView::InHome(home, HomeFile::SwitchDraft)),
                ActionView::CheckPath(PlaceView::InHome(home, HomeFile::Child)),
                ActionView::Remove(PlaceView::InHome(home, HomeFile::Child)),
            ]
            &&& reached(clean_machine(), cleaning_home(home), events) == StepView::<
                ActionView,
                CleanHomeView,
                u64,
            >::Done(Ok(0))
        }),
{
    lemma_paths_of_a_home(home, path, error);
    lemma_empty_home_is_looked_through(home);
    let no = EventView::Present(false);
    let done = EventView::Done;
    let checked = seq![done, done, EventView::Missing { path, error }, done, done, done];
    let rest = seq![no, no, no, done, done];
    lemma_course_join(clean_machine(), cleaning_home(home), checked, rest);
    let head = asked(clean_machine(), cleaning_home(home), checked);
    let start = reached(clean_machine(), cleaning_home(home), checked);
    assert(head.drop_last() + asked(clean_machine(), start, rest) =~= seq![
        ActionView::CheckPath(PlaceView::HomeDir(home)),
        ActionView::CheckPath(PlaceView::InHome(home, HomeFile::Child)),
        ActionView::ReadChild(home),
        ActionView::CheckPath(PlaceView::InHome(home, HomeFile::Auth)),
        ActionView::CheckPath(PlaceView::InHome(home, HomeFile::AuthDraft)),
        ActionView::CheckPath(PlaceView::InHome(home, HomeFile::SwitchDraft)),
        ActionView::Exists(PlaceView::InHome(home, HomeFile::Auth)),
        ActionView::Exists(PlaceView::InHome(home, HomeFile::AuthDraft)),
        ActionView::Exists(PlaceView::InHome(home, HomeFile::SwitchDraft)),
        ActionView::CheckPath(PlaceView::InHome(home, HomeFile::Child)),
        ActionView::Remove(PlaceView::InHome(home, HomeFile::Child)),
    ]);
}

/// Every file that a home is cleared of is removed by way of a check of its path, and counts. The
/// credentials of a runtime home are taken back into the vault instead.
pub proof fn law_files_are_checked_before_they_are_removed(
    home: HomeView,
    id: Seq<char>,
    count: u64,
)
    requires
        count < 2,
        is_account_id(id),
    ensures
        ({
            let yes = EventView::Present(true);
            let gone = CheckedRemoveView::Removed;
            let check = |file: HomeFile| ActionView::CheckPath(PlaceView::InHome(home, file));
            let look = |file: HomeFile| ActionView::Exists(PlaceView::InHome(home, file));
            let path = |file: HomeFile| CheckedRemoveView::Path(PlaceView::InHome(home, file));
            &&& !(home is Runtime) ==> clean_home_next(CleanHomeView::Auth { home }, yes)
                == StepView::<ActionView, CleanHomeView, u64>::Ask(
                check(HomeFile::Auth),
                CleanHomeView::AuthRemove { home, remove: path(HomeFile::Auth) },
            )
            &&& clean_home_next(
                CleanHomeView::AuthRemove { home, remove: gone },
                EventView::Done,
            ) == StepView::<ActionView, CleanHomeView, u64>::Ask(
                look(HomeFile::AuthDraft),
                CleanHomeView::Draft { home, count: 1 },
            )
            &&& clean_home_next(CleanHomeView::Draft { home, count }, yes) == StepView::<
                ActionView,
                CleanHomeView,
                u64,
            >::Ask(
                check(HomeFile::AuthDraft),
                CleanHomeView::DraftRemove { home, count, remove: path(HomeFile::AuthDraft) },
            )
            &&& clean_home_next(
                CleanHomeView::DraftRemove { home, count, remove: gone },
                EventView::Done,
            ) == StepView::<ActionView, CleanHomeView, u64>::Ask(
                look(HomeFile::SwitchDraft),
                CleanHomeView::Switch { home, count: (count + 1) as u64 },
            )
            &&& clean_home_next(CleanHomeView::Switch { home, count }, yes) == StepView::<
                ActionView,
                CleanHomeView,
                u64,
            >::Ask(
                check(HomeFile::SwitchDraft),
                CleanHomeView::SwitchRemove { home, count, remove: path(HomeFile::SwitchDraft) },
            )
            &&& clean_home_next(
                CleanHomeView::Auth { home: HomeView::Runtime(id) },
                yes,
            ) == StepView::<ActionView, CleanHomeView, u64>::Ask(
                ActionView::Exists(PlaceView::InHome(HomeView::Runtime(id), HomeFile::Auth)),
                CleanHomeView::Finish {
                    home: HomeView::Runtime(id),
                    finish: FinishView::Present { id },
                },
            )
        }),
{
}

/// A home is recovered after its path was checked: what is no directory is left alone, and in one
/// that is, the process is ended before anything is cleared.
pub proof fn law_course_of_recovering_a_home(
    home: HomeView,
    own: u32,
    path: Seq<char>,
    error: Seq<char>,
)
    ensures
        ({
            let done = EventView::Done;
            let none = EventView::Missing { path, error };
            &&& asked(
                sweep_machine(),
                sweeping(home, own),
                seq![done, EventView::Present(true), done, none],
            ) == seq![
                ActionView::CheckPath(PlaceView::HomeDir(home)),
                ActionView::IsDir(PlaceView::HomeDir(home)),
                ActionView::CheckPath(PlaceView::InHome(home, HomeFile::Child)),
                ActionView::ReadChild(home),
                ActionView::CheckPath(PlaceView::HomeDir(home)),
            ]
            &&& reached(
                sweep_machine(),
                sweeping(home, own),
                seq![done, EventView::Present(false)],
            ) == StepView::<ActionView, SweepView, u64>::Done(Ok(0))
        }),
{
    reveal_with_fuel(asked, 6);
    reveal_with_fuel(reached, 6);
    let done = EventView::Done;
    let none = EventView::Missing { path, error };
    assert(asked(
        sweep_machine(),
        sweeping(home, own),
        seq![done, EventView::Present(true), done, none],
    ) =~= seq![
        ActionView::CheckPath(PlaceView::HomeDir(home)),
        ActionView::IsDir(PlaceView::HomeDir(home)),
        ActionView::CheckPath(PlaceView::InHome(home, HomeFile::Child)),
        ActionView::ReadChild(home),
        ActionView::CheckPath(PlaceView::HomeDir(home)),
    ]);
}

/// An import, from reading the credentials to writing the index.
pub proof fn law_course_of_an_import(
    home: HomeView,
    account: Option<AccountInfoView>,
    label: Option<Seq<char>>,
    auth: Seq<u8>,
    id: Seq<char>,
    sealed: Seq<u8>,
    index: AccountIndexView,
)
    requires
        usable_identity(auth) == Ok::<Seq<char>, Seq<char>>(id),
        index.version == 1,
    ensures
        ({
            let done = EventView::Done;
            let events = seq![
                EventView::Bytes(auth),
                EventView::Bytes(sealed),
                done,
                done,
                EventView::Index(index),
            ];
            asked(import_machine(), importing(home, account, label), events) == seq![
                ActionView::Read(PlaceView::InHome(home, HomeFile::Auth)),
                ActionView::Seal(auth),
                ActionView::CreateDir(PlaceView::VaultDir),
                ActionView::Write(PlaceView::Vault(id), sealed),
                ActionView::ReadIndex,
                ActionView::Now,
            ]
        }),
{
    reveal_with_fuel(asked, 7);
    let done = EventView::Done;
    let events = seq![
        EventView::Bytes(auth),
        EventView::Bytes(sealed),
        done,
        done,
        EventView::Index(index),
    ];
    assert(asked(import_machine(), importing(home, account, label), events) =~= seq![
        ActionView::Read(PlaceView::InHome(home, HomeFile::Auth)),
        ActionView::Seal(auth),
        ActionView::CreateDir(PlaceView::VaultDir),
        ActionView::Write(PlaceView::Vault(id), sealed),
        ActionView::ReadIndex,
        ActionView::Now,
    ]);
}

} // verus!
