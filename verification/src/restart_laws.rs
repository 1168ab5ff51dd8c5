//! What a restart of the desktop application does in the course of it.

use vstd::prelude::*;

use crate::codex_desktop::{
    numbers_of, restart_end, restart_next, restarting, CodexProcessView, DesktopActionView,
    DesktopEventView, RestartOutcomeView, RestartView,
};
use crate::courses::{asked, lemma_course_step, reached};
use crate::effects::StepView;
use crate::text::decimal;

verus! {

/// The machine of a restart.
pub open spec fn restart_machine() -> spec_fn(
    RestartView,
    DesktopEventView,
) -> StepView<DesktopActionView, RestartView, RestartOutcomeView> {
    |machine: RestartView, event: DesktopEventView| restart_next(machine, event)
}

/// Ending a list of processes: they are asked for in their order, and whatever is asked for later
/// comes after the last of them.
proof fn lemma_each_is_ended(
    app_id: Seq<char>,
    count: usize,
    numbers: Seq<u32>,
    events: Seq<DesktopEventView>,
)
    ensures
        ({
            let course = asked(restart_machine(), restart_end(app_id, count, numbers), events);
            forall|k: int|
                0 <= k < course.len() && #[trigger] course[k] is Launch ==> {
                    &&& k <= events.len()
                    &&& k == numbers.len() + 1
                    &&& course[k] == DesktopActionView::Launch("shell:AppsFolder\\"@ + app_id)
                    &&& forall|i: int|
                        0 <= i < numbers.len() ==> #[trigger] course[i]
                            == DesktopActionView::Terminate(numbers[i])
                }
        }),
    decreases numbers.len(),
{
    let machine = restart_machine();
    let step = restart_end(app_id, count, numbers);
    let course = asked(machine, step, events);
    if events.len() > 0 {
        let later = events.drop_first();
        assert(events =~= seq![events[0]] + later);
        lemma_course_step(machine, step->Ask_0, step->Ask_1, events[0], later);
        let rest = asked(machine, restart_next(step->Ask_1, events[0]), later);
        assert(course == seq![step->Ask_0] + rest);
        if numbers.len() == 0 {
            let launch = restart_next(step->Ask_1, events[0]);
            if later.len() > 0 {
                assert(later =~= seq![later[0]] + later.drop_first());
                lemma_course_step(
                    machine,
                    launch->Ask_0,
                    launch->Ask_1,
                    later[0],
                    later.drop_first(),
                );
                assert(restart_next(launch->Ask_1, later[0]) is Done);
            }
            assert(rest =~= seq![launch->Ask_0]);
        } else if !(events[0] is Failed) {
            lemma_each_is_ended(app_id, count, numbers.drop_first(), later);
            assert forall|k: int| 0 <= k < course.len() && #[trigger] course[k] is Launch implies {
                &&& k <= events.len()
                &&& k == numbers.len() + 1
                &&& course[k] == DesktopActionView::Launch("shell:AppsFolder\\"@ + app_id)
                &&& forall|i: int|
                    0 <= i < numbers.len() ==> #[trigger] course[i] == DesktopActionView::Terminate(
                        numbers[i],
                    )
            } by {
                assert(course[k] == rest[k - 1]);
                assert forall|i: int| 0 <= i < numbers.len() implies #[trigger] course[i]
                    == DesktopActionView::Terminate(numbers[i]) by {
                    if i > 0 {
                        assert(course[i] == rest[i - 1]);
                        assert(numbers.drop_first()[i - 1] == numbers[i]);
                    }
                }
            }
        } else {
            assert(rest =~= seq![]);
        }
    }
}

/// In every course of a restart, whatever comes of what is asked for: before the application is
/// started, the processes are looked for a second time (`again` is the place of that), and each one
/// that is found then is asked to be ended. What is started is the package of the first process
/// that was found at first, or the one that is installed by default.
pub proof fn law_all_that_is_left_is_ended_before_the_start(
    events: Seq<DesktopEventView>,
    k: int,
)
    requires
        0 <= k < asked(restart_machine(), restarting(true), events).len(),
        asked(restart_machine(), restarting(true), events)[k] is Launch,
    ensures
        k <= events.len(),
        events[0] matches DesktopEventView::Processes(found) && {
            let course = asked(restart_machine(), restarting(true), events);
            let again: int = if found.len() == 0 {
                1
            } else {
                3
            };
            &&& again < k
            &&& course[0] is Discover && course[again] is Discover
            &&& events[again] matches DesktopEventView::Processes(left) && again + left.len() < k
                && (forall|j: int|
                again < j <= again + left.len() ==> #[trigger] course[j]
                    == DesktopActionView::Terminate(left[j - again - 1].pid))
            &&& course[k] == DesktopActionView::Launch(
                "shell:AppsFolder\\"@ + if found.len() == 0 {
                    "OpenAI.Codex_2p2nqsd0c76g0!App"@
                } else {
                    found[0].app_id
                },
            )
        },
{
    let machine = restart_machine();
    let first = restarting(true);
    let course = asked(machine, first, events);
    if events.len() > 0 {
        let events1 = events.drop_first();
        assert(events =~= seq![events[0]] + events1);
        lemma_course_step(machine, first->Ask_0, first->Ask_1, events[0], events1);
        let step1 = restart_next(first->Ask_1, events[0]);
        let course1 = asked(machine, step1, events1);
        assert(course == seq![first->Ask_0] + course1);
        if let DesktopEventView::Processes(found) = events[0] {
            if found.len() == 0 {
                assert(course[k] == course1[k - 1]);
                lemma_from_second_look(
                    step1->Ask_0,
                    step1->Ask_1->Left_app_id,
                    step1->Ask_1->Left_count,
                    events1,
                    k - 1,
                );
                let left = events1[0]->Processes_0;
                assert(events[1] == events1[0]);
                assert(course[1] == course1[0]);
                assert forall|j: int| 1 < j <= 1 + left.len() implies #[trigger] course[j]
                    == DesktopActionView::Terminate(left[j - 2].pid) by {
                    assert(course[j] == course1[j - 1]);
                }
            } else if events1.len() > 0 {
                let events2 = events1.drop_first();
                assert(events1 =~= seq![events1[0]] + events2);
                lemma_course_step(machine, step1->Ask_0, step1->Ask_1, events1[0], events2);
                let step2 = restart_next(step1->Ask_1, events1[0]);
                let course2 = asked(machine, step2, events2);
                assert(course1 == seq![step1->Ask_0] + course2);
                if events2.len() > 0 {
                    let events3 = events2.drop_first();
                    assert(events2 =~= seq![events2[0]] + events3);
                    lemma_course_step(machine, step2->Ask_0, step2->Ask_1, events2[0], events3);
                    let step3 = restart_next(step2->Ask_1, events2[0]);
                    let course3 = asked(machine, step3, events3);
                    assert(course2 == seq![step2->Ask_0] + course3);
                    assert(course[k] == course3[k - 3]);
                    lemma_from_second_look(
                        step3->Ask_0,
                        step3->Ask_1->Left_app_id,
                        step3->Ask_1->Left_count,
                        events3,
                        k - 3,
                    );
                    let left = events3[0]->Processes_0;
                    assert(events[3] == events3[0]);
                    assert(course[3] == course3[0]);
                    assert forall|j: int| 3 < j <= 3 + left.len() implies #[trigger] course[j]
                        == DesktopActionView::Terminate(left[j - 4].pid) by {
                        assert(course[j] == course3[j - 3]);
                    }
                } else {
                    assert(course2 =~= seq![step2->Ask_0]);
                    assert(course =~= seq![first->Ask_0, step1->Ask_0, step2->Ask_0]);
                }
            } else {
                assert(course =~= seq![first->Ask_0, step1->Ask_0]);
            }
        } else {
            assert(course =~= seq![first->Ask_0]);
        }
    } else {
        assert(course =~= seq![first->Ask_0]);
    }
}

/// The course from the second look at the processes on.
proof fn lemma_from_second_look(
    look: DesktopActionView,
    app_id: Seq<char>,
    count: usize,
    events: Seq<DesktopEventView>,
    k: int,
)
    requires
        look is Discover,
        ({
            let left = RestartView::Left { app_id, count };
            let course = asked(restart_machine(), StepView::Ask(look, left), events);
            0 <= k < course.len() && course[k] is Launch
        }),
    ensures
        0 < k <= events.len(),
        ({
            let state = RestartView::Left { app_id, count };
            let course = asked(restart_machine(), StepView::Ask(look, state), events);
            &&& course[0] is Discover
            &&& events[0] matches DesktopEventView::Processes(left) && left.len() < k && forall|
                j: int,
            |
                0 < j <= left.len() ==> #[trigger] course[j] == DesktopActionView::Terminate(
                    left[j - 1].pid,
                )
            &&& course[k] == DesktopActionView::Launch("shell:AppsFolder\\"@ + app_id)
        }),
{
    let machine = restart_machine();
    let state = RestartView::Left { app_id, count };
    let course = asked(machine, StepView::Ask(look, state), events);
    assert(course[0] == look);
    if events.len() > 0 {
        let later = events.drop_first();
        assert(events =~= seq![events[0]] + later);
        lemma_course_step(machine, look, state, events[0], later);
        let step = restart_next(state, events[0]);
        let rest = asked(machine, step, later);
        assert(course == seq![look] + rest);
        if k > 0 {
            assert(course[k] == rest[k - 1]);
        }
        if let DesktopEventView::Processes(left) = events[0] {
            if left.len() == 0 {
                if later.len() > 0 {
                    assert(later =~= seq![later[0]] + later.drop_first());
                    lemma_course_step(
                        machine,
                        step->Ask_0,
                        step->Ask_1,
                        later[0],
                        later.drop_first(),
                    );
                    assert(restart_next(step->Ask_1, later[0]) is Done);
                }
                assert(rest =~= seq![step->Ask_0]);
            } else {
                lemma_each_is_ended(app_id, count, numbers_of(left), later);
                assert forall|j: int| 0 < j <= left.len() implies #[trigger] course[j]
                    == DesktopActionView::Terminate(left[j - 1].pid) by {
                    assert(rest[j - 1] == course[j]);
                    assert(numbers_of(left)[j - 1] == left[j - 1].pid);
                }
            }
        } else {
            assert(rest =~= seq![]);
        }
    } else {
        assert(course =~= seq![look]);
    }
}

/// Ending a list of processes, where each is ended: all of them in their order, a pause, the start.
proof fn lemma_ending_course(
    app_id: Seq<char>,
    count: usize,
    numbers: Seq<u32>,
    ended: Seq<DesktopEventView>,
    settled: DesktopEventView,
    launched: DesktopEventView,
)
    requires
        ended.len() == numbers.len(),
        forall|i: int| 0 <= i < ended.len() ==> !(#[trigger] ended[i] is Failed),
        !(launched is Failed),
    ensures
        ({
            let events = ended + seq![settled, launched];
            let step = restart_end(app_id, count, numbers);
            &&& asked(restart_machine(), step, events) == numbers.map_values(
                |pid: u32| DesktopActionView::Terminate(pid),
            ) + seq![
                DesktopActionView::Sleep(900),
                DesktopActionView::Launch("shell:AppsFolder\\"@ + app_id),
            ]
            &&& reached(restart_machine(), step, events) == StepView::<
                DesktopActionView,
                RestartView,
                RestartOutcomeView,
            >::Done(Ok(RestartOutcomeView { was_running: count > 0, processes_closed: count }))
        }),
    decreases numbers.len(),
{
    let machine = restart_machine();
    let events = ended + seq![settled, launched];
    let step = restart_end(app_id, count, numbers);
    let asks = numbers.map_values(|pid: u32| DesktopActionView::Terminate(pid));
    let last = seq![
        DesktopActionView::Sleep(900),
        DesktopActionView::Launch("shell:AppsFolder\\"@ + app_id),
    ];
    if numbers.len() == 0 {
        assert(events =~= seq![settled] + seq![launched]);
        lemma_course_step(machine, step->Ask_0, step->Ask_1, settled, seq![launched]);
        let launch = restart_next(step->Ask_1, settled);
        assert(seq![launched] =~= seq![launched] + Seq::<DesktopEventView>::empty());
        lemma_course_step(machine, launch->Ask_0, launch->Ask_1, launched, seq![]);
        assert(asked(machine, step, events) =~= asks + last);
    } else {
        let rest = ended.drop_first() + seq![settled, launched];
        assert(events =~= seq![ended[0]] + rest);
        lemma_course_step(machine, step->Ask_0, step->Ask_1, ended[0], rest);
        lemma_ending_course(
            app_id,
            count,
            numbers.drop_first(),
            ended.drop_first(),
            settled,
            launched,
        );
        assert(asked(machine, step, events) =~= asks + last);
    }
}

/// A restart in which nothing fails, from its first to its last request: the processes that are
/// found are all asked to close, and given time for it, those that are found then are all ended,
/// and given time for it, and the application is started. It tells how many were found at first.
pub proof fn law_course_of_a_restart(
    found: Seq<CodexProcessView>,
    closed: DesktopEventView,
    paused: DesktopEventView,
    left: Seq<CodexProcessView>,
    ended: Seq<DesktopEventView>,
    settled: DesktopEventView,
    launched: DesktopEventView,
)
    requires
        found.len() <= usize::MAX,
        ended.len() == left.len(),
        forall|i: int| 0 <= i < ended.len() ==> !(#[trigger] ended[i] is Failed),
        !(launched is Failed),
    ensures
        ({
            let package = if found.len() == 0 {
                "OpenAI.Codex_2p2nqsd0c76g0!App"@
            } else {
                found[0].app_id
            };
            let start = seq![DesktopActionView::Launch("shell:AppsFolder\\"@ + package)];
            let closing = if found.len() == 0 {
                seq![]
            } else {
                seq![
                    DesktopActionView::Close(
                        Seq::new(found.len(), |i: int| found[i].pid),
                    ),
                    DesktopActionView::Sleep(1800),
                ]
            };
            let ending = if left.len() == 0 {
                seq![]
            } else {
                Seq::new(left.len(), |i: int| DesktopActionView::Terminate(left[i].pid)).push(
                    DesktopActionView::Sleep(900),
                )
            };
            let look = seq![DesktopActionView::Discover];
            let first = seq![DesktopEventView::Processes(found)];
            let again = seq![DesktopEventView::Processes(left)];
            let events = first + (if found.len() == 0 {
                seq![]
            } else {
                seq![closed, paused]
            }) + again + (if left.len() == 0 {
                seq![]
            } else {
                ended.push(settled)
            }) + seq![launched];
            &&& asked(restart_machine(), restarting(true), events) == look + closing + look + ending
                + start
            &&& reached(restart_machine(), restarting(true), events) == StepView::<
                DesktopActionView,
                RestartView,
                RestartOutcomeView,
            >::Done(
                Ok(
                    RestartOutcomeView {
                        was_running: found.len() > 0,
                        processes_closed: found.len() as usize,
                    },
                ),
            )
        }),
{
    let machine = restart_machine();
    let look = seq![DesktopActionView::Discover];
    let seen = DesktopEventView::Processes(found);
    let count = found.len() as usize;
    let step1 = restart_next(RestartView::Found, seen);
    let package = if found.len() == 0 {
        "OpenAI.Codex_2p2nqsd0c76g0!App"@
    } else {
        found[0].app_id
    };
    let state = RestartView::Left { app_id: package, count };
    let remaining = DesktopEventView::Processes(left);
    let after = restart_next(state, remaining);
    let tail = (if left.len() == 0 {
        seq![]
    } else {
        ended.push(settled)
    }) + seq![launched];
    let start = seq![DesktopActionView::Launch("shell:AppsFolder\\"@ + package)];
    let ending = if left.len() == 0 {
        seq![]
    } else {
        Seq::new(left.len(), |i: int| DesktopActionView::Terminate(left[i].pid)).push(
            DesktopActionView::Sleep(900),
        )
    };
    let end = StepView::<DesktopActionView, RestartView, RestartOutcomeView>::Done(
        Ok(RestartOutcomeView { was_running: found.len() > 0, processes_closed: count }),
    );
    assert(asked(machine, after, tail) == ending + start && reached(machine, after, tail) == end)
        by {
        if left.len() == 0 {
            assert(tail =~= seq![launched] + Seq::<DesktopEventView>::empty());
            lemma_course_step(machine, after->Ask_0, after->Ask_1, launched, seq![]);
            assert(asked(machine, after, tail) =~= ending + start);
        } else {
            lemma_ending_course(package, count, numbers_of(left), ended, settled, launched);
            assert(tail =~= ended + seq![settled, launched]);
            assert(asked(machine, after, tail) =~= ending + start);
        }
    }
    lemma_course_step(machine, DesktopActionView::Discover, state, remaining, tail);
    let rest = seq![remaining] + tail;
    if found.len() == 0 {
        lemma_course_step(machine, DesktopActionView::Discover, RestartView::Found, seen, rest);
        assert(seq![seen] + seq![] + seq![remaining] + (if left.len() == 0 {
            seq![]
        } else {
            ended.push(settled)
        }) + seq![launched] =~= seq![seen] + rest);
        assert(look + (look + (ending + start)) =~= look + seq![] + look + ending + start);
    } else {
        let step2 = restart_next(step1->Ask_1, closed);
        assert(numbers_of(found) =~= Seq::new(found.len(), |i: int| found[i].pid));
        lemma_course_step(machine, step2->Ask_0, step2->Ask_1, paused, rest);
        lemma_course_step(machine, step1->Ask_0, step1->Ask_1, closed, seq![paused] + rest);
        lemma_course_step(
            machine,
            DesktopActionView::Discover,
            RestartView::Found,
            seen,
            seq![closed] + (seq![paused] + rest),
        );
        assert(seq![seen] + seq![closed, paused] + seq![remaining] + (if left.len() == 0 {
            seq![]
        } else {
            ended.push(settled)
        }) + seq![launched] =~= seq![seen] + (seq![closed] + (seq![paused] + rest)));
        let closing = seq![step1->Ask_0, step2->Ask_0];
        assert(look + (seq![step1->Ask_0] + (seq![step2->Ask_0] + (look + (ending + start))))
            =~= look + closing + look + ending + start);
    }
}

/// A process that cannot be ended ends the restart, which names it: neither the processes after it
/// nor the application are touched.
pub proof fn law_process_that_stays_ends_the_restart(
    app_id: Seq<char>,
    count: usize,
    left: Seq<CodexProcessView>,
    ended: Seq<DesktopEventView>,
    error: Seq<char>,
    later: Seq<DesktopEventView>,
)
    requires
        ended.len() < left.len(),
        forall|i: int| 0 <= i < ended.len() ==> !(#[trigger] ended[i] is Failed),
    ensures
        ({
            let step = restart_next(
                RestartView::Left { app_id, count },
                DesktopEventView::Processes(left),
            );
            let events = ended + seq![DesktopEventView::Failed(error)] + later;
            &&& asked(restart_machine(), step, events) == Seq::new(
                ended.len() + 1,
                |i: int| DesktopActionView::Terminate(left[i].pid),
            )
            &&& reached(restart_machine(), step, events) == StepView::<
                DesktopActionView,
                RestartView,
                RestartOutcomeView,
            >::Done(
                Err(
                    "无法结束 Codex 进程 "@ + decimal(left[ended.len() as int].pid as nat),
                ),
            )
        }),
{
    lemma_process_that_stays(app_id, count, numbers_of(left), ended, error, later);
    assert(Seq::new(
        ended.len() + 1,
        |i: int| DesktopActionView::Terminate(numbers_of(left)[i]),
    ) =~= Seq::new(ended.len() + 1, |i: int| DesktopActionView::Terminate(left[i].pid)));
}

/// A process that cannot be ended, among those that are left.
proof fn lemma_process_that_stays(
    app_id: Seq<char>,
    count: usize,
    numbers: Seq<u32>,
    ended: Seq<DesktopEventView>,
    error: Seq<char>,
    later: Seq<DesktopEventView>,
)
    requires
        ended.len() < numbers.len(),
        forall|i: int| 0 <= i < ended.len() ==> !(#[trigger] ended[i] is Failed),
    ensures
        ({
            let step = restart_end(app_id, count, numbers);
            let events = ended + seq![DesktopEventView::Failed(error)] + later;
            &&& asked(restart_machine(), step, events) == Seq::new(
                ended.len() + 1,
                |i: int| DesktopActionView::Terminate(numbers[i]),
            )
            &&& reached(restart_machine(), step, events) == StepView::<
                DesktopActionView,
                RestartView,
                RestartOutcomeView,
            >::Done(
                Err("无法结束 Codex 进程 "@ + decimal(numbers[ended.len() as int] as nat)),
            )
        }),
    decreases ended.len(),
{
    let machine = restart_machine();
    let step = restart_end(app_id, count, numbers);
    let failed = DesktopEventView::Failed(error);
    let events = ended + seq![failed] + later;
    let asks = Seq::new(ended.len() + 1, |i: int| DesktopActionView::Terminate(numbers[i]));
    if ended.len() == 0 {
        assert(events =~= seq![failed] + later);
        lemma_course_step(machine, step->Ask_0, step->Ask_1, failed, later);
        assert(asked(machine, step, events) =~= asks);
    } else {
        let rest = ended.drop_first() + seq![failed] + later;
        assert(events =~= seq![ended[0]] + rest);
        lemma_course_step(machine, step->Ask_0, step->Ask_1, ended[0], rest);
        lemma_process_that_stays(
            app_id,
            count,
            numbers.drop_first(),
            ended.drop_first(),
            error,
            later,
        );
        assert(asked(machine, step, events) =~= asks);
    }
}

} // verus!
