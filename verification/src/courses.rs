//! What a machine asks for in the course of its events, and where that leads it.

use vstd::prelude::*;

use crate::effects::StepView;

verus! {

/// What is asked for, one thing after the other, from a step on, while these events come in.
pub open spec fn asked<A, E, M, T>(
    next: spec_fn(M, E) -> StepView<A, M, T>,
    step: StepView<A, M, T>,
    events: Seq<E>,
) -> Seq<A>
    decreases events.len(),
{
    match step {
        StepView::Ask(action, machine) => if events.len() == 0 {
            seq![action]
        } else {
            seq![action] + asked(next, next(machine, events[0]), events.drop_first())
        },
        StepView::Done(_) => seq![],
    }
}

/// The step that these events lead to; what comes in after the end changes nothing.
pub open spec fn reached<A, E, M, T>(
    next: spec_fn(M, E) -> StepView<A, M, T>,
    step: StepView<A, M, T>,
    events: Seq<E>,
) -> StepView<A, M, T>
    decreases events.len(),
{
    match step {
        StepView::Ask(_, machine) => if events.len() == 0 {
            step
        } else {
            reached(next, next(machine, events[0]), events.drop_first())
        },
        StepView::Done(_) => step,
    }
}

/// One event more at the front.
pub proof fn lemma_course_step<A, E, M, T>(
    next: spec_fn(M, E) -> StepView<A, M, T>,
    action: A,
    machine: M,
    event: E,
    rest: Seq<E>,
)
    ensures
        asked(next, StepView::Ask(action, machine), seq![event] + rest) == seq![action] + asked(
            next,
            next(machine, event),
            rest,
        ),
        reached(next, StepView::Ask(action, machine), seq![event] + rest) == reached(
            next,
            next(machine, event),
            rest,
        ),
{
    let events = seq![event] + rest;
    assert(events.drop_first() =~= rest);
    assert(events[0] == event);
}

/// A course that goes on: what is asked for first, and then what is asked for from there on.
pub proof fn lemma_course_join<A, E, M, T>(
    next: spec_fn(M, E) -> StepView<A, M, T>,
    step: StepView<A, M, T>,
    first: Seq<E>,
    rest: Seq<E>,
)
    requires
        reached(next, step, first) is Ask,
    ensures
        asked(next, step, first).len() == first.len() + 1,
        asked(next, step, first + rest) == asked(next, step, first).drop_last() + asked(
            next,
            reached(next, step, first),
            rest,
        ),
        reached(next, step, first + rest) == reached(next, reached(next, step, first), rest),
    decreases first.len(),
{
    let whole = asked(next, step, first + rest);
    let tail = asked(next, reached(next, step, first), rest);
    if first.len() == 0 {
        assert(first + rest =~= rest);
        assert(whole =~= asked(next, step, first).drop_last() + tail);
    } else {
        let action = step->Ask_0;
        let machine = step->Ask_1;
        let later = first.drop_first();
        assert((first + rest).drop_first() =~= later + rest);
        lemma_course_join(next, next(machine, first[0]), later, rest);
        let inner = asked(next, next(machine, first[0]), later);
        assert(asked(next, step, first) == seq![action] + inner);
        assert(whole == seq![action] + (inner.drop_last() + tail));
        assert(whole =~= (seq![action] + inner).drop_last() + tail);
    }
}

} // verus!
