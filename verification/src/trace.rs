//! What running a compiled modifier chain does, as a sequence of events.
//!
//! A modifier that is entered runs its own code, invokes its thunk some
//! number of times, and leaves. What the thunk runs is the next stage of the
//! chain. The model below records entering, leaving and the run of the
//! method's own body, and states what follows for the order of execution.

use vstd::prelude::*;
use crate::modifiers::{nest, nest_from, ChainView, InvocationView};

verus! {

/// One observable step of a run.
pub ghost enum Event {
    /// The modifier at `position` of the list starts: its code before the
    /// thunk runs.
    Enter { position: int, modifier: Seq<char> },
    /// The method's own body runs.
    Body,
    /// The modifier at `position` finishes: its code after the thunk has run.
    Leave { position: int, modifier: Seq<char> },
}

impl Event {
    /// Whether the event belongs to a modifier at `stop` or before it. The
    /// run of the body belongs to none.
    pub open spec fn within(self, stop: int) -> bool {
        match self {
            Event::Enter { position, .. } => position <= stop,
            Event::Body => false,
            Event::Leave { position, .. } => position <= stop,
        }
    }
}

/// `events`, `times` times in a row.
pub open spec fn repeat(events: Seq<Event>, times: nat) -> Seq<Event>
    decreases times,
{
    if times == 0 {
        Seq::empty()
    } else {
        events + repeat(events, (times - 1) as nat)
    }
}

/// The events of one run of `chain`, whose outermost stage stands at
/// `position` of the modifier list, when the modifier at each position `p`
/// invokes its thunk `calls[p]` times.
pub open spec fn trace(chain: ChainView, calls: Seq<nat>, position: int) -> Seq<Event>
    decreases chain,
{
    match chain {
        ChainView::Body(_) => seq![Event::Body],
        ChainView::Wrap { modifier, args, inner } => seq![Event::Enter { position, modifier }]
            + repeat(trace(*inner, calls, position + 1), calls[position]) + seq![
            Event::Leave { position, modifier },
        ],
    }
}

/// The modifiers from `from` on start one after the other, in declared order.
pub open spec fn entries(invocations: Seq<InvocationView>, from: int) -> Seq<Event> {
    Seq::new(
        (invocations.len() - from) as nat,
        |i: int| Event::Enter { position: from + i, modifier: invocations[from + i].modifier },
    )
}

/// The modifiers from `from` on finish one after the other, the last
/// declared first.
pub open spec fn exits(invocations: Seq<InvocationView>, from: int) -> Seq<Event> {
    Seq::new(
        (invocations.len() - from) as nat,
        |i: int|
            Event::Leave {
                position: invocations.len() - 1 - i,
                modifier: invocations[invocations.len() - 1 - i].modifier,
            },
    )
}

/// The modifier and arguments of the stage at `position` of a chain, counted
/// from the outermost; nothing past the last stage.
pub open spec fn stage(chain: ChainView, position: int) -> Option<InvocationView>
    decreases chain,
{
    match chain {
        ChainView::Body(_) => None,
        ChainView::Wrap { modifier, args, inner } => if position == 0 {
            Some(InvocationView { modifier, args })
        } else {
            stage(*inner, position - 1)
        },
    }
}

proof fn lemma_trace_from(
    invocations: Seq<InvocationView>,
    body: Seq<char>,
    calls: Seq<nat>,
    from: int,
)
    requires
        calls.len() == invocations.len(),
        forall|i: int| 0 <= i < calls.len() ==> calls[i] == 1,
        0 <= from <= invocations.len(),
    ensures
        trace(nest_from(invocations, from, body), calls, from) == entries(invocations, from)
            + seq![Event::Body] + exits(invocations, from),
    decreases invocations.len() - from,
{
    let whole = trace(nest_from(invocations, from, body), calls, from);
    let expected = entries(invocations, from) + seq![Event::Body] + exits(invocations, from);
    if from < invocations.len() {
        lemma_trace_from(invocations, body, calls, from + 1);
        let inner = trace(nest_from(invocations, from + 1, body), calls, from + 1);
        assert(repeat(inner, 1) =~= inner) by {
            assert(repeat(inner, 0) =~= Seq::<Event>::empty());
        }
        assert(whole =~= expected);
    } else {
        assert(whole =~= expected);
    }
}

/// When every modifier invokes its thunk exactly once, a run enters the
/// modifiers in declared order, then runs the body, then leaves the
/// modifiers in the reverse order: the first declared starts first and
/// finishes last.
pub proof fn lemma_trace_in_declared_order(
    invocations: Seq<InvocationView>,
    body: Seq<char>,
    calls: Seq<nat>,
)
    requires
        calls.len() == invocations.len(),
        forall|i: int| 0 <= i < calls.len() ==> calls[i] == 1,
    ensures
        trace(nest(invocations, body), calls, 0) == entries(invocations, 0) + seq![Event::Body]
            + exits(invocations, 0),
{
    lemma_trace_from(invocations, body, calls, 0);
}

proof fn lemma_repeat_within(events: Seq<Event>, times: nat, stop: int)
    requires
        forall|k: int| 0 <= k < events.len() ==> events[k].within(stop),
    ensures
        forall|k: int| 0 <= k < repeat(events, times).len() ==> repeat(events, times)[k].within(stop),
    decreases times,
{
    if times > 0 {
        let rest = repeat(events, (times - 1) as nat);
        lemma_repeat_within(events, (times - 1) as nat, stop);
        assert forall|k: int| 0 <= k < (events + rest).len() implies (events + rest)[k].within(
            stop,
        ) by {
            if k < events.len() {
                assert((events + rest)[k] == events[k]);
            } else {
                assert((events + rest)[k] == rest[k - events.len()]);
            }
        }
    }
}

proof fn lemma_short_circuit_from(
    invocations: Seq<InvocationView>,
    body: Seq<char>,
    calls: Seq<nat>,
    stop: int,
    from: int,
)
    requires
        calls.len() == invocations.len(),
        0 <= from <= stop < invocations.len(),
        calls[stop] == 0,
    ensures
        forall|k: int|
            0 <= k < trace(nest_from(invocations, from, body), calls, from).len() ==> trace(
                nest_from(invocations, from, body),
                calls,
                from,
            )[k].within(stop),
    decreases stop - from,
{
    let inner = trace(nest_from(invocations, from + 1, body), calls, from + 1);
    if from < stop {
        lemma_short_circuit_from(invocations, body, calls, stop, from + 1);
        lemma_repeat_within(inner, calls[from], stop);
    } else {
        assert(repeat(inner, 0) =~= Seq::<Event>::empty());
    }
}

/// When a modifier never invokes its thunk, nothing that it wraps ever
/// runs: every event of a run belongs to that modifier or to one declared
/// before it, and the body does not run. This holds however often the other
/// modifiers invoke their thunks.
pub proof fn lemma_skipped_thunk_short_circuits(
    invocations: Seq<InvocationView>,
    body: Seq<char>,
    calls: Seq<nat>,
    stop: int,
)
    requires
        calls.len() == invocations.len(),
        0 <= stop < invocations.len(),
        calls[stop] == 0,
    ensures
        forall|k: int|
            0 <= k < trace(nest(invocations, body), calls, 0).len() ==> trace(
                nest(invocations, body),
                calls,
                0,
            )[k].within(stop),
{
    lemma_short_circuit_from(invocations, body, calls, stop, 0);
}

proof fn lemma_stage_from(
    invocations: Seq<InvocationView>,
    body: Seq<char>,
    from: int,
    position: int,
)
    requires
        0 <= from <= position < invocations.len(),
    ensures
        stage(nest_from(invocations, from, body), position - from) == Some(invocations[position]),
    decreases position - from,
{
    if from < position {
        lemma_stage_from(invocations, body, from + 1, position);
    }
}

/// Each stage of a compiled chain holds the modifier and the arguments of
/// the invocation at its own position of the list, and of no other.
pub proof fn lemma_stage_holds_own_invocation(
    invocations: Seq<InvocationView>,
    body: Seq<char>,
    position: int,
)
    requires
        0 <= position < invocations.len(),
    ensures
        stage(nest(invocations, body), position) == Some(invocations[position]),
{
    lemma_stage_from(invocations, body, 0, position);
}

/// Replacing the arguments that one invocation holds changes what no other
/// stage of the compiled chain holds.
pub proof fn lemma_arguments_are_per_invocation(
    invocations: Seq<InvocationView>,
    body: Seq<char>,
    changed: int,
    args: Seq<Seq<char>>,
    other: int,
)
    requires
        0 <= changed < invocations.len(),
        0 <= other < invocations.len(),
        changed != other,
    ensures
        stage(
            nest(
                invocations.update(
                    changed,
                    InvocationView { modifier: invocations[changed].modifier, args },
                ),
                body,
            ),
            other,
        ) == stage(nest(invocations, body), other),
{
    let updated = invocations.update(
        changed,
        InvocationView { modifier: invocations[changed].modifier, args },
    );
    lemma_stage_holds_own_invocation(updated, body, other);
    lemma_stage_holds_own_invocation(invocations, body, other);
}

} // verus!
