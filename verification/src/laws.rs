//! What holds of every sequence of span notifications.
//!
//! The notifications that a thread receives are taken as a sequence of
//! events, and the functions of [`crate::stack`] that the layer's contracts
//! are stated with are folded over it. The texts that a span keeps are taken
//! as a sequence too, each related to the next as the contract of a record
//! relates them.

use crate::scopes::ScopeCall;
use crate::stack::{after_enter, after_exit, consistent, is_top, offsets, Spans};
use vstd::prelude::*;

verus! {

/// One notification about a span on one thread.
pub enum SpanEvent {
    /// The span was entered; had a scope been begun for it, the stream would
    /// have answered `offset`.
    Enter { id: u64, name: Seq<char>, target: Seq<char>, data: Seq<char>, offset: usize },
    /// The span was exited.
    Exit { id: u64 },
}

/// The state after one event, with the profiler's scopes `enabled` or not.
pub open spec fn step(spans: Spans, enabled: bool, event: SpanEvent) -> Spans {
    match event {
        SpanEvent::Enter { id, name, target, data, offset } => if enabled {
            after_enter(spans, id, name, target, data, offset)
        } else {
            spans
        },
        SpanEvent::Exit { id } => after_exit(spans, id),
    }
}

/// The state after all of `events`, in their order.
pub open spec fn run(spans: Spans, enabled: bool, events: Seq<SpanEvent>) -> Spans
    decreases events.len(),
{
    if events.len() == 0 {
        spans
    } else {
        step(run(spans, enabled, events.drop_last()), enabled, events.last())
    }
}

/// The spans that `events` entered and did not exit, innermost last; `None`
/// where some exit names a span that is not the innermost one then.
pub open spec fn nesting(events: Seq<SpanEvent>) -> Option<Seq<u64>>
    decreases events.len(),
{
    if events.len() == 0 {
        Some(Seq::empty())
    } else {
        match nesting(events.drop_last()) {
            None => None,
            Some(ids) => match events.last() {
                SpanEvent::Enter { id, .. } => Some(ids.push(id)),
                SpanEvent::Exit { id } => if ids.len() > 0 && ids.last() == id {
                    Some(ids.drop_last())
                } else {
                    None
                },
            },
        }
    }
}

/// Whether every exit of `events` names the span entered last and not yet
/// exited, and every span entered is exited.
pub open spec fn well_nested(events: Seq<SpanEvent>) -> bool {
    nesting(events) == Some(Seq::<u64>::empty())
}

/// The offsets of the scopes that `calls` began and did not end, oldest
/// first; `None` where some end names an offset other than that of the scope
/// begun last and not yet ended.
pub open spec fn pairing(calls: Seq<ScopeCall>) -> Option<Seq<usize>>
    decreases calls.len(),
{
    if calls.len() == 0 {
        Some(Seq::empty())
    } else {
        match pairing(calls.drop_last()) {
            None => None,
            Some(open) => match calls.last() {
                ScopeCall::Begin { offset, .. } => Some(open.push(offset)),
                ScopeCall::End { offset } => if open.len() > 0 && open.last() == offset {
                    Some(open.drop_last())
                } else {
                    None
                },
            },
        }
    }
}

/// Whether every end of `calls` is handed the offset that its begin was
/// answered, innermost scope first, and every scope begun is ended.
pub open spec fn paired(calls: Seq<ScopeCall>) -> bool {
    pairing(calls) == Some(Seq::<usize>::empty())
}

/// The number of scopes that `calls` began.
pub open spec fn begins(calls: Seq<ScopeCall>) -> nat
    decreases calls.len(),
{
    if calls.len() == 0 {
        0
    } else {
        begins(calls.drop_last()) + if calls.last() is Begin {
            1nat
        } else {
            0nat
        }
    }
}

/// The number of scopes that `calls` ended.
pub open spec fn ends(calls: Seq<ScopeCall>) -> nat
    decreases calls.len(),
{
    if calls.len() == 0 {
        0
    } else {
        ends(calls.drop_last()) + if calls.last() is End {
            1nat
        } else {
            0nat
        }
    }
}

/// The number of spans that `events` entered.
pub open spec fn enters(events: Seq<SpanEvent>) -> nat
    decreases events.len(),
{
    if events.len() == 0 {
        0
    } else {
        enters(events.drop_last()) + if events.last() is Enter {
            1nat
        } else {
            0nat
        }
    }
}

/// The identifiers of `entries`, in their order.
pub open spec fn ids_of(entries: Seq<(u64, usize)>) -> Seq<u64> {
    entries.map_values(|entry: (u64, usize)| entry.0)
}

/// The calls that `events` add to those of `spans`, with scopes enabled.
pub open spec fn added_calls(spans: Spans, events: Seq<SpanEvent>) -> Seq<ScopeCall> {
    run(spans, true, events).calls.skip(spans.calls.len() as int)
}

/// The entries that `events` add to those of `spans`, with scopes enabled.
pub open spec fn added_entries(spans: Spans, events: Seq<SpanEvent>) -> Seq<(u64, usize)> {
    run(spans, true, events).entries.skip(spans.entries.len() as int)
}

/// While every exit names the innermost span, the events only add to the
/// state they started from: the entries added are the spans still entered,
/// the calls added pair up but for the scopes of those spans, and scopes are
/// begun and ended as often as spans are entered and exited.
pub proof fn lemma_nested_prefix(spans: Spans, events: Seq<SpanEvent>)
    requires
        nesting(events) is Some,
    ensures
        spans.entries.is_prefix_of(run(spans, true, events).entries),
        spans.calls.is_prefix_of(run(spans, true, events).calls),
        ids_of(added_entries(spans, events)) == nesting(events).unwrap(),
        pairing(added_calls(spans, events)) == Some(offsets(added_entries(spans, events))),
        begins(added_calls(spans, events)) == enters(events),
        begins(added_calls(spans, events)) == ends(added_calls(spans, events)) + nesting(
            events,
        ).unwrap().len(),
    decreases events.len(),
{
    let n = spans.entries.len() as int;
    let m = spans.calls.len() as int;
    if events.len() == 0 {
        assert(added_entries(spans, events) =~= Seq::<(u64, usize)>::empty());
        assert(added_calls(spans, events) =~= Seq::<ScopeCall>::empty());
        assert(ids_of(added_entries(spans, events)) =~= Seq::<u64>::empty());
        assert(offsets(added_entries(spans, events)) =~= Seq::<usize>::empty());
    } else {
        let before = events.drop_last();
        lemma_nested_prefix(spans, before);
        let prev = run(spans, true, before);
        let next = run(spans, true, events);
        let prev_entries = added_entries(spans, before);
        let prev_calls = added_calls(spans, before);
        let ids = nesting(before).unwrap();
        match events.last() {
            SpanEvent::Enter { id, name, target, data, offset } => {
                assert(added_entries(spans, events) =~= prev_entries.push((id, offset)));
                assert(added_calls(spans, events) =~= prev_calls.push(next.calls.last()));
                assert(added_calls(spans, events).drop_last() =~= prev_calls);
                assert(ids_of(added_entries(spans, events)) =~= ids.push(id));
                assert(offsets(added_entries(spans, events)) =~= offsets(prev_entries).push(
                    offset,
                ));
            },
            SpanEvent::Exit { id } => {
                assert(ids.len() > 0 && ids.last() == id);
                assert(prev_entries.len() == ids.len());
                assert(prev.entries.last() == prev_entries.last());
                assert(ids_of(prev_entries).last() == prev_entries.last().0);
                assert(is_top(prev, id));
                assert(added_entries(spans, events) =~= prev_entries.drop_last());
                assert(added_calls(spans, events) =~= prev_calls.push(next.calls.last()));
                assert(added_calls(spans, events).drop_last() =~= prev_calls);
                assert(ids_of(added_entries(spans, events)) =~= ids.drop_last());
                assert(offsets(prev_entries).last() == prev_entries.last().1);
                assert(offsets(added_entries(spans, events)) =~= offsets(
                    prev_entries,
                ).drop_last());
            },
        }
    }
}

/// Whatever a thread had entered before, a well-nested sequence of enters
/// and exits leaves its stack as it was, begins one scope for each enter and
/// ends as many, and hands each end the offset that the matching begin was
/// answered, innermost scope first.
pub proof fn lemma_nested_spans_pair_up(spans: Spans, events: Seq<SpanEvent>)
    requires
        well_nested(events),
    ensures
        run(spans, true, events).entries == spans.entries,
        run(spans, true, events).calls == spans.calls + added_calls(spans, events),
        paired(added_calls(spans, events)),
        begins(added_calls(spans, events)) == enters(events),
        ends(added_calls(spans, events)) == enters(events),
{
    lemma_nested_prefix(spans, events);
    let end = run(spans, true, events);
    assert(added_entries(spans, events).len() == ids_of(added_entries(spans, events)).len());
    assert(end.entries =~= spans.entries);
    assert(end.calls =~= spans.calls + added_calls(spans, events));
    assert(offsets(added_entries(spans, events)) =~= Seq::<usize>::empty());
}

/// An exit that names another span than the innermost one, or finds the
/// stack empty, ends no scope and leaves the stack as it is, however often
/// it comes.
pub proof fn lemma_foreign_exit_changes_nothing(spans: Spans, id: u64)
    requires
        !is_top(spans, id),
    ensures
        after_exit(spans, id) == spans,
        after_exit(after_exit(spans, id), id) == spans,
{
}

/// An exit of the innermost span ends exactly its scope, at the offset that
/// was kept with it, and uncovers the entry below.
pub proof fn lemma_matching_exit_ends_top(spans: Spans, id: u64)
    requires
        is_top(spans, id),
    ensures
        after_exit(spans, id).entries == spans.entries.drop_last(),
        after_exit(spans, id).calls == spans.calls.push(
            ScopeCall::End { offset: spans.entries.last().1 },
        ),
{
}

/// With the profiler's scopes off, a thread whose stack is empty makes no
/// call to the profiler and keeps its stack empty, whatever is entered and
/// exited.
pub proof fn lemma_disabled_makes_no_calls(spans: Spans, events: Seq<SpanEvent>)
    requires
        spans.entries.len() == 0,
    ensures
        run(spans, false, events) == spans,
    decreases events.len(),
{
    if events.len() > 0 {
        lemma_disabled_makes_no_calls(spans, events.drop_last());
    }
}

/// Every state that events lead to from a consistent one is consistent: the
/// stack holds exactly the scopes that are open in the stream.
pub proof fn lemma_run_consistent(spans: Spans, enabled: bool, events: Seq<SpanEvent>)
    requires
        consistent(spans),
    ensures
        consistent(run(spans, enabled, events)),
    decreases events.len(),
{
    if events.len() > 0 {
        lemma_run_consistent(spans, enabled, events.drop_last());
        let prev = run(spans, enabled, events.drop_last());
        match events.last() {
            SpanEvent::Enter { id, name, target, data, offset } => {
                crate::stack::lemma_enter_consistent(prev, id, name, target, data, offset);
            },
            SpanEvent::Exit { id } => {
                crate::stack::lemma_exit_consistent(prev, id);
            },
        }
    }
}

/// The states of several threads, each under a number of its own, after one
/// event on `thread`.
pub open spec fn step_on(
    threads: Map<int, Spans>,
    thread: int,
    enabled: bool,
    event: SpanEvent,
) -> Map<int, Spans> {
    threads.insert(thread, step(threads[thread], enabled, event))
}

/// An event on one thread leaves the stack and the calls of every other
/// thread as they are, and events on two threads come to the same whichever
/// is taken first.
pub proof fn lemma_threads_do_not_meet(
    threads: Map<int, Spans>,
    first: int,
    first_event: SpanEvent,
    second: int,
    second_event: SpanEvent,
    enabled: bool,
)
    requires
        first != second,
        threads.contains_key(first),
        threads.contains_key(second),
    ensures
        step_on(threads, first, enabled, first_event)[second] == threads[second],
        forall|other: int|
            other != first && threads.contains_key(other) ==> #[trigger] step_on(
                threads,
                first,
                enabled,
                first_event,
            )[other] == threads[other],
        step_on(
            step_on(threads, first, enabled, first_event),
            second,
            enabled,
            second_event,
        ) == step_on(step_on(threads, second, enabled, second_event), first, enabled, first_event),
{
    let one = step_on(step_on(threads, first, enabled, first_event), second, enabled, second_event);
    let other = step_on(
        step_on(threads, second, enabled, second_event),
        first,
        enabled,
        first_event,
    );
    assert(one =~= other);
}

/// The pieces in their order, one behind the other.
pub open spec fn joined(pieces: Seq<Seq<char>>) -> Seq<char>
    decreases pieces.len(),
{
    if pieces.len() == 0 {
        Seq::empty()
    } else {
        joined(pieces.drop_last()) + pieces.last()
    }
}

/// Whether each of `texts` is the start of the one behind it: what a span's
/// texts are, taken after it was made and after each record on it, where the
/// formatter only adds behind a text.
pub open spec fn grows(texts: Seq<Seq<char>>) -> bool {
    forall|i: int| 0 <= i < texts.len() - 1 ==> (#[trigger] texts[i]).is_prefix_of(texts[i + 1])
}

/// What each of `texts` but the first has behind the one before it.
pub open spec fn updates(texts: Seq<Seq<char>>) -> Seq<Seq<char>> {
    Seq::new(
        (texts.len() - 1) as nat,
        |i: int| texts[i + 1].skip(texts[i].len() as int),
    )
}

/// A span that is made and then recorded on any number of times, with a
/// formatter that only adds behind a text, has as its text what was
/// formatted first and then each update, in the order in which the formatter
/// wrote them.
pub proof fn lemma_field_texts_concatenate(texts: Seq<Seq<char>>)
    requires
        texts.len() > 0,
        grows(texts),
    ensures
        texts.last() == texts[0] + joined(updates(texts)),
    decreases texts.len(),
{
    if texts.len() == 1 {
        assert(updates(texts) =~= Seq::<Seq<char>>::empty());
        assert(texts[0] + joined(updates(texts)) =~= texts[0]);
    } else {
        let before = texts.drop_last();
        assert(grows(before)) by {
            assert forall|i: int| 0 <= i < before.len() - 1 implies (#[trigger] before[i]).is_prefix_of(
                before[i + 1],
            ) by {
                assert(texts[i].is_prefix_of(texts[i + 1]));
            }
        }
        lemma_field_texts_concatenate(before);
        let last = texts.len() - 1;
        assert(texts[last - 1].is_prefix_of(texts[last]));
        assert(updates(texts).drop_last() =~= updates(before));
        assert(updates(texts).last() == texts[last].skip(texts[last - 1].len() as int));
        assert(texts[last] =~= texts[last - 1] + texts[last].skip(texts[last - 1].len() as int));
        assert(before.last() == texts[last - 1]);
        assert((texts[0] + joined(updates(before))) + updates(texts).last() =~= texts[0] + (joined(
            updates(before),
        ) + updates(texts).last()));
    }
}

} // verus!
