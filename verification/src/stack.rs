//! The per-thread span stack.
//!
//! Each thread keeps the spans it has entered, innermost last, each with the
//! offset at which its scope was begun in the thread's profiler stream.

use crate::scopes::{open_offsets, ScopeCall, ScopeWriter};
use crate::text::{hand_scope_text, handed_text};
use std::collections::VecDeque;
use vstd::prelude::*;

verus! {

/// The number of entries for which a new stack has room before it grows.
pub const STACK_CAPACITY_HINT: usize = 16;

/// What a [`SpanStack`] stands for.
pub struct Spans {
    /// The spans entered and not exited, innermost last: identifier and offset.
    pub entries: Seq<(u64, usize)>,
    /// The profiler calls made for them so far, oldest first.
    pub calls: Seq<ScopeCall>,
}

/// The state made of these entries and these calls.
pub open spec fn spans_of(entries: Seq<(u64, usize)>, calls: Seq<ScopeCall>) -> Spans {
    Spans { entries, calls }
}

/// The offsets of `entries`, in their order.
pub open spec fn offsets(entries: Seq<(u64, usize)>) -> Seq<usize> {
    entries.map_values(|entry: (u64, usize)| entry.1)
}

/// Whether the entries are exactly the scopes that the calls left open.
pub open spec fn consistent(spans: Spans) -> bool {
    offsets(spans.entries) == open_offsets(spans.calls)
}

/// A thread that has entered nothing and called nothing.
pub open spec fn no_spans() -> Spans {
    Spans { entries: Seq::empty(), calls: Seq::empty() }
}

/// The state after span `id` was entered and the stream answered `offset`:
/// one scope begun with the three texts, one entry pushed. Each text is
/// handed on as it is, but for one that the stream could not cut by itself.
pub open spec fn after_enter(
    spans: Spans,
    id: u64,
    name: Seq<char>,
    target: Seq<char>,
    data: Seq<char>,
    offset: usize,
) -> Spans {
    Spans {
        entries: spans.entries.push((id, offset)),
        calls: spans.calls.push(
            ScopeCall::Begin {
                name: handed_text(name),
                target: handed_text(target),
                data: handed_text(data),
                offset,
            },
        ),
    }
}

/// Whether span `id` is the innermost entry.
pub open spec fn is_top(spans: Spans, id: u64) -> bool {
    spans.entries.len() > 0 && spans.entries.last().0 == id
}

/// The state after span `id` was exited: where it is the innermost entry, the
/// entry is popped and its scope ended; else nothing changes.
pub open spec fn after_exit(spans: Spans, id: u64) -> Spans {
    if is_top(spans, id) {
        Spans {
            entries: spans.entries.drop_last(),
            calls: spans.calls.push(ScopeCall::End { offset: spans.entries.last().1 }),
        }
    } else {
        spans
    }
}

/// Entering keeps the entries and the open scopes in step.
pub proof fn lemma_enter_consistent(
    spans: Spans,
    id: u64,
    name: Seq<char>,
    target: Seq<char>,
    data: Seq<char>,
    offset: usize,
)
    requires
        consistent(spans),
    ensures
        consistent(after_enter(spans, id, name, target, data, offset)),
{
    let next = after_enter(spans, id, name, target, data, offset);
    assert(next.calls.drop_last() == spans.calls);
    assert(offsets(next.entries) == offsets(spans.entries).push(offset));
}

/// Exiting keeps the entries and the open scopes in step.
pub proof fn lemma_exit_consistent(spans: Spans, id: u64)
    requires
        consistent(spans),
    ensures
        consistent(after_exit(spans, id)),
{
    if is_top(spans, id) {
        let next = after_exit(spans, id);
        assert(next.calls.drop_last() == spans.calls);
        assert(offsets(spans.entries).last() == spans.entries.last().1);
        assert(offsets(next.entries) == offsets(spans.entries).drop_last());
    }
}

/// The span stack of one thread, with that thread's profiler stream.
pub struct SpanStack {
    entries: VecDeque<(u64, usize)>,
    writer: ScopeWriter,
}

impl View for SpanStack {
    type V = Spans;

    closed spec fn view(&self) -> Spans {
        spans_of(self.entries@, self.writer.calls())
    }
}

impl SpanStack {
    /// The invariant of a stack: its entries are exactly the scopes that its
    /// calls left open. Every stack made by this module has it.
    pub open spec fn wf(&self) -> bool {
        consistent(self@)
    }

    /// An empty stack for the current thread.
    pub fn new() -> (stack: Self)
        ensures
            stack@ == no_spans(),
            stack.wf(),
    {
        let entries: VecDeque<(u64, usize)> = VecDeque::with_capacity(STACK_CAPACITY_HINT);
        let writer = ScopeWriter::new();
        assert(offsets(entries@) == Seq::<usize>::empty());
        SpanStack { entries, writer }
    }

    /// The number of spans entered and not exited.
    pub fn len(&self) -> (n: usize)
        ensures
            n == self@.entries.len(),
    {
        self.entries.len()
    }

    /// Whether no span is entered.
    pub fn is_empty(&self) -> (empty: bool)
        ensures
            empty == (self@.entries.len() == 0),
    {
        self.entries.len() == 0
    }

    /// The innermost entry, if there is one.
    pub fn top(&self) -> (entry: Option<(u64, usize)>)
        ensures
            entry == if self@.entries.len() > 0 {
                Some(self@.entries.last())
            } else {
                None::<(u64, usize)>
            },
    {
        let n = self.entries.len();
        if n == 0 {
            None
        } else {
            Some(self.entries[n - 1])
        }
    }

    /// Begins a scope for span `id` with the three texts and pushes the span
    /// with the offset that the stream answered.
    pub fn enter(&mut self, id: u64, name: &str, target: &str, data: &str) -> (offset: usize)
        requires
            old(self).wf(),
        ensures
            final(self)@ == after_enter(old(self)@, id, name@, target@, data@, offset),
            final(self).wf(),
    {
        let offset = self.writer.begin(
            hand_scope_text(name),
            hand_scope_text(target),
            hand_scope_text(data),
        );
        self.entries.push_back((id, offset));
        proof {
            lemma_enter_consistent(old(self)@, id, name@, target@, data@, offset);
        }
        offset
    }

    /// Pops the innermost entry and ends its scope where that entry is span
    /// `id`; does nothing where it is another span or the stack is empty.
    pub fn exit(&mut self, id: u64)
        requires
            old(self).wf(),
        ensures
            final(self)@ == after_exit(old(self)@, id),
            final(self).wf(),
    {
        proof {
            lemma_exit_consistent(self@, id);
        }
        let popped = self.entries.pop_back();
        if let Some((last_id, offset)) = popped {
            assert(offsets(old(self)@.entries).last() == offset);
            if id == last_id {
                self.writer.end(offset);
            } else {
                self.entries.push_back((last_id, offset));
                assert(self.entries@ == old(self).entries@);
            }
        }
    }
}

} // verus!
