//! The span bridge: what each notification about a span does to the span's
//! formatted fields, to the calling thread's span stack and to its profiler
//! stream.
//!
//! The caller looks the span up and hands over the number of its identifier,
//! its name and target and its extension table, and keeps one [`SpanStack`]
//! per thread.

use crate::fields::{
    field_text, has_text, keep_formatted, kept_text, put_text, shown_text, take_text,
    text_or_empty, FieldFormatter,
};
use crate::stack::{after_enter, after_exit, SpanStack};
use tracing_core::span::{Attributes, Record};
use tracing_subscriber::fmt::format::DefaultFields;
use tracing_subscriber::registry::{Extensions, ExtensionsMut};
use vstd::prelude::*;

verus! {

/// A tracing layer that collects data for puffin.
pub struct PuffinLayer<F = DefaultFields> {
    fmt: F,
}

impl PuffinLayer<DefaultFields> {
    /// Create a new `PuffinLayer`, with the default field formatter.
    pub fn new() -> (layer: Self)
        ensures
            layer.formatter().appends(),
    {
        PuffinLayer { fmt: DefaultFields::new() }
    }

    /// Use a custom field formatting implementation.
    pub fn with_formatter<F>(self, fmt: F) -> (layer: PuffinLayer<F>)
        ensures
            layer.formatter() == fmt,
    {
        let _ = self;
        PuffinLayer { fmt }
    }
}

impl Default for PuffinLayer<DefaultFields> {
    fn default() -> (layer: Self)
        ensures
            layer.formatter().appends(),
    {
        Self::new()
    }
}

impl<F> PuffinLayer<F> {
    /// The field formatter of this layer.
    pub closed spec fn formatter(&self) -> F {
        self.fmt
    }

    /// Span `id` was entered on the thread of `stack`, while the profiler's
    /// scopes were `enabled`. Where they were, a scope is begun with the
    /// span's name and target and, as data, the text that its table keeps,
    /// and the span is pushed with the offset that the stream answered. Where
    /// they were not, nothing happens.
    pub fn enter_when(
        &self,
        enabled: bool,
        stack: &mut SpanStack,
        table: &Extensions<'_>,
        id: u64,
        name: &str,
        target: &str,
    )
        requires
            old(stack).wf(),
        ensures
            final(stack).wf(),
            enabled ==> final(stack)@ == after_enter(
                old(stack)@,
                id,
                name@,
                target@,
                text_or_empty(shown_text(*table)),
                final(stack)@.entries.last().1,
            ),
            !enabled ==> final(stack)@ == old(stack)@,
    {
        if !enabled {
            return ;
        }
        let data = field_text(table);
        let _ = stack.enter(id, name, target, data);
    }

    /// Span `id` was entered on the thread of `stack`. The profiler's switch
    /// is read once and decides as in [`PuffinLayer::enter_when`].
    pub fn on_enter(
        &self,
        stack: &mut SpanStack,
        table: &Extensions<'_>,
        id: u64,
        name: &str,
        target: &str,
    )
        requires
            old(stack).wf(),
        ensures
            final(stack).wf(),
            final(stack)@ == old(stack)@ || final(stack)@ == after_enter(
                old(stack)@,
                id,
                name@,
                target@,
                text_or_empty(shown_text(*table)),
                final(stack)@.entries.last().1,
            ),
    {
        let enabled = puffin::are_scopes_on();
        self.enter_when(enabled, stack, table, id, name, target)
    }

    /// Span `id` was exited on the thread of `stack`. Where it is the
    /// innermost span of the stack, it is popped and its scope is ended at
    /// the offset kept with it. Where another span is innermost, or none,
    /// the stack stays as it is and no scope is ended. The profiler's switch
    /// is not asked.
    pub fn on_exit(&self, stack: &mut SpanStack, id: u64)
        requires
            old(stack).wf(),
        ensures
            final(stack).wf(),
            final(stack)@ == after_exit(old(stack)@, id),
    {
        stack.exit(id)
    }

    /// The span of `table` closed: its text leaves the table, whatever the
    /// profiler's switch says.
    pub fn on_close(&self, table: &mut ExtensionsMut<'_>)
        ensures
            kept_text(*final(table)) is None,
    {
        let _ = take_text(table);
    }
}

impl<F: FieldFormatter> PuffinLayer<F> {
    /// The span of `table` was made with the fields `attrs`, while the
    /// profiler's scopes were `enabled`. Where they were and the span has no
    /// text yet, the formatter is handed the fields, and its answer is kept
    /// as the span's text, unless it is a failure. Else nothing happens.
    pub fn new_span_when(
        &self,
        enabled: bool,
        table: &mut ExtensionsMut<'_>,
        attrs: &Attributes<'_>,
    )
        ensures
            !enabled || kept_text(*old(table)) is Some ==> kept_text(*final(table)) == kept_text(
                *old(table),
            ),
            enabled && kept_text(*old(table)) is None ==> self.formatter().formats_attributes(
                attrs,
                kept_text(*final(table)),
            ),
    {
        if !enabled {
            return ;
        }
        if !has_text(table) {
            let formatted = self.fmt.format_attributes(attrs);
            keep_formatted(table, formatted);
        }
    }

    /// The span of `table` was made with the fields `attrs`. The profiler's
    /// switch is read once and decides as in [`PuffinLayer::new_span_when`].
    pub fn on_new_span(&self, table: &mut ExtensionsMut<'_>, attrs: &Attributes<'_>)
        ensures
            kept_text(*final(table)) == kept_text(*old(table)) || {
                &&& kept_text(*old(table)) is None
                &&& self.formatter().formats_attributes(attrs, kept_text(*final(table)))
            },
    {
        let enabled = puffin::are_scopes_on();
        self.new_span_when(enabled, table, attrs)
    }

    /// Values were recorded on the span of `table`. Where the span has a
    /// text, the formatter is handed that text and the values, and its answer
    /// becomes the span's text; where it has none, the formatter is handed
    /// the values, and its answer is kept, unless it is a failure. The
    /// profiler's switch is not asked. With a formatter that only adds behind
    /// a text, the text that the span had is the start of the one it has
    /// then.
    pub fn on_record(&self, table: &mut ExtensionsMut<'_>, values: &Record<'_>)
        ensures
            kept_text(*old(table)) is Some ==> {
                &&& kept_text(*final(table)) is Some
                &&& self.formatter().adds_record(
                    kept_text(*old(table))->0,
                    values,
                    kept_text(*final(table))->0,
                )
            },
            kept_text(*old(table)) is None ==> self.formatter().formats_record(
                values,
                kept_text(*final(table)),
            ),
            kept_text(*old(table)) is Some && self.formatter().appends() ==> kept_text(
                *old(table),
            )->0.is_prefix_of(kept_text(*final(table))->0),
    {
        match take_text(table) {
            Some(current) => {
                let text = self.fmt.add_record(current, values);
                put_text(table, text);
            },
            None => {
                let formatted = self.fmt.format_record(values);
                keep_formatted(table, formatted);
            },
        }
    }
}

} // verus!
