use bevy_puffin::layer::PuffinLayer;
use bevy_puffin::scopes::new_frame_system;
use bevy_puffin::stack::SpanStack;
use std::sync::{Arc, Mutex, OnceLock};
use tracing::callsite::{Callsite, Identifier};
use tracing::field::{Field, FieldSet, Value};
use tracing::metadata::Kind;
use tracing::span::{Attributes, Id};
use tracing::subscriber::Interest;
use tracing::{Level, Metadata, Subscriber};
use tracing_subscriber::registry::{LookupSpan, Registry};

struct SpanSite {
    meta: OnceLock<&'static Metadata<'static>>,
}

impl Callsite for SpanSite {
    fn set_interest(&self, _interest: Interest) {}

    fn metadata(&self) -> &Metadata<'_> {
        self.meta.get().unwrap()
    }
}

/// The metadata of a span with the fields `names`.
fn span_with_fields(names: &'static [&'static str]) -> &'static Metadata<'static> {
    let site: &'static SpanSite = Box::leak(Box::new(SpanSite { meta: OnceLock::new() }));
    let fields = FieldSet::new(names, Identifier(site));
    let meta: &'static Metadata<'static> = Box::leak(Box::new(Metadata::new(
        "span",
        "tests",
        Level::INFO,
        None,
        None,
        None,
        fields,
        Kind::SPAN,
    )));
    assert!(site.meta.set(meta).is_ok());
    meta
}

/// A span of `registry` that was made without values.
fn bare_span(registry: &Registry) -> Id {
    let meta = span_with_fields(&["unset"]);
    let unset = meta.fields().field("unset").unwrap();
    let values: [(&Field, Option<&dyn Value>); 1] = [(&unset, None)];
    let set = meta.fields().value_set(&values);
    registry.new_span(&Attributes::new_root(meta, &set))
}

// Frames belong to the whole process, so this file holds one test.
#[test]
fn each_mark_closes_one_frame() {
    let frames: Arc<Mutex<Vec<Arc<puffin::FrameData>>>> = Arc::new(Mutex::new(Vec::new()));
    let sink = frames.clone();
    puffin::GlobalProfiler::lock().add_sink(Box::new(move |frame| {
        sink.lock().unwrap().push(frame);
    }));

    let layer = PuffinLayer::new();
    let registry = Registry::default();
    let bare = bare_span(&registry);
    let span = registry.span(&bare).unwrap();
    let table = span.extensions();
    let mut stack = SpanStack::new();
    let marks: usize = 5;
    for round in 0..marks {
        for id in 0..=(round as u64) {
            layer.enter_when(true, &mut stack, &table, id, "work", "frames");
            layer.on_exit(&mut stack, id);
        }
        new_frame_system();
    }

    let frames = frames.lock().unwrap();
    assert_eq!(frames.len(), marks);
    for (round, frame) in frames.iter().enumerate() {
        assert_eq!(frame.meta().num_scopes, round + 1);
        assert_eq!(frame.frame_index(), frames[0].frame_index() + round as u64);
    }
}
