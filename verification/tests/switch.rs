use bevy_puffin::fields::{field_text, FieldText};
use bevy_puffin::layer::PuffinLayer;
use bevy_puffin::plugin::PuffinTracePlugin;
use bevy_puffin::scopes::{new_frame_system, ScopeSwitch};
use bevy_puffin::stack::SpanStack;
use std::sync::{Arc, Mutex};
use tracing::callsite::{Callsite, Identifier};
use tracing::field::{FieldSet, Value};
use tracing::metadata::Kind;
use tracing::span::{Attributes, Id};
use tracing::subscriber::Interest;
use tracing::{Level, Metadata, Subscriber};
use tracing_subscriber::registry::{LookupSpan, Registry};

struct SpanSite {
    meta: std::sync::OnceLock<&'static Metadata<'static>>,
}

impl Callsite for SpanSite {
    fn set_interest(&self, _interest: Interest) {}

    fn metadata(&self) -> &Metadata<'_> {
        self.meta.get().unwrap()
    }
}

fn span_with_fields(names: &'static [&'static str]) -> &'static Metadata<'static> {
    let site: &'static SpanSite =
        Box::leak(Box::new(SpanSite { meta: std::sync::OnceLock::new() }));
    let fields = FieldSet::new(names, Identifier(site));
    let meta: &'static Metadata<'static> = Box::leak(Box::new(Metadata::new(
        "span",
        "switch",
        Level::INFO,
        None,
        None,
        None,
        fields,
        Kind::SPAN,
    )));
    assert!(site.meta.set(meta).is_ok());
    meta
}

type Frames = Arc<Mutex<Vec<Arc<puffin::FrameData>>>>;

fn watch_frames() -> Frames {
    let frames: Frames = Arc::new(Mutex::new(Vec::new()));
    let sink = frames.clone();
    puffin::GlobalProfiler::lock().add_sink(Box::new(move |frame| {
        sink.lock().unwrap().push(frame);
    }));
    frames
}

/// Whether the span has a text.
fn has_text(registry: &Registry, id: &Id) -> bool {
    registry.span(id).unwrap().extensions().get::<FieldText>().is_some()
}

/// The text of the span, empty where it has none.
fn text(registry: &Registry, id: &Id) -> String {
    field_text(&registry.span(id).unwrap().extensions()).to_string()
}

/// The number of scopes in the frames seen so far.
fn scopes_seen(frames: &Frames) -> usize {
    frames.lock().unwrap().iter().map(|frame| frame.meta().num_scopes).sum()
}

// The profiler's switch belongs to the whole process, so everything that
// turns it stands in this one test.
#[test]
fn the_switch_gates_enter_and_new_span() {
    let frames = watch_frames();
    let layer = PuffinLayer::new();
    let registry = Registry::default();
    let mut stack = SpanStack::new();

    let meta = span_with_fields(&["a"]);
    let a = meta.fields().field("a").unwrap();
    let one: u64 = 1;
    let values = [(&a, Some(&one as &dyn Value))];
    let set = meta.fields().value_set(&values);
    let attrs = Attributes::new_root(meta, &set);

    // A plugin set to turn scopes off does so, whatever they were.
    let mut switch = ScopeSwitch::new();
    puffin::set_scopes_on(true);
    assert!(!PuffinTracePlugin::new().with_scopes_off().start_scopes(&mut switch));
    assert!(!puffin::are_scopes_on());
    assert!(!PuffinTracePlugin::new().with_scopes_off().start_scopes(&mut switch));
    assert!(!puffin::are_scopes_on());

    for _ in 0..1000 {
        let id = registry.new_span(&attrs);
        let span = registry.span(&id).unwrap();
        layer.on_new_span(&mut span.extensions_mut(), &attrs);
        layer.on_enter(&mut stack, &span.extensions(), id.into_u64(), "span", "switch");
        assert!(stack.is_empty());
        layer.on_exit(&mut stack, id.into_u64());
        assert!(!has_text(&registry, &id));
    }
    new_frame_system();
    assert_eq!(scopes_seen(&frames), 0);
    assert!(frames.lock().unwrap().is_empty());

    // A plugin with the default settings turns scopes on, and so does one
    // that was set back to it.
    assert!(PuffinTracePlugin::new().start_scopes(&mut switch));
    assert!(puffin::are_scopes_on());
    assert!(!PuffinTracePlugin::new().with_scopes_off().start_scopes(&mut switch));
    assert!(!puffin::are_scopes_on());
    assert!(PuffinTracePlugin::new().with_scopes_off().with_scopes_on().start_scopes(&mut switch));
    assert!(puffin::are_scopes_on());

    for _ in 0..1000 {
        let id = registry.new_span(&attrs);
        let span = registry.span(&id).unwrap();
        layer.on_new_span(&mut span.extensions_mut(), &attrs);
        assert_eq!(text(&registry, &id), "a=1");
        layer.on_enter(&mut stack, &span.extensions(), id.into_u64(), "span", "switch");
        assert_eq!(stack.len(), 1);
        assert_eq!(stack.top().unwrap().0, id.into_u64());
        layer.on_exit(&mut stack, id.into_u64());
        assert!(stack.is_empty());
        layer.on_close(&mut span.extensions_mut());
        assert!(!has_text(&registry, &id));
    }
    new_frame_system();
    assert_eq!(scopes_seen(&frames), 1000);

    // A span entered while scopes were on is still ended after they go off,
    // and its fields are still dropped when it closes.
    let late = registry.new_span(&attrs);
    let late_span = registry.span(&late).unwrap();
    layer.on_new_span(&mut late_span.extensions_mut(), &attrs);
    layer.on_enter(&mut stack, &late_span.extensions(), 7, "late", "switch");
    puffin::set_scopes_on(false);
    layer.on_enter(&mut stack, &late_span.extensions(), 8, "never", "switch");
    assert_eq!(stack.len(), 1);
    layer.on_exit(&mut stack, 8);
    assert_eq!(stack.len(), 1);
    layer.on_exit(&mut stack, 7);
    assert!(stack.is_empty());
    assert!(has_text(&registry, &late));
    layer.on_close(&mut late_span.extensions_mut());
    assert!(!has_text(&registry, &late));
    new_frame_system();
    assert_eq!(scopes_seen(&frames), 1001);
}
