//! The layer fan-out engine: an ordered list of independently filtered
//! consumer layers; every event and span-lifecycle notification is offered
//! to every layer, and what one layer does — including failing — never
//! changes what another layer observes or renders.

use vstd::prelude::*;
use crate::console::{
    close_line_spec, compact_line_spec, enter_line_spec, json_line_spec, pretty_lines_spec,
    render_compact, render_json, render_pretty, render_span_close, render_span_enter, LogFormat,
};
use crate::filter::TargetFilter;
use crate::otlp::{otlp_line_spec, Event, OtlpFormatter};
use crate::span::{SpanData, SpanStack};

verus! {

/// What a registered layer renders: console text in one of three forms, OTLP
/// JSON lines, or — for the flame recorder — span-lifecycle records only.
#[derive(Clone, Copy, Debug, PartialEq, Eq, Structural)]
pub enum LayerKind {
    Console(LogFormat),
    Otlp,
    Flame,
}

/// One registered consumer: what it renders, its own filter, and whether it
/// opted into span-lifecycle notifications.
#[derive(Debug)]
pub struct LayerConfig {
    /// What the layer renders.
    pub kind: LayerKind,
    /// The filter this layer applies to every notification.
    pub filter: TargetFilter,
    /// `true` iff span enter/close notifications are routed to this layer.
    pub span_lifecycle: bool,
}

/// The ordered list of registered layers.
#[derive(Debug)]
pub struct Pipeline {
    /// Layers in registration order.
    pub layers: Vec<LayerConfig>,
}

/// What one layer did with one notification: its filter skipped it, it
/// rendered a line, or its sink failed (which is reported and isolated, never
/// propagated to sibling layers).
#[derive(Debug)]
pub enum LayerOutcome {
    Skipped,
    Rendered(String),
    Failed,
}

/// The model of an outcome: the rendered line as a character sequence.
pub ghost enum OutcomeModel {
    Skipped,
    Rendered(Seq<char>),
    Failed,
}

impl LayerOutcome {
    /// The model of this outcome.
    pub open spec fn model(self) -> OutcomeModel {
        match self {
            LayerOutcome::Skipped => OutcomeModel::Skipped,
            LayerOutcome::Rendered(s) => OutcomeModel::Rendered(s@),
            LayerOutcome::Failed => OutcomeModel::Failed,
        }
    }
}

/// The line a layer of kind `kind` renders for an event, or `None` when that
/// kind does not render events (the flame recorder observes only span
/// lifecycles).
pub open spec fn event_render_spec(
    kind: LayerKind,
    e: Event,
    chain: Seq<SpanData>,
    thread_name: Seq<char>,
    timestamp: int,
) -> Option<Seq<char>> {
    match kind {
        LayerKind::Console(LogFormat::Compact) => Some(compact_line_spec(e)),
        LayerKind::Console(LogFormat::Pretty) => Some(pretty_lines_spec(e, chain.len())),
        LayerKind::Console(LogFormat::Json) => Some(json_line_spec(e, timestamp)),
        LayerKind::Otlp => Some(otlp_line_spec(e, chain, thread_name, timestamp)),
        LayerKind::Flame => None,
    }
}

/// What one layer does with one event, given whether its own sink accepted
/// the write: skipped when its filter rejects the event or it renders no
/// events, failed when its sink failed, else the rendered line. It depends
/// on nothing but the layer's own configuration and its own sink.
pub open spec fn layer_event_outcome(
    l: LayerConfig,
    e: Event,
    chain: Seq<SpanData>,
    thread_name: Seq<char>,
    timestamp: int,
    sink_ok: bool,
) -> OutcomeModel {
    if !l.filter.spec_accepts(e.target@, e.level) {
        OutcomeModel::Skipped
    } else {
        match event_render_spec(l.kind, e, chain, thread_name, timestamp) {
            None => OutcomeModel::Skipped,
            Some(line) => if sink_ok {
                OutcomeModel::Rendered(line)
            } else {
                OutcomeModel::Failed
            },
        }
    }
}

/// What one layer does with a span boundary notification: the boundary line
/// when the layer opted into lifecycle notifications and its filter accepts
/// the span, else skipped; failed when its own sink failed.
pub open spec fn layer_span_outcome(
    l: LayerConfig,
    s: SpanData,
    entering: bool,
    sink_ok: bool,
) -> OutcomeModel {
    if !l.span_lifecycle || !l.filter.spec_accepts(s.target@, s.level) {
        OutcomeModel::Skipped
    } else if sink_ok {
        OutcomeModel::Rendered(
            if entering {
                enter_line_spec(s)
            } else {
                close_line_spec(s)
            },
        )
    } else {
        OutcomeModel::Failed
    }
}

/// The outcome of every layer of `p` for one event: each position is that
/// layer's own outcome, independent of every other layer.
pub open spec fn dispatch_model(
    p: Pipeline,
    e: Event,
    chain: Seq<SpanData>,
    thread_name: Seq<char>,
    timestamp: int,
    sink_ok: Seq<bool>,
) -> Seq<OutcomeModel> {
    Seq::new(
        p.layers@.len(),
        |i: int| layer_event_outcome(p.layers@[i], e, chain, thread_name, timestamp, sink_ok[i]),
    )
}

/// Layers are isolated: the outcome of layer `i` depends only on that
/// layer's own sink. Two dispatches whose sink outcomes agree at `i` — and
/// may differ arbitrarily everywhere else, including by failing — give layer
/// `i` the same outcome.
pub proof fn lemma_layer_isolation(
    p: Pipeline,
    e: Event,
    chain: Seq<SpanData>,
    thread_name: Seq<char>,
    timestamp: int,
    ok1: Seq<bool>,
    ok2: Seq<bool>,
    i: int,
)
    requires
        0 <= i < p.layers@.len(),
        ok1.len() == p.layers@.len(),
        ok2.len() == p.layers@.len(),
        ok1[i] == ok2[i],
    ensures
        dispatch_model(p, e, chain, thread_name, timestamp, ok1)[i] == dispatch_model(
            p,
            e,
            chain,
            thread_name,
            timestamp,
            ok2,
        )[i],
{
}

impl Pipeline {
    /// A pipeline with no layers.
    pub fn new() -> (r: Pipeline)
        ensures
            r.layers@.len() == 0,
    {
        Pipeline { layers: Vec::new() }
    }

    /// Registers `layer` after every existing layer.
    pub fn register(&mut self, layer: LayerConfig)
        ensures
            final(self).layers@ == old(self).layers@.push(layer),
    {
        self.layers.push(layer);
    }

    /// Offers one event to every layer in registration order. `sink_ok[i]`
    /// reports whether layer `i`'s sink accepted its write: a failed sink
    /// yields `Failed` for that layer alone and never prevents any other
    /// layer from rendering.
    pub fn dispatch(
        &self,
        event: &Event,
        stack: &SpanStack,
        thread_name: &str,
        timestamp_millis: i64,
        sink_ok: &Vec<bool>,
    ) -> (r: Vec<LayerOutcome>)
        requires
            sink_ok@.len() == self.layers@.len(),
        ensures
            r@.len() == self.layers@.len(),
            forall|i: int|
                0 <= i < r@.len() ==> (#[trigger] r@[i]).model() == dispatch_model(
                    *self,
                    *event,
                    stack.chain(),
                    thread_name@,
                    timestamp_millis as int,
                    sink_ok@,
                )[i],
    {
        let formatter = OtlpFormatter;
        let mut r: Vec<LayerOutcome> = Vec::new();
        let n = self.layers.len();
        let mut i: usize = 0;
        while i < n
            invariant
                n == self.layers@.len(),
                sink_ok@.len() == n,
                i <= n,
                r@.len() == i,
                forall|j: int|
                    0 <= j < i ==> (#[trigger] r@[j]).model() == layer_event_outcome(
                        self.layers@[j],
                        *event,
                        stack.chain(),
                        thread_name@,
                        timestamp_millis as int,
                        sink_ok@[j],
                    ),
            decreases n - i,
        {
            let layer = &self.layers[i];
            let outcome: LayerOutcome = if !layer.filter.accepts(
                event.target.as_str(),
                event.level,
            ) {
                LayerOutcome::Skipped
            } else {
                match layer.kind {
                    LayerKind::Console(LogFormat::Compact) => {
                        if sink_ok[i] {
                            LayerOutcome::Rendered(render_compact(event))
                        } else {
                            LayerOutcome::Failed
                        }
                    },
                    LayerKind::Console(LogFormat::Pretty) => {
                        if sink_ok[i] {
                            LayerOutcome::Rendered(render_pretty(event, stack.depth()))
                        } else {
                            LayerOutcome::Failed
                        }
                    },
                    LayerKind::Console(LogFormat::Json) => {
                        if sink_ok[i] {
                            LayerOutcome::Rendered(render_json(event, timestamp_millis))
                        } else {
                            LayerOutcome::Failed
                        }
                    },
                    LayerKind::Otlp => {
                        if sink_ok[i] {
                            LayerOutcome::Rendered(
                                formatter.format_event_at(
                                    event,
                                    stack,
                                    thread_name,
                                    timestamp_millis,
                                ),
                            )
                        } else {
                            LayerOutcome::Failed
                        }
                    },
                    LayerKind::Flame => LayerOutcome::Skipped,
                }
            };
            r.push(outcome);
            i = i + 1;
        }
        r
    }

    /// Offers one span boundary notification to every layer in registration
    /// order; only layers that opted into span lifecycles render it.
    fn dispatch_span_boundary(
        &self,
        span: &SpanData,
        entering: bool,
        sink_ok: &Vec<bool>,
    ) -> (r: Vec<LayerOutcome>)
        requires
            sink_ok@.len() == self.layers@.len(),
        ensures
            r@.len() == self.layers@.len(),
            forall|i: int|
                0 <= i < r@.len() ==> (#[trigger] r@[i]).model() == layer_span_outcome(
                    self.layers@[i],
                    *span,
                    entering,
                    sink_ok@[i],
                ),
    {
        let mut r: Vec<LayerOutcome> = Vec::new();
        let n = self.layers.len();
        let mut i: usize = 0;
        while i < n
            invariant
                n == self.layers@.len(),
                sink_ok@.len() == n,
                i <= n,
                r@.len() == i,
                forall|j: int|
                    0 <= j < i ==> (#[trigger] r@[j]).model() == layer_span_outcome(
                        self.layers@[j],
                        *span,
                        entering,
                        sink_ok@[j],
                    ),
            decreases n - i,
        {
            let layer = &self.layers[i];
            let outcome: LayerOutcome = if !layer.span_lifecycle || !layer.filter.accepts(
                span.target.as_str(),
                span.level,
            ) {
                LayerOutcome::Skipped
            } else if sink_ok[i] {
                if entering {
                    LayerOutcome::Rendered(render_span_enter(span))
                } else {
                    LayerOutcome::Rendered(render_span_close(span))
                }
            } else {
                LayerOutcome::Failed
            };
            r.push(outcome);
            i = i + 1;
        }
        r
    }

    /// Offers a span-enter notification to every opted-in layer.
    pub fn dispatch_span_enter(&self, span: &SpanData, sink_ok: &Vec<bool>) -> (r: Vec<
        LayerOutcome,
    >)
        requires
            sink_ok@.len() == self.layers@.len(),
        ensures
            r@.len() == self.layers@.len(),
            forall|i: int|
                0 <= i < r@.len() ==> (#[trigger] r@[i]).model() == layer_span_outcome(
                    self.layers@[i],
                    *span,
                    true,
                    sink_ok@[i],
                ),
    {
        self.dispatch_span_boundary(span, true, sink_ok)
    }

    /// Offers a span-close notification to every opted-in layer.
    pub fn dispatch_span_exit(&self, span: &SpanData, sink_ok: &Vec<bool>) -> (r: Vec<
        LayerOutcome,
    >)
        requires
            sink_ok@.len() == self.layers@.len(),
        ensures
            r@.len() == self.layers@.len(),
            forall|i: int|
                0 <= i < r@.len() ==> (#[trigger] r@[i]).model() == layer_span_outcome(
                    self.layers@[i],
                    *span,
                    false,
                    sink_ok@[i],
                ),
    {
        self.dispatch_span_boundary(span, false, sink_ok)
    }
}

} // verus!
