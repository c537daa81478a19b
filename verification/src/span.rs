//! The span context tracker: a per-context stack of active spans, each with
//! captured fields and an optional externally-assigned trace/span id pair,
//! and the read path that resolves trace and span ids for a formatting event.

use vstd::prelude::*;
use crate::json::FieldMap;
use crate::level::Level;

verus! {

/// One active span: a process-local handle (recycled, not globally unique),
/// identity, the fields captured at creation, and the extension slot an
/// external context propagator may fill with distributed-trace identifiers.
#[derive(Debug)]
pub struct SpanData {
    /// Process-local handle; recycled after the span exits.
    pub handle: u64,
    /// Human-readable span name.
    pub name: String,
    /// Target namespace the span was created under.
    pub target: String,
    /// Severity of the span itself.
    pub level: Level,
    /// Fields captured at span creation.
    pub fields: FieldMap,
    /// Externally-assigned 128-bit trace id, if a propagator set one.
    pub ext_trace_id: Option<u128>,
    /// Externally-assigned 64-bit span id, if a propagator set one.
    pub ext_span_id: Option<u64>,
}

/// The stack of spans active on one logical execution context: entering a
/// span pushes it, exiting pops it. The last element is the innermost span.
#[derive(Debug)]
pub struct SpanStack {
    /// Active spans, outermost first.
    pub spans: Vec<SpanData>,
}

/// The first externally-assigned trace id in `chain`, which is ordered
/// innermost first.
pub open spec fn find_trace_id_in(chain: Seq<SpanData>) -> Option<u128>
    decreases chain.len(),
{
    if chain.len() == 0 {
        None
    } else if chain[0].ext_trace_id is Some {
        chain[0].ext_trace_id
    } else {
        find_trace_id_in(chain.drop_first())
    }
}

/// The span id resolved over a chain ordered innermost first: the
/// externally-assigned id on the directly enclosing span when present, else
/// that span's process-local handle; `None` for an empty chain.
pub open spec fn span_id_in(chain: Seq<SpanData>) -> Option<u64> {
    if chain.len() == 0 {
        None
    } else {
        match chain[0].ext_span_id {
            Some(id) => Some(id),
            None => Some(chain[0].handle),
        }
    }
}

impl SpanStack {
    /// The current span chain, innermost first.
    pub open spec fn chain(self) -> Seq<SpanData> {
        self.spans@.reverse()
    }

    /// An empty stack: no span is active.
    pub fn new() -> (r: SpanStack)
        ensures
            r.chain().len() == 0,
    {
        SpanStack { spans: Vec::new() }
    }

    /// The current nesting depth.
    pub fn depth(&self) -> (n: usize)
        ensures
            n == self.chain().len(),
    {
        self.spans.len()
    }

    /// The span at position `i` of the chain, innermost first: `span_at(0)`
    /// is the directly enclosing span.
    pub fn span_at(&self, i: usize) -> (s: &SpanData)
        requires
            i < self.chain().len(),
        ensures
            *s == self.chain()[i as int],
    {
        &self.spans[self.spans.len() - 1 - i]
    }

    /// Enters `span`: it becomes the innermost span.
    pub fn enter(&mut self, span: SpanData)
        ensures
            final(self).chain() == seq![span] + old(self).chain(),
    {
        self.spans.push(span);
        proof {
            assert(self.chain() =~= seq![span] + old(self).chain());
        }
    }

    /// Exits the innermost span, returning it; `None` on an empty stack.
    pub fn exit(&mut self) -> (r: Option<SpanData>)
        ensures
            old(self).chain().len() == 0 ==> r is None && final(self).chain()
                == old(self).chain(),
            old(self).chain().len() > 0 ==> r == Some(old(self).chain()[0])
                && final(self).chain() == old(self).chain().drop_first(),
    {
        let r = self.spans.pop();
        proof {
            if old(self).chain().len() > 0 {
                assert(self.chain() =~= old(self).chain().drop_first());
            }
        }
        r
    }

    /// Walks the chain innermost to outermost and returns the first
    /// externally-assigned trace id found, or `None` when no active span
    /// carries one.
    pub fn find_trace_id(&self) -> (r: Option<u128>)
        ensures
            r == find_trace_id_in(self.chain()),
    {
        let ghost chain = self.chain();
        proof {
            assert(chain.skip(0) =~= chain);
        }
        let n = self.spans.len();
        let mut i: usize = 0;
        while i < n
            invariant
                chain == self.chain(),
                n == chain.len(),
                i <= n,
                find_trace_id_in(chain) == find_trace_id_in(chain.skip(i as int)),
            decreases n - i,
        {
            proof {
                assert(chain.skip(i as int)[0] == chain[i as int]);
                assert(chain.skip(i as int).drop_first() =~= chain.skip(i as int + 1));
            }
            match self.span_at(i).ext_trace_id {
                Some(id) => {
                    return Some(id);
                },
                None => {},
            }
            i = i + 1;
        }
        proof {
            assert(chain.skip(n as int) =~= Seq::<SpanData>::empty());
        }
        None
    }

    /// The span id for a formatting event: the externally-assigned id on the
    /// directly enclosing span when present, else that span's process-local
    /// recycled handle; `None` when no span is active.
    pub fn find_span_id(&self) -> (r: Option<u64>)
        ensures
            r == span_id_in(self.chain()),
    {
        if self.spans.len() == 0 {
            return None;
        }
        let parent = self.span_at(0);
        match parent.ext_span_id {
            Some(id) => Some(id),
            None => Some(parent.handle),
        }
    }
}

/// The trace id resolved over a chain is the id of the innermost span that
/// carries one: it is `Some` exactly when some span of the chain carries an
/// id, and every span nearer the event than the one it comes from carries
/// none.
pub proof fn lemma_find_trace_id_characterizes(chain: Seq<SpanData>)
    ensures
        (find_trace_id_in(chain) is None) <==> (forall|j: int|
            0 <= j < chain.len() ==> (#[trigger] chain[j]).ext_trace_id is None),
        (find_trace_id_in(chain) is Some) ==> exists|j: int|
            {
                &&& 0 <= j < chain.len()
                &&& (#[trigger] chain[j]).ext_trace_id == find_trace_id_in(chain)
                &&& forall|k: int| 0 <= k < j ==> (#[trigger] chain[k]).ext_trace_id is None
            },
    decreases chain.len(),
{
    if chain.len() == 0 {
    } else {
        let rest = chain.drop_first();
        assert forall|k: int| 0 <= k < rest.len() implies (#[trigger] rest[k]) == chain[k + 1] by {}
        if chain[0].ext_trace_id is Some {
            assert(chain[0].ext_trace_id == find_trace_id_in(chain));
            assert(forall|k: int| 0 <= k < 0 ==> (#[trigger] chain[k]).ext_trace_id is None);
        } else {
            lemma_find_trace_id_characterizes(rest);
            if find_trace_id_in(rest) is Some {
                let j = choose|j: int|
                    {
                        &&& 0 <= j < rest.len()
                        &&& (#[trigger] rest[j]).ext_trace_id == find_trace_id_in(rest)
                        &&& forall|k: int| 0 <= k < j ==> (#[trigger] rest[k]).ext_trace_id is None
                    };
                assert(chain[j + 1].ext_trace_id == find_trace_id_in(chain));
                assert forall|k: int| 0 <= k < j + 1 implies (#[trigger] chain[k]).ext_trace_id
                    is None by {
                    if k >= 1 {
                        assert(rest[k - 1].ext_trace_id is None);
                    }
                }
            } else {
                assert forall|k: int| 0 <= k < chain.len() implies (#[trigger] chain[k]
                ).ext_trace_id is None by {
                    if k >= 1 {
                        assert(rest[k - 1].ext_trace_id is None);
                    }
                }
            }
        }
    }
}

} // verus!
