//! Propagation of the caller's trace context into the metadata that travels
//! with the published request.

use crate::pairs::pairs_view;
use vstd::prelude::*;
use vstd::string::StringExecFns;

verus! {

/// The metadata of an outbound message: named texts, one entry per name.
/// It is the sink that trace context and the deduplication key are written
/// to; all it offers is [`Metadata::set`].
#[derive(Clone, Debug, PartialEq, Eq)]
pub struct Metadata {
    pub entries: Vec<(String, String)>,
}

impl View for Metadata {
    type V = Seq<(Seq<char>, Seq<char>)>;

    open spec fn view(&self) -> Seq<(Seq<char>, Seq<char>)> {
        pairs_view(self.entries@)
    }
}

/// The caller's position in a distributed trace.
#[derive(Clone, Debug, PartialEq, Eq)]
pub struct TraceContext {
    /// The identifier of the trace.
    pub trace_id: String,
    /// The identifier of the caller's span, the parent of what the backend does.
    pub span_id: String,
    /// Whether the caller records this trace.
    pub sampled: bool,
}

/// What a trace context holds, as a mathematical value.
pub ghost struct TraceView {
    pub trace_id: Seq<char>,
    pub span_id: Seq<char>,
    pub sampled: bool,
}

impl View for TraceContext {
    type V = TraceView;

    open spec fn view(&self) -> TraceView {
        TraceView { trace_id: self.trace_id@, span_id: self.span_id@, sampled: self.sampled }
    }
}

/// The place of the first entry named `name`, or the length where there is none.
pub open spec fn position(pairs: Seq<(Seq<char>, Seq<char>)>, name: Seq<char>) -> int
    decreases pairs.len(),
{
    if pairs.len() == 0 {
        0
    } else if pairs[0].0 == name {
        0
    } else {
        1 + position(pairs.drop_first(), name)
    }
}

/// The entries after `name` was set to `value`: the first entry of that name
/// holds the value, or, where there was none, a new last entry does.
pub open spec fn with_entry(
    pairs: Seq<(Seq<char>, Seq<char>)>,
    name: Seq<char>,
    value: Seq<char>,
) -> Seq<(Seq<char>, Seq<char>)> {
    if position(pairs, name) < pairs.len() {
        pairs.update(position(pairs, name), (name, value))
    } else {
        pairs.push((name, value))
    }
}

/// The value of the `traceparent` entry for a trace context: version `00`,
/// the trace, the span, and the flags `01` for a sampled trace, else `00`.
pub open spec fn traceparent(t: TraceView) -> Seq<char> {
    "00-"@ + t.trace_id + "-"@ + t.span_id + (if t.sampled {
        "-01"@
    } else {
        "-00"@
    })
}

/// The metadata after a trace context was injected: with the caller's
/// `traceparent`, or untouched where the caller has no trace.
pub open spec fn injected(trace: Option<TraceView>, pairs: Seq<(Seq<char>, Seq<char>)>) -> Seq<
    (Seq<char>, Seq<char>),
> {
    match trace {
        Some(t) => with_entry(pairs, "traceparent"@, traceparent(t)),
        None => pairs,
    }
}

/// If no entry before `k` is named `name`, and `k` is the end or the entry at
/// `k` is, then `k` is the position of `name`.
pub proof fn lemma_position(pairs: Seq<(Seq<char>, Seq<char>)>, name: Seq<char>, k: int)
    requires
        0 <= k <= pairs.len(),
        forall|j: int| 0 <= j < k ==> pairs[j].0 != name,
        k == pairs.len() || pairs[k].0 == name,
    ensures
        position(pairs, name) == k,
    decreases k,
{
    if k > 0 {
        let rest = pairs.drop_first();
        assert forall|j: int| 0 <= j < k - 1 implies rest[j].0 != name by {
            assert(rest[j] == pairs[j + 1]);
        }
        lemma_position(rest, name, k - 1);
    }
}

/// Whether no two entries have one name.
pub open spec fn distinct_names(pairs: Seq<(Seq<char>, Seq<char>)>) -> bool {
    forall|i: int, j: int| 0 <= i < j < pairs.len() ==> pairs[i].0 != pairs[j].0
}

/// Where `position` points: at the first entry of that name, with none of
/// that name before it.
pub proof fn lemma_position_found(pairs: Seq<(Seq<char>, Seq<char>)>, name: Seq<char>)
    ensures
        0 <= position(pairs, name) <= pairs.len(),
        position(pairs, name) < pairs.len() ==> pairs[position(pairs, name)].0 == name,
        forall|j: int| 0 <= j < position(pairs, name) ==> pairs[j].0 != name,
    decreases pairs.len(),
{
    if pairs.len() > 0 && pairs[0].0 != name {
        let rest = pairs.drop_first();
        lemma_position_found(rest, name);
        assert forall|j: int| 0 <= j < position(pairs, name) implies pairs[j].0 != name by {
            if j > 0 {
                assert(pairs[j] == rest[j - 1]);
            }
        }
    }
}

/// Setting an entry keeps the names distinct.
pub proof fn lemma_with_entry_distinct(
    pairs: Seq<(Seq<char>, Seq<char>)>,
    name: Seq<char>,
    value: Seq<char>,
)
    requires
        distinct_names(pairs),
    ensures
        distinct_names(with_entry(pairs, name, value)),
{
    lemma_position_found(pairs, name);
}

impl Metadata {
    /// Whether the metadata is in order: it has one entry per name.
    pub open spec fn well_formed(&self) -> bool {
        distinct_names(self@)
    }

    /// Metadata without entries.
    pub fn new() -> (m: Metadata)
        ensures
            m@ == Seq::<(Seq<char>, Seq<char>)>::empty(),
            m.well_formed(),
    {
        let m = Metadata { entries: Vec::new() };
        assert(m@ =~= Seq::empty());
        m
    }

    /// Sets `name` to `value`. An entry of that name gets the value; where
    /// there is none, a new entry is added behind the others.
    pub fn set(&mut self, name: String, value: String)
        ensures
            final(self)@ == with_entry(old(self)@, name@, value@),
            old(self).well_formed() ==> final(self).well_formed(),
    {
        proof {
            if self.well_formed() {
                lemma_with_entry_distinct(self@, name@, value@);
            }
        }
        let mut i: usize = 0;
        while i < self.entries.len()
            invariant
                i <= self.entries.len(),
                self.entries == old(self).entries,
                forall|j: int| 0 <= j < i ==> (#[trigger] self@[j]).0 != name@,
            decreases self.entries.len() - i,
        {
            if self.entries[i].0 == name {
                proof {
                    lemma_position(self@, name@, i as int);
                }
                self.entries.set(i, (name, value));
                assert(self@ =~= with_entry(old(self)@, name@, value@));
                return ;
            }
            assert(self@[i as int].0 == self.entries@[i as int].0@);
            i = i + 1;
        }
        proof {
            lemma_position(self@, name@, i as int);
        }
        self.entries.push((name, value));
        assert(self@ =~= with_entry(old(self)@, name@, value@));
    }
}

/// The `traceparent` value of a trace context.
pub fn traceparent_of(trace: &TraceContext) -> (r: String)
    ensures
        r@ == traceparent(trace@),
{
    let mut r = "00-".to_owned();
    r.append(trace.trace_id.as_str());
    r.append("-");
    r.append(trace.span_id.as_str());
    if trace.sampled {
        r.append("-01");
    } else {
        r.append("-00");
    }
    r
}

/// Writes the caller's trace context into the metadata, under the name
/// `traceparent`, so that the backend can continue the trace. Without a trace
/// context nothing is written.
pub fn inject(trace: &Option<TraceContext>, sink: &mut Metadata)
    ensures
        final(sink)@ == injected(
            match *trace {
                Some(t) => Some(t@),
                None => None,
            },
            old(sink)@,
        ),
        old(sink).well_formed() ==> final(sink).well_formed(),
{
    match trace {
        Some(t) => {
            sink.set("traceparent".to_owned(), traceparent_of(t));
        },
        None => {},
    }
}

} // verus!
