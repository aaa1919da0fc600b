//! The output sink: an append-only transcript buffer with a liveness-checked
//! delivery list.
//!
//! Every appended fragment grows the buffer; if the subscription is still
//! alive, the sink also records one delivery holding the buffer's *full*
//! contents at that point (delivery replaces, it does not send deltas). A
//! disposed sink keeps appending without delivering and without failing.

use vstd::prelude::*;

verus! {

/// The abstract state of an output sink.
pub struct SinkView {
    pub buffer: Seq<char>,
    pub alive: bool,
    pub deliveries: Seq<Seq<char>>,
}

/// One append-and-notify step on the abstract state.
pub open spec fn note1(s: SinkView, frag: Seq<char>) -> SinkView {
    SinkView {
        buffer: s.buffer + frag,
        alive: s.alive,
        deliveries: if s.alive {
            s.deliveries.push(s.buffer + frag)
        } else {
            s.deliveries
        },
    }
}

/// The abstract state after appending a sequence of fragments in order.
pub open spec fn sink_after(s: SinkView, frags: Seq<Seq<char>>) -> SinkView
    decreases frags.len(),
{
    if frags.len() == 0 {
        s
    } else {
        sink_after(note1(s, frags[0]), frags.drop_first())
    }
}

/// Appending one more fragment extends the fold by one step.
pub proof fn lemma_sink_after_push(s: SinkView, frags: Seq<Seq<char>>, f: Seq<char>)
    ensures
        sink_after(s, frags.push(f)) == note1(sink_after(s, frags), f),
    decreases frags.len(),
{
    if frags.len() == 0 {
        assert(frags.push(f)[0] == f);
        assert(frags.push(f).drop_first() =~= Seq::<Seq<char>>::empty());
        assert(sink_after(s, frags.push(f)) == sink_after(note1(s, f), Seq::empty()));
        assert(sink_after(note1(s, f), Seq::<Seq<char>>::empty()) == note1(s, f));
        assert(sink_after(s, frags) == s);
    } else {
        assert(frags.push(f)[0] == frags[0]);
        assert(frags.push(f).drop_first() =~= frags.drop_first().push(f));
        assert(sink_after(s, frags.push(f)) == sink_after(
            note1(s, frags[0]),
            frags.drop_first().push(f),
        ));
        lemma_sink_after_push(note1(s, frags[0]), frags.drop_first(), f);
        assert(sink_after(s, frags) == sink_after(note1(s, frags[0]), frags.drop_first()));
    }
}

/// Appending never revives or disposes the subscription, and the buffer only
/// grows by exactly the fragments appended.
pub proof fn lemma_sink_after_alive(s: SinkView, frags: Seq<Seq<char>>)
    ensures
        sink_after(s, frags).alive == s.alive,
        !s.alive ==> sink_after(s, frags).deliveries == s.deliveries,
    decreases frags.len(),
{
    if frags.len() > 0 {
        lemma_sink_after_alive(note1(s, frags[0]), frags.drop_first());
    }
}

/// An append-only transcript buffer whose delivery callback is guarded by a
/// liveness token: a disposed sink swallows deliveries, never fails.
pub struct OutputSink {
    buffer: String,
    alive: bool,
    deliveries: Vec<String>,
}

impl View for OutputSink {
    type V = SinkView;

    closed spec fn view(&self) -> SinkView {
        SinkView {
            buffer: self.buffer@,
            alive: self.alive,
            deliveries: self.deliveries@.map_values(|s: String| s@),
        }
    }
}

impl OutputSink {
    /// A fresh sink with a live subscription and an empty transcript.
    pub fn new() -> (s: OutputSink)
        ensures
            s@.buffer == Seq::<char>::empty(),
            s@.alive == true,
            s@.deliveries == Seq::<Seq<char>>::empty(),
    {
        let s = OutputSink { buffer: String::new(), alive: true, deliveries: Vec::new() };
        proof {
            assert(s@.buffer =~= Seq::<char>::empty());
            assert(s@.deliveries =~= Seq::<Seq<char>>::empty());
        }
        s
    }

    /// Invalidates the subscription: the owner of the delivery callback is
    /// gone. The transcript is kept and keeps growing.
    pub fn dispose(&mut self)
        ensures
            final(self)@ == (SinkView {
                buffer: old(self)@.buffer,
                alive: false,
                deliveries: old(self)@.deliveries,
            }),
    {
        self.alive = false;
    }

    /// Appends one fragment and, only if the subscription is alive, records
    /// a delivery of the full transcript so far. On a disposed sink the
    /// append still happens, no delivery occurs, and no error is raised.
    pub fn note(&mut self, frag: &str)
        ensures
            final(self)@ == note1(old(self)@, frag@),
    {
        self.buffer.append(frag);
        if self.alive {
            let d = self.buffer.clone();
            self.deliveries.push(d);
            proof {
                assert(self@.deliveries =~= old(self)@.deliveries.push(self@.buffer));
            }
        }
    }

    /// The full transcript so far.
    pub fn transcript(&self) -> (s: String)
        ensures
            s@ == self@.buffer,
    {
        self.buffer.clone()
    }

    /// Whether the subscription is still alive.
    pub fn is_alive(&self) -> (b: bool)
        ensures
            b == self@.alive,
    {
        self.alive
    }

    /// How many deliveries have been made.
    pub fn delivery_count(&self) -> (n: usize)
        ensures
            n == self@.deliveries.len(),
    {
        self.deliveries.len()
    }

    /// The `i`-th delivery, each one a full transcript prefix.
    pub fn delivery_at(&self, i: usize) -> (s: &String)
        requires
            i < self@.deliveries.len(),
        ensures
            s@ == self@.deliveries[i as int],
    {
        &self.deliveries[i]
    }
}

} // verus!
