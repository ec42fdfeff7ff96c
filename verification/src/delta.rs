//! The delta buffer: it keeps every fragment of a generated text and
//! decides when the fragments that have gathered are handed on as one piece
//! of live output.
//!
//! A fragment that begins with a line feed never starts a piece: such a
//! fragment is held back behind the ones before it.

use vstd::prelude::*;
use vstd::seq_lib::lemma_flatten_concat;
use crate::text::{begins_with_newline, join, starts_with_newline};

verus! {

/// Number of gathered fragments above which the next fragment releases
/// them.
pub const DEFAULT_THRESHOLD: usize = 4;

/// Model of a [`DeltaBuffer`].
pub struct BufferView {
    /// More gathered fragments than this are released by the next one.
    pub threshold: nat,
    /// Every fragment received, in order.
    pub whole: Seq<Seq<char>>,
    /// The fragments received since the last release, in order.
    pub pending: Seq<Seq<char>>,
}

impl BufferView {
    /// The buffer before any fragment.
    pub open spec fn empty(threshold: nat) -> BufferView {
        BufferView { threshold, whole: Seq::empty(), pending: Seq::empty() }
    }

    /// Whether the gathered fragments are the last ones received.
    pub open spec fn wf(self) -> bool {
        &&& self.pending.len() <= self.whole.len()
        &&& forall|i: int|
            0 <= i < self.pending.len() ==> #[trigger] self.pending[i] == self.whole[(
            self.whole.len() - self.pending.len()) + i]
    }

    /// Whether `fragment` releases what has gathered.
    pub open spec fn releases(self, fragment: Seq<char>) -> bool {
        self.pending.len() > self.threshold && !starts_with_newline(fragment)
    }

    /// The piece that is handed on when `fragment` arrives.
    pub open spec fn delta(self, fragment: Seq<char>) -> Seq<char> {
        if self.releases(fragment) {
            self.pending.flatten()
        } else {
            Seq::empty()
        }
    }

    /// The buffer after `fragment` has arrived.
    pub open spec fn push(self, fragment: Seq<char>) -> BufferView {
        BufferView {
            threshold: self.threshold,
            whole: self.whole.push(fragment),
            pending: if self.releases(fragment) {
                seq![fragment]
            } else {
                self.pending.push(fragment)
            },
        }
    }

    /// The buffer after what has gathered was handed on at the end.
    pub open spec fn finish(self) -> BufferView {
        BufferView { threshold: self.threshold, whole: self.whole, pending: Seq::empty() }
    }

    /// The whole text received.
    pub open spec fn output(self) -> Seq<char> {
        self.whole.flatten()
    }

    /// All that has been handed on so far.
    pub open spec fn released(self) -> Seq<char> {
        self.whole.take(self.whole.len() - self.pending.len()).flatten()
    }
}

/// The pieces that a buffer hands on while `fragments` arrive at it from
/// `start`, one piece for each fragment.
pub open spec fn deltas(start: BufferView, fragments: Seq<Seq<char>>) -> Seq<Seq<char>>
    decreases fragments.len(),
{
    if fragments.len() == 0 {
        Seq::empty()
    } else {
        seq![start.delta(fragments[0])] + deltas(start.push(fragments[0]), fragments.drop_first())
    }
}

/// The buffer after `fragments` have arrived at it from `start`.
pub open spec fn after(start: BufferView, fragments: Seq<Seq<char>>) -> BufferView
    decreases fragments.len(),
{
    if fragments.len() == 0 {
        start
    } else {
        after(start.push(fragments[0]), fragments.drop_first())
    }
}

/// All pieces of a stream: one for each fragment, then what is left at
/// the end.
pub open spec fn flushes(threshold: nat, fragments: Seq<Seq<char>>) -> Seq<Seq<char>> {
    let start = BufferView::empty(threshold);
    deltas(start, fragments).push(after(start, fragments).pending.flatten())
}

/// What was handed on and what has gathered make up the whole text.
pub proof fn lemma_nothing_lost(buffer: BufferView)
    requires
        buffer.wf(),
    ensures
        buffer.released() + buffer.pending.flatten() == buffer.output(),
{
    let k = buffer.whole.len() - buffer.pending.len();
    assert(buffer.pending =~= buffer.whole.skip(k));
    lemma_flatten_concat(buffer.whole.take(k), buffer.whole.skip(k));
    assert(buffer.whole.take(k) + buffer.whole.skip(k) =~= buffer.whole);
}

/// A fragment adds its piece, and nothing else, to what was handed on.
pub proof fn lemma_push(buffer: BufferView, fragment: Seq<char>)
    requires
        buffer.wf(),
    ensures
        buffer.push(fragment).wf(),
        buffer.push(fragment).released() == buffer.released() + buffer.delta(fragment),
        buffer.push(fragment).output() == buffer.output() + fragment,
{
    let next = buffer.push(fragment);
    let k = buffer.whole.len() - buffer.pending.len();
    buffer.whole.lemma_flatten_push(fragment);
    if buffer.releases(fragment) {
        assert(next.whole.take(next.whole.len() - 1) =~= buffer.whole);
        lemma_nothing_lost(buffer);
    } else {
        assert(next.whole.take(k) =~= buffer.whole.take(k));
        assert(buffer.released() + Seq::<char>::empty() =~= buffer.released());
    }
}

/// The last piece hands on all that is left.
pub proof fn lemma_finish(buffer: BufferView)
    requires
        buffer.wf(),
    ensures
        buffer.finish().wf(),
        buffer.finish().released() == buffer.released() + buffer.pending.flatten(),
        buffer.finish().released() == buffer.output(),
        buffer.finish().output() == buffer.output(),
{
    let done = buffer.finish();
    assert(done.whole.take(done.whole.len() as int) =~= buffer.whole);
    lemma_nothing_lost(buffer);
}

/// While fragments arrive, the pieces handed on add up to the growth of
/// what was released, and the whole text grows by the fragments.
pub proof fn lemma_deltas(start: BufferView, fragments: Seq<Seq<char>>)
    requires
        start.wf(),
    ensures
        after(start, fragments).wf(),
        after(start, fragments).threshold == start.threshold,
        after(start, fragments).whole == start.whole + fragments,
        after(start, fragments).released() == start.released() + deltas(
            start,
            fragments,
        ).flatten(),
        deltas(start, fragments).len() == fragments.len(),
    decreases fragments.len(),
{
    if fragments.len() == 0 {
        assert(start.whole + fragments =~= start.whole);
        assert(deltas(start, fragments).flatten() =~= Seq::<char>::empty());
        assert(start.released() + Seq::<char>::empty() =~= start.released());
    } else {
        let next = start.push(fragments[0]);
        let rest = fragments.drop_first();
        lemma_push(start, fragments[0]);
        lemma_deltas(next, rest);
        assert(next.whole + rest =~= start.whole + fragments);
        lemma_flatten_concat(seq![start.delta(fragments[0])], deltas(next, rest));
        seq![start.delta(fragments[0])].lemma_flatten_one_element();
        assert((start.released() + start.delta(fragments[0])) + deltas(next, rest).flatten()
            =~= start.released() + (start.delta(fragments[0]) + deltas(next, rest).flatten()));
    }
}

/// No loss and no duplication: whatever the threshold and wherever the
/// line feeds stand, the pieces of a stream, put together in the order in
/// which they were handed on, are the fragments put together.
pub proof fn lemma_flushes_rebuild_input(threshold: nat, fragments: Seq<Seq<char>>)
    ensures
        flushes(threshold, fragments).flatten() == fragments.flatten(),
        flushes(threshold, fragments).len() == fragments.len() + 1,
{
    let start = BufferView::empty(threshold);
    let end = after(start, fragments);
    lemma_deltas(start, fragments);
    lemma_finish(end);
    deltas(start, fragments).lemma_flatten_push(end.pending.flatten());
    assert(start.whole.take(0) =~= Seq::<Seq<char>>::empty());
    assert(Seq::<char>::empty() + deltas(start, fragments).flatten() =~= deltas(
        start,
        fragments,
    ).flatten());
    assert(start.whole + fragments =~= fragments);
}

/// The fragments of one generated text, with the ones that have not been
/// handed on yet.
#[derive(Debug)]
pub struct DeltaBuffer {
    threshold: usize,
    whole: Vec<String>,
    pending: Vec<String>,
}

impl View for DeltaBuffer {
    type V = BufferView;

    closed spec fn view(&self) -> BufferView {
        BufferView {
            threshold: self.threshold as nat,
            whole: self.whole.deep_view(),
            pending: self.pending.deep_view(),
        }
    }
}

impl DeltaBuffer {
    #[verifier::type_invariant]
    spec fn inv(self) -> bool {
        self@.wf()
    }

    /// An empty buffer in which more than `threshold` gathered fragments
    /// are released by the next one.
    pub fn new(threshold: usize) -> (buffer: DeltaBuffer)
        ensures
            buffer@ == BufferView::empty(threshold as nat),
            buffer@.wf(),
    {
        let buffer = DeltaBuffer { threshold, whole: Vec::new(), pending: Vec::new() };
        assert(buffer@.whole =~= Seq::<Seq<char>>::empty());
        assert(buffer@.pending =~= Seq::<Seq<char>>::empty());
        buffer
    }

    /// The threshold that the buffer was made with.
    pub fn threshold(&self) -> (threshold: usize)
        ensures
            threshold == self@.threshold,
    {
        self.threshold
    }

    /// Whether nothing has gathered since the last release.
    pub fn is_drained(&self) -> (drained: bool)
        ensures
            drained == (self@.pending.len() == 0),
            self@.wf(),
    {
        proof {
            use_type_invariant(self);
        }
        self.pending.len() == 0
    }

    /// Takes in `fragment` and returns the piece to hand on: all that had
    /// gathered, if that was more than the threshold and `fragment` does
    /// not begin with a line feed; else nothing. What has been handed on
    /// grows by that piece, the whole text by the fragment.
    pub fn push(&mut self, fragment: String) -> (delta: String)
        ensures
            final(self)@ == old(self)@.push(fragment@),
            delta@ == old(self)@.delta(fragment@),
            old(self)@.wf(),
            final(self)@.wf(),
            final(self)@.released() == old(self)@.released() + delta@,
            final(self)@.output() == old(self)@.output() + fragment@,
    {
        proof {
            use_type_invariant(&*self);
            lemma_push(self@, fragment@);
        }
        let release = self.pending.len() > self.threshold && !begins_with_newline(
            fragment.as_str(),
        );
        let mut pending: Vec<String> = Vec::new();
        core::mem::swap(&mut self.pending, &mut pending);
        let mut whole: Vec<String> = Vec::new();
        core::mem::swap(&mut self.whole, &mut whole);
        let ghost before_whole = whole.deep_view();
        let delta = if release {
            let gathered = join(&pending);
            pending = Vec::new();
            gathered
        } else {
            String::new()
        };
        let ghost kept = pending.deep_view();
        whole.push(fragment.clone());
        pending.push(fragment);
        proof {
            assert(whole.deep_view() =~= before_whole.push(fragment@));
            assert(pending.deep_view() =~= kept.push(fragment@));
            if release {
                assert(kept =~= Seq::<Seq<char>>::empty());
                assert(kept.push(fragment@) =~= seq![fragment@]);
            }
        }
        self.whole = whole;
        self.pending = pending;
        delta
    }

    /// Hands on all that has gathered, at the end of the stream. With it,
    /// the whole text has been handed on.
    pub fn finish(&mut self) -> (delta: String)
        ensures
            final(self)@ == old(self)@.finish(),
            delta@ == old(self)@.pending.flatten(),
            old(self)@.wf(),
            final(self)@.wf(),
            old(self)@.released() + delta@ == old(self)@.output(),
            final(self)@.released() == final(self)@.output(),
    {
        proof {
            use_type_invariant(&*self);
            lemma_finish(self@);
        }
        let delta = join(&self.pending);
        self.pending = Vec::new();
        assert(self@.pending =~= Seq::<Seq<char>>::empty());
        delta
    }

    /// The whole text received so far.
    pub fn whole_output(&self) -> (text: String)
        ensures
            text@ == self@.output(),
    {
        join(&self.whole)
    }

    /// Number of fragments received so far.
    pub fn fragment_count(&self) -> (count: usize)
        ensures
            count == self@.whole.len(),
    {
        self.whole.len()
    }
}

impl Default for DeltaBuffer {
    fn default() -> (buffer: DeltaBuffer)
        ensures
            buffer@ == BufferView::empty(DEFAULT_THRESHOLD as nat),
    {
        DeltaBuffer::new(DEFAULT_THRESHOLD)
    }
}

} // verus!
