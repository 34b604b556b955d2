//! Cuts a byte stream that arrives buffer by buffer into chunks.
//!
//! The chunker never reads: whoever owns the source hands over what the
//! source has buffered, one step at a time, and does what the step answers.
//! The chunks depend on the bytes alone, not on how the source happens to
//! split them into buffers.

use vstd::prelude::*;
use vstd::slice::slice_subrange;

use crate::chunking::chunker_state::{
    lemma_cut_bounds, ChunkerConfig, ChunkerParams, ChunkerState, Progress,
};

verus! {

/// What a chunker has made of the bytes it has consumed so far.
pub struct Stream {
    /// Where the chunker stands within the chunk under construction.
    pub progress: Progress,
    /// The bytes of the chunk under construction.
    pub pending: Seq<u8>,
    /// The chunks completed so far, oldest first.
    pub emitted: Seq<Seq<u8>>,
}

/// The stream before any byte has arrived.
pub open spec fn fresh() -> Stream {
    Stream {
        progress: Progress { size: 0, register: 0 },
        pending: Seq::empty(),
        emitted: Seq::empty(),
    }
}

impl ChunkerParams {
    /// The stream after one more byte.
    pub open spec fn feed_byte(self, stream: Stream, byte: u8) -> Stream {
        if self.is_boundary(stream.progress, byte) {
            Stream {
                progress: self.advance(stream.progress, byte),
                pending: Seq::empty(),
                emitted: stream.emitted.push(stream.pending.push(byte)),
            }
        } else {
            Stream {
                progress: self.advance(stream.progress, byte),
                pending: stream.pending.push(byte),
                emitted: stream.emitted,
            }
        }
    }

    /// The stream after all of `input`.
    pub open spec fn feed(self, stream: Stream, input: Seq<u8>) -> Stream
        decreases input.len(),
    {
        if input.len() == 0 {
            stream
        } else {
            self.feed(self.feed_byte(stream, input[0]), input.drop_first())
        }
    }

    /// The chunks of a whole input: the completed ones, then what is left
    /// over at the end, if anything.
    pub open spec fn chunks(self, input: Seq<u8>) -> Seq<Seq<u8>> {
        with_rest(self.feed(fresh(), input))
    }

    /// Whether the stream is one that a chunker can be in: the chunk under
    /// construction is as long as the progress says and shorter than the
    /// maximum, and every completed chunk has an admissible size.
    pub open spec fn admits(self, stream: Stream) -> bool {
        &&& stream.progress.size == stream.pending.len()
        &&& stream.pending.len() < self.max_size
        &&& forall|i: int|
            0 <= i < stream.emitted.len() ==> self.min_size <= (#[trigger] stream.emitted[i]).len()
                <= self.max_size
    }
}

/// The completed chunks of a stream followed by the unfinished one, if it
/// holds any byte.
pub open spec fn with_rest(stream: Stream) -> Seq<Seq<u8>> {
    if stream.pending.len() == 0 {
        stream.emitted
    } else {
        stream.emitted.push(stream.pending)
    }
}

/// All bytes of a stream in order: those of the completed chunks, then
/// those of the chunk under construction.
pub open spec fn bytes_of(stream: Stream) -> Seq<u8> {
    stream.emitted.flatten_alt() + stream.pending
}

/// Feeding `left + right` at once gives the same stream as feeding `left`
/// and then `right`: the chunks do not depend on how the input is split.
pub proof fn lemma_feed_split(params: ChunkerParams, stream: Stream, left: Seq<u8>, right: Seq<u8>)
    ensures
        params.feed(stream, left + right) == params.feed(params.feed(stream, left), right),
    decreases left.len(),
{
    if left.len() == 0 {
        assert(left + right =~= right);
    } else {
        let whole = left + right;
        assert(whole[0] == left[0]);
        assert(whole.drop_first() =~= left.drop_first() + right);
        lemma_feed_split(params, params.feed_byte(stream, left[0]), left.drop_first(), right);
    }
}

/// A stream holds exactly the bytes that were fed to it, in order.
pub proof fn lemma_feed_keeps_bytes(params: ChunkerParams, stream: Stream, input: Seq<u8>)
    ensures
        bytes_of(params.feed(stream, input)) == bytes_of(stream) + input,
    decreases input.len(),
{
    if input.len() == 0 {
        assert(bytes_of(stream) + input =~= bytes_of(stream));
    } else {
        let next = params.feed_byte(stream, input[0]);
        assert(bytes_of(next) =~= bytes_of(stream) + seq![input[0]]) by {
            if params.is_boundary(stream.progress, input[0]) {
                let chunk = stream.pending.push(input[0]);
                assert(next.emitted.drop_last() =~= stream.emitted);
                assert(next.emitted.last() == chunk);
            }
        }
        lemma_feed_keeps_bytes(params, next, input.drop_first());
        assert(seq![input[0]] + input.drop_first() =~= input);
        assert(bytes_of(stream) + seq![input[0]] + input.drop_first() =~= bytes_of(stream)
            + input);
    }
}

/// Feeding bytes to an admissible stream gives an admissible stream.
pub proof fn lemma_feed_admits(params: ChunkerParams, stream: Stream, input: Seq<u8>)
    requires
        params.well_formed(),
        params.admits(stream),
    ensures
        params.admits(params.feed(stream, input)),
    decreases input.len(),
{
    if input.len() > 0 {
        let next = params.feed_byte(stream, input[0]);
        assert(params.admits(next));
        lemma_feed_admits(params, next, input.drop_first());
    }
}

/// Concatenating the chunks of an input gives the input back.
pub proof fn lemma_chunks_reconstruct(params: ChunkerParams, input: Seq<u8>)
    ensures
        params.chunks(input).flatten() == input,
{
    let end = params.feed(fresh(), input);
    lemma_feed_keeps_bytes(params, fresh(), input);
    assert(bytes_of(fresh()) =~= Seq::<u8>::empty());
    assert(bytes_of(end) =~= input);
    let all = params.chunks(input);
    all.lemma_flatten_and_flatten_alt_are_equivalent();
    if end.pending.len() == 0 {
        assert(end.emitted.flatten_alt() + end.pending =~= end.emitted.flatten_alt());
    } else {
        assert(all.drop_last() =~= end.emitted);
    }
}

/// Every chunk of an input but the last has a size between the minimum and
/// the maximum; the last has at least one byte and at most the maximum.
pub proof fn lemma_chunk_sizes(params: ChunkerParams, input: Seq<u8>)
    requires
        params.well_formed(),
    ensures
        forall|i: int|
            0 <= i < params.chunks(input).len() - 1 ==> params.min_size <= (
            #[trigger] params.chunks(input)[i]).len() <= params.max_size,
        params.chunks(input).len() > 0 ==> 1 <= params.chunks(input).last().len()
            <= params.max_size,
        input.len() > 0 ==> params.chunks(input).len() > 0,
{
    lemma_feed_admits(params, fresh(), input);
    lemma_feed_keeps_bytes(params, fresh(), input);
    let end = params.feed(fresh(), input);
    assert(bytes_of(fresh()) =~= Seq::<u8>::empty());
    if input.len() > 0 && end.pending.len() == 0 && end.emitted.len() == 0 {
        assert(bytes_of(end) =~= Seq::<u8>::empty());
        assert(false);
    }
}

/// How one call of `update` changes a stream: with a cut after `n` bytes the
/// chunk under construction is completed by those bytes; without a cut the
/// whole input joins the chunk under construction.
pub proof fn lemma_update_feeds(params: ChunkerParams, stream: Stream, input: Seq<u8>)
    ensures
        match params.first_cut(stream.progress, input) {
            Some(n) => 1 <= n <= input.len() && params.feed(stream, input.take(n as int)) == (
            Stream {
                progress: params.run(stream.progress, input),
                pending: Seq::empty(),
                emitted: stream.emitted.push(stream.pending + input.take(n as int)),
            }),
            None => params.feed(stream, input) == (Stream {
                progress: params.run(stream.progress, input),
                pending: stream.pending + input,
                emitted: stream.emitted,
            }),
        },
    decreases input.len(),
{
    if input.len() == 0 {
        assert(stream.pending + input =~= stream.pending);
    } else if params.is_boundary(stream.progress, input[0]) {
        let one = input.take(1);
        assert(one.drop_first() =~= Seq::<u8>::empty());
        assert(one[0] == input[0]);
        assert(params.feed(stream, one) == params.feed(
            params.feed_byte(stream, one[0]),
            one.drop_first(),
        ));
        assert(stream.pending + one =~= stream.pending.push(input[0]));
    } else {
        let next = params.feed_byte(stream, input[0]);
        let rest = input.drop_first();
        lemma_update_feeds(params, next, rest);
        match params.first_cut(next.progress, rest) {
            Some(m) => {
                let taken = input.take(m as int + 1);
                assert(taken[0] == input[0]);
                assert(taken.drop_first() =~= rest.take(m as int));
                assert(next.pending + rest.take(m as int) =~= stream.pending + taken);
            },
            None => {
                assert(next.pending + rest =~= stream.pending + input);
            },
        }
    }
}

/// What the byte source answered when it was asked to fill its buffer.
pub enum Fill<'b> {
    /// The bytes that the source has buffered; none at the end of the input.
    Buffer(&'b [u8]),
    /// The source failed.
    Failed,
}

/// What the owner of the source has to do after a step.
pub enum Step {
    /// Mark `consumed` bytes of the buffer as read and fill again.
    More { consumed: usize },
    /// Mark `consumed` bytes of the buffer as read and yield `chunk`.
    Chunk { consumed: usize, chunk: Vec<u8> },
    /// Yield the error of the source; every later step answers `Done`.
    Failed,
    /// The sequence of chunks has ended.
    Done,
}

/// Produces the chunks of a byte stream, one step per buffer of the source.
pub struct StreamChunker<'a> {
    /// `true` once the end of the stream or an error was reached.
    ended: bool,
    state: ChunkerState<'a>,
    /// The bytes of the chunk under construction.
    data: Vec<u8>,
    /// Every chunk yielded so far.
    emitted: Ghost<Seq<Seq<u8>>>,
    /// Every byte consumed so far.
    consumed: Ghost<Seq<u8>>,
}

impl<'a> View for StreamChunker<'a> {
    type V = Stream;

    closed spec fn view(&self) -> Stream {
        Stream { progress: self.state@, pending: self.data@, emitted: self.emitted@ }
    }
}

impl<'a> StreamChunker<'a> {
    /// The parameters the chunker runs under.
    pub closed spec fn params(&self) -> ChunkerParams {
        self.state.params()
    }

    /// Every byte consumed so far, in order.
    pub closed spec fn consumed(&self) -> Seq<u8> {
        self.consumed@
    }

    /// Whether the end of the stream or an error was reached.
    pub closed spec fn ended(&self) -> bool {
        self.ended
    }

    /// The invariant of the chunker: until it ends, its stream is the one
    /// that the bytes consumed so far give, whatever buffers they arrived in;
    /// once it has ended, no chunk is under construction.
    pub closed spec fn wf(&self) -> bool {
        &&& self.params().well_formed()
        &&& if self.ended {
            self.data@.len() == 0
        } else {
            &&& self.params().admits(self@)
            &&& self@ == self.params().feed(fresh(), self.consumed@)
        }
    }

    /// Until the chunker ends, its stream is the one that the bytes consumed
    /// so far give, and every completed chunk has an admissible size.
    pub proof fn lemma_stream(&self)
        requires
            self.wf(),
            !self.ended(),
        ensures
            self@ == self.params().feed(fresh(), self.consumed()),
            self.params().admits(self@),
    {
    }

    /// A chunker at the start of a stream.
    pub fn new(config: &'a ChunkerConfig<'a>) -> (chunker: Self)
        ensures
            chunker.wf(),
            chunker.params() == config.params(),
            chunker@ == fresh(),
            chunker.consumed() == Seq::<u8>::empty(),
            !chunker.ended(),
    {
        let state = ChunkerState::new(config);
        let _ = state.size();
        StreamChunker {
            ended: false,
            state,
            data: Vec::new(),
            emitted: Ghost(Seq::empty()),
            consumed: Ghost(Seq::empty()),
        }
    }

    /// Whether the sequence of chunks has ended.
    pub fn is_ended(&self) -> (ended: bool)
        ensures
            ended == self.ended(),
    {
        self.ended
    }

    /// Takes one step with the answer of the source.
    ///
    /// A buffer is consumed up to and including the first byte that ends a
    /// chunk, or entirely if no byte does. An empty buffer ends the input and
    /// yields what is left of the last chunk. Once the input has ended or the
    /// source has failed, nothing is consumed and every step answers `Done`.
    pub fn next(&mut self, fill: Fill<'_>) -> (step: Step)
        requires
            old(self).wf(),
        ensures
            final(self).wf(),
            final(self).params() == old(self).params(),
            old(self).ended() ==> step is Done && *final(self) == *old(self),
            !old(self).ended() ==> match fill {
                Fill::Failed => step is Failed && final(self).ended() && final(self)@ == (Stream {
                    pending: Seq::empty(),
                    ..old(self)@
                }),
                Fill::Buffer(buf) => if buf@.len() == 0 {
                    &&& final(self).ended()
                    &&& final(self).consumed() == old(self).consumed()
                    &&& final(self)@.emitted == with_rest(old(self)@)
                    &&& final(self)@.emitted == old(self).params().chunks(old(self).consumed())
                    &&& if old(self)@.pending.len() == 0 {
                        step is Done
                    } else {
                        step matches Step::Chunk { consumed, chunk } && consumed == 0 && chunk@
                            == old(self)@.pending
                    }
                } else {
                    &&& !final(self).ended()
                    &&& match old(self).params().first_cut(old(self)@.progress, buf@) {
                        Some(n) => {
                            &&& step matches Step::Chunk { consumed, chunk }
                            &&& consumed == n
                            &&& chunk@ == old(self)@.pending + buf@.take(n as int)
                            &&& final(self).consumed() == old(self).consumed() + buf@.take(
                                n as int,
                            )
                            &&& final(self)@.emitted == old(self)@.emitted.push(chunk@)
                            &&& final(self)@.pending.len() == 0
                        },
                        None => {
                            &&& step matches Step::More { consumed }
                            &&& consumed == buf@.len()
                            &&& final(self).consumed() == old(self).consumed() + buf@
                            &&& final(self)@.emitted == old(self)@.emitted
                            &&& final(self)@.pending == old(self)@.pending + buf@
                        },
                    }
                },
            },
    {
        if self.ended {
            return Step::Done;
        }
        let ghost params = self.params();
        let ghost before = self@;
        let ghost seen = self.consumed@;
        match fill {
            Fill::Failed => {
                self.ended = true;
                self.data = Vec::new();
                Step::Failed
            },
            Fill::Buffer(buf) => {
                if buf.len() == 0 {
                    // Reached the end of the input.
                    self.ended = true;
                    let mut chunk: Vec<u8> = Vec::new();
                    core::mem::swap(&mut self.data, &mut chunk);
                    if chunk.len() == 0 {
                        Step::Done
                    } else {
                        proof {
                            self.emitted@ = self.emitted@.push(chunk@);
                        }
                        Step::Chunk { consumed: 0, chunk }
                    }
                } else {
                    let maybe_chunk_boundary = self.state.update(buf);
                    proof {
                        lemma_update_feeds(params, before, buf@);
                        lemma_cut_bounds(params, before.progress, buf@);
                    }
                    match maybe_chunk_boundary {
                        Some(consumed) => {
                            let taken = slice_subrange(buf, 0, consumed);
                            self.data.extend_from_slice(taken);
                            let mut chunk: Vec<u8> = Vec::new();
                            core::mem::swap(&mut self.data, &mut chunk);
                            proof {
                                assert(chunk@ =~= before.pending + buf@.take(consumed as int));
                                self.emitted@ = self.emitted@.push(chunk@);
                                self.consumed@ = seen + buf@.take(consumed as int);
                                lemma_feed_split(
                                    params,
                                    fresh(),
                                    seen,
                                    buf@.take(consumed as int),
                                );
                                lemma_feed_admits(params, before, buf@.take(consumed as int));
                            }
                            Step::Chunk { consumed, chunk }
                        },
                        None => {
                            self.data.extend_from_slice(buf);
                            proof {
                                assert(self.data@ =~= before.pending + buf@);
                                self.consumed@ = seen + buf@;
                                lemma_feed_split(
                                    params,
                                    fresh(),
                                    seen,
                                    buf@,
                                );
                                lemma_feed_admits(params, before, buf@);
                            }
                            Step::More { consumed: buf.len() }
                        },
                    }
                }
            },
        }
    }
}

} // verus!
