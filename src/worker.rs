//! The inference worker's decisions, one loop turn at a time.
//!
//! The worker's loop checks the stop signal, drains the sample bridge, feeds
//! whole windows to the rate converter, and hands every complete chunk of
//! converted samples to the speech engine. The sleeping, the conversion and
//! the inference happen outside; this type decides what comes next and keeps
//! the samples that do not yet fill a window or a chunk.
use crate::chunking::{chunks_of, chunks_view, rest_of, ChunkAccumulator};
use vstd::prelude::*;

verus! {

/// What the loop does next.
pub enum WorkerAction<T> {
    /// The stop signal was seen: leave the loop.
    Exit,
    /// Nothing was drained: wait a short while and poll again.
    Sleep,
    /// Convert each of these whole windows, in order, and hand the joined
    /// output back.
    Resample(Vec<Vec<T>>),
    /// Transcribe each of these chunks, in order.
    Transcribe(Vec<Vec<T>>),
}

/// Whether the device's rate differs from the engine's, so that a rate
/// converter stands between them.
pub fn needs_resample(input_rate: u32, target_rate: u32) -> (r: bool)
    ensures
        r == (input_rate != target_rate),
{
    input_rate != target_rate
}

/// Whether a transcript increment is shown: empty ones are not.
pub fn should_emit(text: &str) -> (r: bool)
    ensures
        r == (text@.len() > 0),
{
    !text.is_empty()
}

/// The state of the worker between loop turns.
pub struct InferenceWorker<T> {
    windows: Option<ChunkAccumulator<T>>,
    chunks: ChunkAccumulator<T>,
    exiting: bool,
}

impl<T: Copy> InferenceWorker<T> {
    /// Whether the stop signal has been seen.
    pub closed spec fn spec_exiting(&self) -> bool {
        self.exiting
    }

    /// The length of the chunks the speech engine takes.
    pub closed spec fn spec_chunk_len(&self) -> nat {
        self.chunks.spec_chunk_len()
    }

    /// The converter's window length, where a converter is in use.
    pub closed spec fn spec_window_len(&self) -> Option<nat> {
        match self.windows {
            Some(w) => Some(w.spec_chunk_len()),
            None => None,
        }
    }

    /// Drained samples that do not yet fill a converter window.
    pub closed spec fn window_pending(&self) -> Seq<T> {
        match self.windows {
            Some(w) => w@,
            None => Seq::empty(),
        }
    }

    /// Converted samples that do not yet fill a chunk.
    pub closed spec fn chunk_pending(&self) -> Seq<T> {
        self.chunks@
    }

    /// Both splitters are well formed.
    pub closed spec fn wf(&self) -> bool {
        &&& self.chunks.wf()
        &&& match self.windows {
            Some(w) => w.wf(),
            None => true,
        }
    }

    /// Both the converter's and the engine's held-back samples are the same
    /// in `self` and `other`.
    pub open spec fn same_buffers(&self, other: &Self) -> bool {
        &&& self.window_pending() == other.window_pending()
        &&& self.chunk_pending() == other.chunk_pending()
    }

    /// What handling the non-empty `drained` in state `self` yields: with a
    /// converter, its whole windows after what it held back, for conversion;
    /// without one, the whole chunks after what the engine's side held back,
    /// for inference. In `after`, each side holds back what is left.
    pub open spec fn split_drained(&self, drained: Seq<T>, r: WorkerAction<T>, after: &Self) -> bool {
        match self.spec_window_len() {
            Some(w) => match r {
                WorkerAction::Resample(ws) => {
                    &&& chunks_view(ws@) == chunks_of(self.window_pending() + drained, w)
                    &&& after.window_pending() == rest_of(self.window_pending() + drained, w)
                    &&& after.chunk_pending() == self.chunk_pending()
                },
                _ => false,
            },
            None => match r {
                WorkerAction::Transcribe(cs) => {
                    &&& chunks_view(cs@) == chunks_of(self.chunk_pending() + drained, self.spec_chunk_len())
                    &&& after.chunk_pending() == rest_of(self.chunk_pending() + drained, self.spec_chunk_len())
                    &&& after.window_pending() == self.window_pending()
                },
                _ => false,
            },
        }
    }

    /// A worker for chunks of `chunk_len` samples; with a window length,
    /// drained samples go through a rate converter that takes windows of
    /// that length, and without one they are chunked as they come.
    pub fn new(chunk_len: usize, window_len: Option<usize>) -> (r: Self)
        requires
            chunk_len > 0,
            window_len matches Some(w) ==> w > 0,
        ensures
            r.wf(),
            !r.spec_exiting(),
            r.spec_chunk_len() == chunk_len,
            r.spec_window_len() == (match window_len {
                Some(w) => Some(w as nat),
                None => None,
            }),
            r.window_pending() == Seq::<T>::empty(),
            r.chunk_pending() == Seq::<T>::empty(),
    {
        let windows = match window_len {
            Some(w) => Some(ChunkAccumulator::new(w)),
            None => None,
        };
        InferenceWorker { windows, chunks: ChunkAccumulator::new(chunk_len), exiting: false }
    }

    /// Whether the stop signal has been seen.
    pub fn is_exiting(&self) -> (r: bool)
        ensures
            r == self.spec_exiting(),
    {
        self.exiting
    }

    /// How many converted samples wait for a chunk to fill.
    pub fn chunk_pending_len(&self) -> (r: usize)
        ensures
            r == self.chunk_pending().len(),
    {
        self.chunks.pending_len()
    }

    /// How many drained samples wait for a converter window to fill.
    pub fn window_pending_len(&self) -> (r: usize)
        ensures
            r == self.window_pending().len(),
    {
        match &self.windows {
            Some(w) => w.pending_len(),
            None => 0,
        }
    }

    /// The check at the top of each loop turn. Once the stop signal has been
    /// seen the worker stays exiting; it goes on to drain only while it is not.
    pub fn poll(&mut self, stop_requested: bool) -> (r: bool)
        requires
            old(self).wf(),
        ensures
            final(self).wf(),
            final(self).spec_exiting() == (old(self).spec_exiting() || stop_requested),
            r == !final(self).spec_exiting(),
            final(self).spec_chunk_len() == old(self).spec_chunk_len(),
            final(self).spec_window_len() == old(self).spec_window_len(),
            final(self).window_pending() == old(self).window_pending(),
            final(self).chunk_pending() == old(self).chunk_pending(),
    {
        if stop_requested {
            self.exiting = true;
        }
        !self.exiting
    }

    /// Decides what to do with the samples just drained from the bridge.
    /// After the stop signal the answer is always to exit, and nothing is
    /// handed out for inference.
    pub fn on_drained(&mut self, drained: &Vec<T>) -> (r: WorkerAction<T>)
        requires
            old(self).wf(),
        ensures
            final(self).wf(),
            final(self).spec_exiting() == old(self).spec_exiting(),
            final(self).spec_chunk_len() == old(self).spec_chunk_len(),
            final(self).spec_window_len() == old(self).spec_window_len(),
            old(self).spec_exiting() ==> r is Exit && final(self).same_buffers(old(self)),
            !old(self).spec_exiting() && drained@.len() == 0 ==> r is Sleep && final(self).same_buffers(old(self)),
            !old(self).spec_exiting() && drained@.len() > 0 ==> old(self).split_drained(drained@, r, final(self)),
    {
        if self.exiting {
            return WorkerAction::Exit;
        }
        if drained.len() == 0 {
            return WorkerAction::Sleep;
        }
        match &mut self.windows {
            Some(w) => WorkerAction::Resample(w.append(drained)),
            None => WorkerAction::Transcribe(self.chunks.append(drained)),
        }
    }

    /// Takes the rate converter's joined output for the windows last handed
    /// out and returns every chunk that is now complete, in order. After the
    /// stop signal nothing is handed out for inference.
    pub fn on_converted(&mut self, converted: &Vec<T>) -> (r: Vec<Vec<T>>)
        requires
            old(self).wf(),
        ensures
            final(self).wf(),
            final(self).spec_exiting() == old(self).spec_exiting(),
            final(self).spec_chunk_len() == old(self).spec_chunk_len(),
            final(self).spec_window_len() == old(self).spec_window_len(),
            final(self).window_pending() == old(self).window_pending(),
            old(self).spec_exiting() ==> r@.len() == 0 && final(self).chunk_pending() == old(self).chunk_pending(),
            !old(self).spec_exiting() ==> chunks_view(r@) == chunks_of(old(self).chunk_pending() + converted@, old(self).spec_chunk_len()),
            !old(self).spec_exiting() ==> final(self).chunk_pending() == rest_of(old(self).chunk_pending() + converted@, old(self).spec_chunk_len()),
    {
        if self.exiting {
            return Vec::new();
        }
        self.chunks.append(converted)
    }
}

} // verus!
