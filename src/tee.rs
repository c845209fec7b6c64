//! The decisions of the fetch pipeline that copies a remote stream both to a
//! file on disk and to the client.
//!
//! The pipeline is a state machine: the caller performs the action it names,
//! reports the outcome as the next event, and so on. Each chunk read is first
//! written to the file and only then forwarded; a client that goes away stops
//! the forwarding but not the writing; and only a stream that ends cleanly and
//! whose file was closed without error is registered with the store.
use vstd::prelude::*;

verus! {

/// Where the pipeline stands.
#[derive(PartialEq, Eq, Structural, Clone, Copy, Debug)]
pub enum TeePhase {
    /// Waiting for the next chunk (or the end) of the remote stream.
    AwaitChunk,
    /// A chunk is being written to the file.
    Writing,
    /// The chunk just written is being forwarded to the client.
    Forwarding,
    /// The stream has ended; the file is being flushed and closed.
    Closing,
    /// The file is complete and the entry has been registered.
    Complete,
    /// The pipeline failed: the partial file is dropped and the response fails.
    Aborted,
}

/// What the caller observed since the last action.
#[derive(PartialEq, Eq, Structural, Clone, Copy, Debug)]
pub enum TeeEvent {
    /// The remote stream delivered a chunk.
    Chunk,
    /// The remote stream ended.
    StreamEnded,
    /// Reading the remote stream failed.
    StreamFailed,
    /// The chunk was written to the file.
    WriteOk,
    /// Writing the chunk to the file failed.
    WriteFailed,
    /// The chunk reached the client's channel.
    ForwardOk,
    /// The client's channel is closed: the client went away.
    ForwardFailed,
    /// The file was flushed and closed.
    CloseOk,
    /// Flushing or closing the file failed.
    CloseFailed,
}

/// What the caller is to do next.
#[derive(PartialEq, Eq, Structural, Clone, Copy, Debug)]
pub enum TeeAction {
    /// Read the next chunk of the remote stream.
    ReadNext,
    /// Write the chunk just read to the file.
    WriteChunk,
    /// Forward the chunk just written to the client.
    ForwardChunk,
    /// Flush and close the file.
    CloseFile,
    /// Register the file as the cache entry of the key.
    Register,
    /// Remove the partial file and fail the response.
    Abort,
    /// Nothing: the pipeline is over.
    Done,
}

/// The state of one fetch pipeline.
#[derive(PartialEq, Eq, Structural, Clone, Copy, Debug)]
pub struct TeePipeline {
    pub phase: TeePhase,
    /// Whether the client is still taking the forwarded chunks.
    pub client_connected: bool,
}

/// Whether `e` reports a failure of the stream or of the file.
pub open spec fn is_failure(e: TeeEvent) -> bool {
    e == TeeEvent::StreamFailed || e == TeeEvent::WriteFailed || e == TeeEvent::CloseFailed
}

/// Whether the pipeline is still running.
pub open spec fn is_live(p: TeePhase) -> bool {
    p != TeePhase::Complete && p != TeePhase::Aborted
}

/// The pipeline in phase `phase`, with the client's state of `p`.
pub open spec fn with_phase(p: TeePipeline, phase: TeePhase) -> TeePipeline {
    TeePipeline { phase, client_connected: p.client_connected }
}

/// The failed pipeline.
pub open spec fn aborted(p: TeePipeline) -> (TeePipeline, TeeAction) {
    (with_phase(p, TeePhase::Aborted), TeeAction::Abort)
}

/// One step: the next state and action after event `e` in state `p`. An event
/// that cannot come in the current phase fails the pipeline; once it is over,
/// events change nothing.
pub open spec fn tee_step(p: TeePipeline, e: TeeEvent) -> (TeePipeline, TeeAction) {
    match p.phase {
        TeePhase::AwaitChunk => match e {
            TeeEvent::Chunk => (with_phase(p, TeePhase::Writing), TeeAction::WriteChunk),
            TeeEvent::StreamEnded => (with_phase(p, TeePhase::Closing), TeeAction::CloseFile),
            _ => aborted(p),
        },
        TeePhase::Writing => match e {
            TeeEvent::WriteOk => if p.client_connected {
                (with_phase(p, TeePhase::Forwarding), TeeAction::ForwardChunk)
            } else {
                (with_phase(p, TeePhase::AwaitChunk), TeeAction::ReadNext)
            },
            _ => aborted(p),
        },
        TeePhase::Forwarding => match e {
            TeeEvent::ForwardOk => (with_phase(p, TeePhase::AwaitChunk), TeeAction::ReadNext),
            TeeEvent::ForwardFailed => (
                TeePipeline { phase: TeePhase::AwaitChunk, client_connected: false },
                TeeAction::ReadNext,
            ),
            _ => aborted(p),
        },
        TeePhase::Closing => match e {
            TeeEvent::CloseOk => (with_phase(p, TeePhase::Complete), TeeAction::Register),
            _ => aborted(p),
        },
        TeePhase::Complete => (p, TeeAction::Done),
        TeePhase::Aborted => (p, TeeAction::Done),
    }
}

/// The pipeline at its start: waiting for the first chunk, client connected.
pub open spec fn tee_start() -> TeePipeline {
    TeePipeline { phase: TeePhase::AwaitChunk, client_connected: true }
}

/// The state after the first `m` events of `evs`, from the start.
pub open spec fn state_after(evs: Seq<TeeEvent>, m: nat) -> TeePipeline
    decreases m,
{
    if m == 0 {
        tee_start()
    } else {
        tee_step(state_after(evs, (m - 1) as nat), evs[m - 1]).0
    }
}

/// The action taken on event `j` of `evs`.
pub open spec fn action_at(evs: Seq<TeeEvent>, j: nat) -> TeeAction {
    tee_step(state_after(evs, j), evs[j as int]).1
}

impl TeePipeline {
    /// A pipeline at its start; its first action is to read a chunk.
    pub fn new() -> (r: TeePipeline)
        ensures
            r == tee_start(),
    {
        TeePipeline { phase: TeePhase::AwaitChunk, client_connected: true }
    }

    /// Whether the pipeline is over, completed or failed.
    pub fn is_finished(&self) -> (r: bool)
        ensures
            r == !is_live(self.phase),
    {
        self.phase == TeePhase::Complete || self.phase == TeePhase::Aborted
    }

    /// Takes event `e` and says what to do next.
    pub fn step(&mut self, e: TeeEvent) -> (r: TeeAction)
        ensures
            (*final(self), r) == tee_step(*old(self), e),
    {
        let connected = self.client_connected;
        let (phase, action) = match self.phase {
            TeePhase::AwaitChunk => match e {
                TeeEvent::Chunk => (TeePhase::Writing, TeeAction::WriteChunk),
                TeeEvent::StreamEnded => (TeePhase::Closing, TeeAction::CloseFile),
                _ => (TeePhase::Aborted, TeeAction::Abort),
            },
            TeePhase::Writing => match e {
                TeeEvent::WriteOk => if connected {
                    (TeePhase::Forwarding, TeeAction::ForwardChunk)
                } else {
                    (TeePhase::AwaitChunk, TeeAction::ReadNext)
                },
                _ => (TeePhase::Aborted, TeeAction::Abort),
            },
            TeePhase::Forwarding => match e {
                TeeEvent::ForwardOk => (TeePhase::AwaitChunk, TeeAction::ReadNext),
                TeeEvent::ForwardFailed => {
                    self.client_connected = false;
                    (TeePhase::AwaitChunk, TeeAction::ReadNext)
                },
                _ => (TeePhase::Aborted, TeeAction::Abort),
            },
            TeePhase::Closing => match e {
                TeeEvent::CloseOk => (TeePhase::Complete, TeeAction::Register),
                _ => (TeePhase::Aborted, TeeAction::Abort),
            },
            TeePhase::Complete => (TeePhase::Complete, TeeAction::Done),
            TeePhase::Aborted => (TeePhase::Aborted, TeeAction::Done),
        };
        self.phase = phase;
        action
    }
}

/// A finished pipeline stays finished, in the same phase.
pub proof fn lemma_finished_stays(evs: Seq<TeeEvent>, k: nat, m: nat)
    requires
        k <= m <= evs.len(),
        !is_live(state_after(evs, k).phase),
    ensures
        state_after(evs, m).phase == state_after(evs, k).phase,
    decreases m - k,
{
    if m > k {
        lemma_finished_stays(evs, k, (m - 1) as nat);
    }
}

/// While the pipeline runs, no failure has been reported, and a pipeline that
/// is closing its file has seen the end of the stream.
pub proof fn lemma_live_history(evs: Seq<TeeEvent>, m: nat)
    requires
        m <= evs.len(),
    ensures
        is_live(state_after(evs, m).phase) ==> forall|i: int| 0 <= i < m ==> !is_failure(evs[i]),
        state_after(evs, m).phase == TeePhase::Closing ==> exists|i: int|
            0 <= i < m && evs[i] == TeeEvent::StreamEnded,
    decreases m,
{
    if m > 0 {
        let k = (m - 1) as nat;
        lemma_live_history(evs, k);
        let p = state_after(evs, k);
        if state_after(evs, m).phase == TeePhase::Closing && p.phase != TeePhase::Closing {
            assert(evs[k as int] == TeeEvent::StreamEnded);
        }
    }
}

/// A cache entry is registered only for a clean run: a file is registered on
/// at most one event, never after or on a failure of the stream, of a write
/// or of the close, and only after the remote stream has ended. So a stream
/// that fails part-way leaves no entry behind.
pub proof fn lemma_register_only_after_clean_end(evs: Seq<TeeEvent>, j: nat)
    requires
        j < evs.len(),
        action_at(evs, j) == TeeAction::Register,
    ensures
        forall|i: int| 0 <= i <= j ==> !is_failure(#[trigger] evs[i]),
        exists|i: int| 0 <= i < j && evs[i] == TeeEvent::StreamEnded,
        forall|k: nat| k < evs.len() && k != j ==> action_at(evs, k) != TeeAction::Register,
{
    lemma_live_history(evs, j);
    assert(state_after(evs, j).phase == TeePhase::Closing);
    assert(state_after(evs, j + 1).phase == TeePhase::Complete);
    assert forall|k: nat| k < evs.len() && k != j implies action_at(evs, k)
        != TeeAction::Register by {
        if k > j {
            lemma_finished_stays(evs, j + 1, k);
        } else if action_at(evs, k) == TeeAction::Register {
            assert(state_after(evs, k + 1).phase == TeePhase::Complete);
            lemma_finished_stays(evs, k + 1, j);
        }
    }
}

/// A chunk is forwarded to the client only on the event that reports its
/// write to the file as done.
pub proof fn lemma_forward_after_write(evs: Seq<TeeEvent>, j: nat)
    requires
        j < evs.len(),
        action_at(evs, j) == TeeAction::ForwardChunk,
    ensures
        evs[j as int] == TeeEvent::WriteOk,
        state_after(evs, j).phase == TeePhase::Writing,
{
}

/// A client that went away does not stop the copy to disk: a chunk read after
/// that is still written to the file.
pub proof fn lemma_disconnect_keeps_writing(p: TeePipeline)
    requires
        p.phase == TeePhase::Forwarding,
    ensures
        tee_step(p, TeeEvent::ForwardFailed).1 == TeeAction::ReadNext,
        tee_step(tee_step(p, TeeEvent::ForwardFailed).0, TeeEvent::Chunk).1
            == TeeAction::WriteChunk,
{
}

} // verus!
